//! Parser for the external downloader's status lines. A line of the shape
//! `[#<id> <downloaded>B/<total>B(<pct>%)` anywhere in the text yields the
//! `(downloaded, total)` byte pair; anything else is ignored. The leftmost
//! such shape is the one that counts, and a number too large for `u64`
//! makes the line unusable.

use vstd::prelude::*;

use crate::text::{
    class_pred, is_digit_char, is_id_char, is_space_char, run_end, scan_class, str_chars,
    CharClass,
};

verus! {

/// Numeric value of a sequence of decimal digits (most significant first).
pub open spec fn dec_val(s: Seq<char>) -> nat
    decreases s.len(),
{
    if s.len() == 0 {
        0
    } else {
        (dec_val(s.drop_last()) * 10 + (s.last() as u32 - '0' as u32)) as nat
    }
}

/// The value of a digit run, if it fits in a `u64`.
pub open spec fn digits_value(s: Seq<char>) -> Option<u64> {
    if dec_val(s) <= u64::MAX {
        Some(dec_val(s) as u64)
    } else {
        None
    }
}

/// The two captured digit runs of a progress shape starting exactly at `i`:
/// `[#`, a nonempty run of word characters, nonempty whitespace, the
/// downloaded digits, `B/`, the total digits, `B(`, the percent digits, `%)`.
pub open spec fn match_shape(s: Seq<char>, i: int) -> Option<(Seq<char>, Seq<char>)> {
    if 0 <= i && i + 2 <= s.len() && s[i] == '[' && s[i + 1] == '#' {
        let w = run_end(s, i + 2, class_pred(CharClass::IdChar));
        let sp = run_end(s, w, class_pred(CharClass::SpaceChar));
        let d1 = run_end(s, sp, class_pred(CharClass::DigitChar));
        if w == i + 2 || sp == w || d1 == sp || d1 + 2 > s.len() || s[d1] != 'B' || s[d1 + 1]
            != '/' {
            None
        } else {
            let d2 = run_end(s, d1 + 2, class_pred(CharClass::DigitChar));
            if d2 == d1 + 2 || d2 + 2 > s.len() || s[d2] != 'B' || s[d2 + 1] != '(' {
                None
            } else {
                let d3 = run_end(s, d2 + 2, class_pred(CharClass::DigitChar));
                if d3 == d2 + 2 || d3 + 2 > s.len() || s[d3] != '%' || s[d3 + 1] != ')' {
                    None
                } else {
                    Some((s.subrange(sp, d1), s.subrange(d1 + 2, d2)))
                }
            }
        }
    } else {
        None
    }
}

/// Both captured numbers, if both fit in a `u64`.
pub open spec fn match_values(m: (Seq<char>, Seq<char>)) -> Option<(u64, u64)> {
    match (digits_value(m.0), digits_value(m.1)) {
        (Some(a), Some(b)) => Some((a, b)),
        _ => None,
    }
}

/// Result for the leftmost progress shape at or after `i`.
pub open spec fn progress_from(s: Seq<char>, i: int) -> Option<(u64, u64)>
    decreases s.len() - i,
{
    if i < 0 || i >= s.len() {
        None
    } else {
        match match_shape(s, i) {
            Some(m) => match_values(m),
            None => progress_from(s, i + 1),
        }
    }
}

/// What progress-line parsing returns for a whole line.
pub open spec fn progress_spec(s: Seq<char>) -> Option<(u64, u64)> {
    progress_from(s, 0)
}

/// The value of any prefix of a digit run is at most the value of the whole
/// run.
proof fn lemma_dec_val_take_le(s: Seq<char>, k: int)
    requires
        0 <= k <= s.len(),
        forall|j: int| 0 <= j < s.len() ==> is_digit_char(s[j]),
    ensures
        dec_val(s.take(k)) <= dec_val(s),
    decreases s.len() - k,
{
    if k < s.len() {
        lemma_dec_val_take_le(s, k + 1);
        assert(s.take(k + 1).drop_last() =~= s.take(k));
        assert(is_digit_char(s[k]));
        assert(dec_val(s.take(k + 1)) >= dec_val(s.take(k)) * 10);
    } else {
        assert(s.take(k) =~= s);
    }
}

/// Accumulate the digits `v[start..end]` into a `u64`, reporting overflow
/// as `None`.
fn digits_to_u64(v: &Vec<char>, start: usize, end: usize) -> (r: Option<u64>)
    requires
        start <= end <= v@.len(),
        forall|j: int| start <= j < end ==> is_digit_char(v@[j]),
    ensures
        r == digits_value(v@.subrange(start as int, end as int)),
{
    let ghost whole = v@.subrange(start as int, end as int);
    let mut acc: u64 = 0;
    let mut j: usize = start;
    while j < end
        invariant
            start <= j <= end <= v@.len(),
            whole == v@.subrange(start as int, end as int),
            forall|i: int| start <= i < end ==> is_digit_char(v@[i]),
            acc as nat == dec_val(v@.subrange(start as int, j as int)),
        decreases end - j,
    {
        let d: u32 = (v[j] as u32) - 48;
        proof {
            assert(is_digit_char(v@[j as int]));
            assert(v@[j as int] as u32 >= 48 && v@[j as int] as u32 <= 57);
            assert(v@.subrange(start as int, j + 1).drop_last() =~= v@.subrange(
                start as int,
                j as int,
            ));
            assert(v@.subrange(start as int, j + 1).last() == v@[j as int]);
        }
        let next = match acc.checked_mul(10) {
            Some(x) => x.checked_add(d as u64),
            None => None,
        };
        match next {
            Some(x) => {
                acc = x;
            }
            None => {
                proof {
                    assert(dec_val(v@.subrange(start as int, j + 1)) > u64::MAX);
                    lemma_dec_val_take_le(whole, j + 1 - start);
                    assert(whole.take(j + 1 - start) =~= v@.subrange(start as int, j + 1));
                }
                return None;
            }
        }
        j = j + 1;
    }
    proof {
        assert(v@.subrange(start as int, end as int) =~= whole);
    }
    Some(acc)
}

/// Try to recognise the progress shape starting exactly at `i`. `None`
/// means no shape starts here; `Some(x)` means one does, and `x` is the
/// parsed byte pair (or `None` on numeric overflow).
fn try_match_at(v: &Vec<char>, i: usize) -> (r: Option<Option<(u64, u64)>>)
    requires
        i < v@.len(),
    ensures
        r is None ==> match_shape(v@, i as int) is None,
        r matches Some(x) ==> match_shape(v@, i as int) matches Some(m) && x == match_values(m),
{
    if !(v.len() - i >= 2 && v[i] == '[' && v[i + 1] == '#') {
        return None;
    }
    let w = scan_class(v, i + 2, CharClass::IdChar);
    if w == i + 2 {
        return None;
    }
    let sp = scan_class(v, w, CharClass::SpaceChar);
    if sp == w {
        return None;
    }
    let d1 = scan_class(v, sp, CharClass::DigitChar);
    if d1 == sp || v.len() - d1 < 2 || v[d1] != 'B' || v[d1 + 1] != '/' {
        return None;
    }
    let d2 = scan_class(v, d1 + 2, CharClass::DigitChar);
    if d2 == d1 + 2 || v.len() - d2 < 2 || v[d2] != 'B' || v[d2 + 1] != '(' {
        return None;
    }
    let d3 = scan_class(v, d2 + 2, CharClass::DigitChar);
    if d3 == d2 + 2 || v.len() - d3 < 2 || v[d3] != '%' || v[d3 + 1] != ')' {
        return None;
    }
    let down = digits_to_u64(v, sp, d1);
    let total = digits_to_u64(v, d1 + 2, d2);
    match (down, total) {
        (Some(a), Some(b)) => Some(Some((a, b))),
        _ => Some(None),
    }
}

/// Extract the `(downloaded, total)` byte pair from a status line, if the
/// line carries the progress shape.
pub fn parse_aria2_progress(line: &str) -> (r: Option<(u64, u64)>)
    ensures
        r == progress_spec(line@),
{
    let v = str_chars(line);
    let mut i: usize = 0;
    while i < v.len()
        invariant
            i <= v@.len(),
            v@ == line@,
            progress_spec(line@) == progress_from(v@, i as int),
        decreases v@.len() - i,
    {
        match try_match_at(&v, i) {
            Some(x) => {
                return x;
            }
            None => {
                i = i + 1;
            }
        }
    }
    None
}

} // verus!
