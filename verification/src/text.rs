//! Character-level helpers shared by the parsing and formatting modules:
//! conversion between `&str`/`String` and `Vec<char>`, prefix predicates,
//! and decimal rendering of integers.

use vstd::prelude::*;

verus! {

/// `p` is a prefix of `s`.
pub open spec fn has_prefix(s: Seq<char>, p: Seq<char>) -> bool {
    p.len() <= s.len() && s.take(p.len() as int) == p
}

/// Collect the characters of a string slice into a vector.
pub fn str_chars(s: &str) -> (r: Vec<char>)
    ensures
        r@ == s@,
{
    let n = s.unicode_len();
    let mut v: Vec<char> = Vec::new();
    let mut i: usize = 0;
    while i < n
        invariant
            n == s@.len(),
            i <= n,
            v@ == s@.take(i as int),
        decreases n - i,
    {
        let c = s.get_char(i);
        v.push(c);
        i = i + 1;
        proof {
            assert(v@ =~= s@.take(i as int));
        }
    }
    proof {
        assert(v@ =~= s@);
    }
    v
}

/// The characters of an optional owned string.
pub open spec fn opt_str_view(o: Option<String>) -> Option<Seq<char>> {
    match o {
        Some(s) => Some(s@),
        None => None,
    }
}

/// Copy `v[a..b]` into a fresh vector.
pub fn sub_chars(v: &Vec<char>, a: usize, b: usize) -> (r: Vec<char>)
    requires
        a <= b <= v@.len(),
    ensures
        r@ == v@.subrange(a as int, b as int),
{
    let mut r: Vec<char> = Vec::new();
    let mut i: usize = a;
    while i < b
        invariant
            a <= i <= b <= v@.len(),
            r@.len() == i - a,
            forall|j: int| 0 <= j < r@.len() ==> r@[j] == v@[a + j],
        decreases b - i,
    {
        r.push(v[i]);
        i = i + 1;
    }
    proof {
        assert(r@ =~= v@.subrange(a as int, b as int));
    }
    r
}

/// Character-for-character equality of two string slices.
pub fn str_eq(a: &str, b: &str) -> (r: bool)
    ensures
        r == (a@ == b@),
{
    let n = a.unicode_len();
    let m = b.unicode_len();
    if n != m {
        proof {
            if a@ == b@ {
                assert(a@.len() == b@.len());
            }
        }
        return false;
    }
    let mut i: usize = 0;
    while i < n
        invariant
            n == a@.len() == b@.len(),
            i <= n,
            forall|j: int| 0 <= j < i ==> a@[j] == b@[j],
        decreases n - i,
    {
        if a.get_char(i) != b.get_char(i) {
            return false;
        }
        i = i + 1;
    }
    proof {
        assert(a@ =~= b@);
    }
    true
}

/// Relies on `String: FromIterator<char>` from std: collecting chars yields a
/// string holding exactly those characters in order.
#[verifier::external_body]
pub(crate) fn chars_to_string(v: &Vec<char>) -> (r: String)
    ensures
        r@ == v@,
{
    v.iter().collect()
}

/// Drop the longest prefix of characters satisfying `p`.
pub open spec fn trim_front_by(s: Seq<char>, p: spec_fn(char) -> bool) -> Seq<char>
    decreases s.len(),
{
    if s.len() > 0 && p(s[0]) {
        trim_front_by(s.drop_first(), p)
    } else {
        s
    }
}

/// Drop the longest suffix of characters satisfying `p`.
pub open spec fn trim_back_by(s: Seq<char>, p: spec_fn(char) -> bool) -> Seq<char>
    decreases s.len(),
{
    if s.len() > 0 && p(s.last()) {
        trim_back_by(s.drop_last(), p)
    } else {
        s
    }
}

/// Drop the longest prefix and suffix of characters satisfying `p`.
pub open spec fn trim_by(s: Seq<char>, p: spec_fn(char) -> bool) -> Seq<char> {
    trim_back_by(trim_front_by(s, p), p)
}

pub proof fn lemma_trim_front_by_props(s: Seq<char>, p: spec_fn(char) -> bool)
    ensures
        trim_front_by(s, p).len() <= s.len(),
        trim_front_by(s, p) == s.skip(s.len() - trim_front_by(s, p).len()),
        trim_front_by(s, p).len() > 0 ==> !p(trim_front_by(s, p)[0]),
    decreases s.len(),
{
    if s.len() > 0 && p(s[0]) {
        lemma_trim_front_by_props(s.drop_first(), p);
        let t = trim_front_by(s, p);
        assert(s.skip(s.len() - t.len()) =~= s.drop_first().skip(
            s.drop_first().len() - t.len(),
        ));
    } else {
        assert(s.skip(0) =~= s);
    }
}

pub proof fn lemma_trim_back_by_props(s: Seq<char>, p: spec_fn(char) -> bool)
    ensures
        trim_back_by(s, p).len() <= s.len(),
        trim_back_by(s, p) == s.take(trim_back_by(s, p).len() as int),
        trim_back_by(s, p).len() > 0 ==> !p(trim_back_by(s, p).last()),
    decreases s.len(),
{
    if s.len() > 0 && p(s.last()) {
        lemma_trim_back_by_props(s.drop_last(), p);
        let t = trim_back_by(s, p);
        assert(s.take(t.len() as int) =~= s.drop_last().take(t.len() as int));
    } else {
        assert(s.take(s.len() as int) =~= s);
    }
}

/// The trimmed sequence is a contiguous piece of `s` whose ends do not
/// satisfy `p`.
pub proof fn lemma_trim_by_props(s: Seq<char>, p: spec_fn(char) -> bool) -> (a: int)
    ensures
        0 <= a,
        a + trim_by(s, p).len() <= s.len(),
        trim_by(s, p) == s.subrange(a, a + trim_by(s, p).len()),
        trim_by(s, p).len() > 0 ==> !p(trim_by(s, p)[0]),
        trim_by(s, p).len() > 0 ==> !p(trim_by(s, p).last()),
{
    lemma_trim_front_by_props(s, p);
    let tf = trim_front_by(s, p);
    lemma_trim_back_by_props(tf, p);
    let t = trim_by(s, p);
    let a = s.len() - tf.len();
    assert(t == tf.take(t.len() as int));
    assert(t =~= s.subrange(a, a + t.len()));
    if t.len() > 0 {
        assert(t[0] == tf[0]);
    }
    a
}

/// If a prefix of `p`-characters ends at `a` (`a` itself does not satisfy
/// `p`, or is the end), the front trim drops exactly that prefix.
pub proof fn lemma_trim_front_by_index(s: Seq<char>, p: spec_fn(char) -> bool, a: int)
    requires
        0 <= a <= s.len(),
        forall|j: int| 0 <= j < a ==> p(s[j]),
        a == s.len() || !p(s[a]),
    ensures
        trim_front_by(s, p) == s.skip(a),
    decreases s.len(),
{
    if s.len() > 0 && p(s[0]) {
        assert(a >= 1);
        lemma_trim_front_by_index(s.drop_first(), p, a - 1);
        assert(s.skip(a) =~= s.drop_first().skip(a - 1));
    } else {
        assert(a == 0);
        assert(s.skip(0) =~= s);
    }
}

/// If a suffix of `p`-characters starts at `b` (`b - 1` does not satisfy
/// `p`, or is before the start), the back trim drops exactly that suffix.
pub proof fn lemma_trim_back_by_index(s: Seq<char>, p: spec_fn(char) -> bool, b: int)
    requires
        0 <= b <= s.len(),
        forall|j: int| b <= j < s.len() ==> p(s[j]),
        b == 0 || !p(s[b - 1]),
    ensures
        trim_back_by(s, p) == s.take(b),
    decreases s.len(),
{
    if s.len() > 0 && p(s.last()) {
        assert(b < s.len());
        lemma_trim_back_by_index(s.drop_last(), p, b);
        assert(s.take(b) =~= s.drop_last().take(b));
    } else {
        assert(b == s.len());
        assert(s.take(b) =~= s);
    }
}

/// First index at or after `i` whose character does not satisfy `p` (or the
/// end of `s`).
pub open spec fn run_end(s: Seq<char>, i: int, p: spec_fn(char) -> bool) -> int
    decreases s.len() - i,
{
    if i < s.len() && p(s[i]) {
        run_end(s, i + 1, p)
    } else {
        i
    }
}

pub proof fn lemma_run_end(s: Seq<char>, i: int, p: spec_fn(char) -> bool)
    requires
        0 <= i <= s.len(),
    ensures
        i <= run_end(s, i, p) <= s.len(),
        forall|j: int| i <= j < run_end(s, i, p) ==> p(s[j]),
        run_end(s, i, p) < s.len() ==> !p(s[run_end(s, i, p)]),
    decreases s.len() - i,
{
    if i < s.len() && p(s[i]) {
        lemma_run_end(s, i + 1, p);
    }
}

/// A word character as in the progress-line identifier: ASCII letter, digit
/// or underscore.
pub open spec fn is_id_char(c: char) -> bool {
    ('a' <= c && c <= 'z') || ('A' <= c && c <= 'Z') || ('0' <= c && c <= '9') || c == '_'
}

/// An ASCII whitespace character.
pub open spec fn is_space_char(c: char) -> bool {
    c == ' ' || c == '\t' || c == '\n' || c == '\r' || c == '\u{b}' || c == '\u{c}'
}

/// An ASCII decimal digit.
pub open spec fn is_digit_char(c: char) -> bool {
    '0' <= c && c <= '9'
}

/// The character classes that the parsers scan runs of.
#[derive(Clone, Copy)]
pub enum CharClass {
    IdChar,
    SpaceChar,
    DigitChar,
    NotSemi,
    NotApos,
}

pub open spec fn class_pred(k: CharClass) -> spec_fn(char) -> bool {
    match k {
        CharClass::IdChar => |c: char| is_id_char(c),
        CharClass::SpaceChar => |c: char| is_space_char(c),
        CharClass::DigitChar => |c: char| is_digit_char(c),
        CharClass::NotSemi => |c: char| c != ';',
        CharClass::NotApos => |c: char| c != '\'',
    }
}

pub fn class_holds(k: CharClass, c: char) -> (r: bool)
    ensures
        r == class_pred(k)(c),
{
    match k {
        CharClass::IdChar => ('a' <= c && c <= 'z') || ('A' <= c && c <= 'Z') || ('0' <= c && c
            <= '9') || c == '_',
        CharClass::SpaceChar => c == ' ' || c == '\t' || c == '\n' || c == '\r' || c == '\u{b}'
            || c == '\u{c}',
        CharClass::DigitChar => '0' <= c && c <= '9',
        CharClass::NotSemi => c != ';',
        CharClass::NotApos => c != '\'',
    }
}

/// Scan the run of `k`-class characters beginning at `start`.
pub fn scan_class(v: &Vec<char>, start: usize, k: CharClass) -> (r: usize)
    requires
        start <= v@.len(),
    ensures
        r == run_end(v@, start as int, class_pred(k)),
        start <= r <= v@.len(),
        forall|j: int| start <= j < r ==> class_pred(k)(v@[j]),
        r < v@.len() ==> !class_pred(k)(v@[r as int]),
{
    let ghost p = class_pred(k);
    let mut i: usize = start;
    while i < v.len() && class_holds(k, v[i])
        invariant
            p == class_pred(k),
            start <= i <= v@.len(),
            run_end(v@, start as int, p) == run_end(v@, i as int, p),
        decreases v@.len() - i,
    {
        proof {
            assert(run_end(v@, i as int, p) == run_end(v@, i + 1, p)) by {
                assert(i < v@.len() && p(v@[i as int]));
            }
        }
        i = i + 1;
    }
    proof {
        lemma_run_end(v@, start as int, p);
    }
    i
}

pub open spec fn dec_digit_char(d: nat) -> char {
    if d == 0 {
        '0'
    } else if d == 1 {
        '1'
    } else if d == 2 {
        '2'
    } else if d == 3 {
        '3'
    } else if d == 4 {
        '4'
    } else if d == 5 {
        '5'
    } else if d == 6 {
        '6'
    } else if d == 7 {
        '7'
    } else if d == 8 {
        '8'
    } else {
        '9'
    }
}

/// Decimal rendering of `n`, most significant digit first, no leading
/// zeros (a single `0` for zero).
pub open spec fn dec_rep(n: nat) -> Seq<char>
    decreases n,
{
    if n < 10 {
        seq![dec_digit_char(n)]
    } else {
        dec_rep(n / 10) + seq![dec_digit_char(n % 10)]
    }
}

/// `s` backwards.
pub open spec fn rev_chars(s: Seq<char>) -> Seq<char> {
    Seq::new(s.len(), |j: int| s[s.len() - 1 - j])
}

fn dec_digit(d: u64) -> (c: char)
    requires
        d < 10,
    ensures
        c == dec_digit_char(d as nat),
{
    if d == 0 {
        '0'
    } else if d == 1 {
        '1'
    } else if d == 2 {
        '2'
    } else if d == 3 {
        '3'
    } else if d == 4 {
        '4'
    } else if d == 5 {
        '5'
    } else if d == 6 {
        '6'
    } else if d == 7 {
        '7'
    } else if d == 8 {
        '8'
    } else {
        '9'
    }
}

fn u64_to_dec_chars(n: u64) -> (r: Vec<char>)
    ensures
        r@ == dec_rep(n as nat),
{
    let mut m: u64 = n;
    let mut low: Vec<char> = Vec::new();
    while m >= 10
        invariant
            dec_rep(n as nat) == dec_rep(m as nat) + rev_chars(low@),
        decreases m,
    {
        let d = m % 10;
        proof {
            assert(dec_rep(m as nat) == dec_rep((m / 10) as nat) + seq![
                dec_digit_char((m % 10) as nat),
            ]);
            assert(rev_chars(low@.push(dec_digit_char(d as nat))) =~= seq![
                dec_digit_char(d as nat),
            ] + rev_chars(low@));
            assert(dec_rep((m / 10) as nat) + seq![dec_digit_char(d as nat)] + rev_chars(low@)
                =~= dec_rep((m / 10) as nat) + (seq![dec_digit_char(d as nat)] + rev_chars(
                low@,
            )));
        }
        low.push(dec_digit(d));
        m = m / 10;
    }
    let mut r: Vec<char> = Vec::new();
    r.push(dec_digit(m));
    let mut i: usize = low.len();
    while i > 0
        invariant
            i <= low@.len(),
            r@.len() == 1 + low@.len() - i,
            r@[0] == dec_digit_char(m as nat),
            forall|j: int| 1 <= j < r@.len() ==> r@[j] == low@[low@.len() - j],
        decreases i,
    {
        i = i - 1;
        r.push(low[i]);
    }
    proof {
        assert(r@ =~= dec_rep(m as nat) + rev_chars(low@));
    }
    r
}

/// Decimal rendering of a `u64` as a string.
pub fn u64_to_string(n: u64) -> (r: String)
    ensures
        r@ == dec_rep(n as nat),
{
    let v = u64_to_dec_chars(n);
    chars_to_string(&v)
}

/// Decimal rendering of an integer: a minus sign ahead of the magnitude
/// for negative values.
pub open spec fn int_rep(n: int) -> Seq<char> {
    if n < 0 {
        seq!['-'] + dec_rep((-n) as nat)
    } else {
        dec_rep(n as nat)
    }
}

pub fn i32_to_string(n: i32) -> (r: String)
    ensures
        r@ == int_rep(n as int),
{
    if n < 0 {
        let mag: u64 = (-(n as i64)) as u64;
        let v = u64_to_dec_chars(mag);
        let s = String::from_str("-").concat(chars_to_string(&v).as_str());
        proof {
            reveal_strlit("-");
            assert(s@ =~= int_rep(n as int));
        }
        s
    } else {
        u64_to_string(n as u64)
    }
}

} // verus!
