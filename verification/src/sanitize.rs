//! Filesystem sanitization: maps an untrusted filename string to a safe
//! single path component. Dangerous characters become `_`, surrounding
//! spaces and periods are stripped, and an empty or OS-reserved result is
//! replaced by a timestamped generated name.

use vstd::prelude::*;

use crate::clock::now_stamp_full;
use crate::text::{
    chars_to_string, has_prefix, lemma_trim_by_props, lemma_trim_front_by_index,
    lemma_trim_back_by_index, str_chars, trim_by,
};

verus! {

/// Characters that may not appear in a path component.
pub open spec fn is_dangerous_char(c: char) -> bool {
    c == '<' || c == '>' || c == ':' || c == '"' || c == '/' || c == '\\' || c == '|' || c == '?'
        || c == '*'
}

pub open spec fn replaced_char(c: char) -> char {
    if is_dangerous_char(c) {
        '_'
    } else {
        c
    }
}

/// Each dangerous character replaced by `_`.
pub open spec fn replace_dangerous(s: Seq<char>) -> Seq<char> {
    s.map_values(|c: char| replaced_char(c))
}

/// Characters stripped from both ends of a candidate name.
pub open spec fn is_strip_char(c: char) -> bool {
    c == ' ' || c == '.'
}

pub open spec fn strip_pred() -> spec_fn(char) -> bool {
    |c: char| is_strip_char(c)
}

/// The deterministic part of sanitization: replace dangerous characters,
/// then trim spaces and periods from both ends.
pub open spec fn sanitize_core(s: Seq<char>) -> Seq<char> {
    trim_by(replace_dangerous(s), strip_pred())
}

/// Case-insensitive match against one of the reserved device names
/// `CON`, `PRN`, `AUX`, `NUL`, `COM1`..`COM9`, `LPT1`..`LPT9`.
pub open spec fn ci(c: char, u: char, l: char) -> bool {
    c == u || c == l
}

pub open spec fn is_reserved_spec(s: Seq<char>) -> bool {
    ||| (s.len() == 3 && {
        ||| (ci(s[0], 'C', 'c') && ci(s[1], 'O', 'o') && ci(s[2], 'N', 'n'))
        ||| (ci(s[0], 'P', 'p') && ci(s[1], 'R', 'r') && ci(s[2], 'N', 'n'))
        ||| (ci(s[0], 'A', 'a') && ci(s[1], 'U', 'u') && ci(s[2], 'X', 'x'))
        ||| (ci(s[0], 'N', 'n') && ci(s[1], 'U', 'u') && ci(s[2], 'L', 'l'))
    })
    ||| (s.len() == 4 && '1' <= s[3] && s[3] <= '9' && {
        ||| (ci(s[0], 'C', 'c') && ci(s[1], 'O', 'o') && ci(s[2], 'M', 'm'))
        ||| (ci(s[0], 'L', 'l') && ci(s[1], 'P', 'p') && ci(s[2], 'T', 't'))
    })
}

/// The sanitized name is discarded in favour of a generated one.
pub open spec fn needs_fallback(s: Seq<char>) -> bool {
    sanitize_core(s).len() == 0 || is_reserved_spec(sanitize_core(s))
}

/// What `sanitize_filename` returns for input `input`: the deterministic
/// core, unless that is empty or reserved, in which case a name with the
/// fixed prefix `download_` and a timestamp behind it.
pub open spec fn sanitize_post(input: Seq<char>, r: Seq<char>) -> bool {
    if needs_fallback(input) {
        has_prefix(r, "download_"@)
    } else {
        r == sanitize_core(input)
    }
}

fn is_dangerous(c: char) -> (r: bool)
    ensures
        r == is_dangerous_char(c),
{
    c == '<' || c == '>' || c == ':' || c == '"' || c == '/' || c == '\\' || c == '|' || c == '?'
        || c == '*'
}

fn is_strip(c: char) -> (r: bool)
    ensures
        r == is_strip_char(c),
{
    c == ' ' || c == '.'
}

fn replace_dangerous_chars(v: &Vec<char>) -> (r: Vec<char>)
    ensures
        r@ == replace_dangerous(v@),
{
    let mut out: Vec<char> = Vec::new();
    let mut i: usize = 0;
    while i < v.len()
        invariant
            i <= v.len(),
            out@.len() == i,
            forall|j: int| 0 <= j < i ==> out@[j] == replaced_char(v@[j]),
        decreases v.len() - i,
    {
        if is_dangerous(v[i]) {
            out.push('_');
        } else {
            out.push(v[i]);
        }
        i = i + 1;
    }
    proof {
        assert(out@ =~= replace_dangerous(v@));
    }
    out
}

fn trim_strip_chars(v: &Vec<char>) -> (r: Vec<char>)
    ensures
        r@ == trim_by(v@, strip_pred()),
{
    let mut a: usize = 0;
    while a < v.len() && is_strip(v[a])
        invariant
            a <= v.len(),
            forall|j: int| 0 <= j < a ==> is_strip_char(v@[j]),
        decreases v.len() - a,
    {
        a = a + 1;
    }
    if a == v.len() {
        proof {
            lemma_trim_front_by_index(v@, strip_pred(), a as int);
            assert(v@.skip(a as int) =~= Seq::<char>::empty());
        }
        let out: Vec<char> = Vec::new();
        return out;
    }
    let mut b: usize = v.len() - 1;
    while b > a && is_strip(v[b])
        invariant
            a <= b < v.len(),
            !is_strip_char(v@[a as int]),
            forall|j: int| b < j < v.len() ==> is_strip_char(v@[j]),
        decreases b,
    {
        b = b - 1;
    }
    // v[a] and v[b] are kept; everything outside [a, b] is stripped.
    let mut out: Vec<char> = Vec::new();
    let mut i: usize = a;
    while i <= b
        invariant
            a <= i <= b + 1,
            b < v.len(),
            out@.len() == i - a,
            forall|j: int| 0 <= j < out@.len() ==> out@[j] == v@[a + j],
        decreases b + 1 - i,
    {
        out.push(v[i]);
        i = i + 1;
    }
    proof {
        lemma_trim_front_by_index(v@, strip_pred(), a as int);
        let tf = v@.skip(a as int);
        lemma_trim_back_by_index(tf, strip_pred(), b + 1 - a);
        assert(trim_by(v@, strip_pred()) == tf.take(b + 1 - a));
        assert(out@ =~= tf.take(b + 1 - a));
    }
    out
}

fn is_reserved_chars(v: &Vec<char>) -> (r: bool)
    ensures
        r == is_reserved_spec(v@),
{
    if v.len() == 3 {
        let a = v[0];
        let b = v[1];
        let c = v[2];
        ((a == 'C' || a == 'c') && (b == 'O' || b == 'o') && (c == 'N' || c == 'n')) || ((a == 'P'
            || a == 'p') && (b == 'R' || b == 'r') && (c == 'N' || c == 'n')) || ((a == 'A' || a
            == 'a') && (b == 'U' || b == 'u') && (c == 'X' || c == 'x')) || ((a == 'N' || a == 'n')
            && (b == 'U' || b == 'u') && (c == 'L' || c == 'l'))
    } else if v.len() == 4 {
        let a = v[0];
        let b = v[1];
        let c = v[2];
        let d = v[3];
        ('1' <= d && d <= '9') && (((a == 'C' || a == 'c') && (b == 'O' || b == 'o') && (c == 'M'
            || c == 'm')) || ((a == 'L' || a == 'l') && (b == 'P' || b == 'p') && (c == 'T' || c
            == 't')))
    } else {
        false
    }
}

/// A name that collides, case-insensitively, with an OS-reserved device
/// name.
pub fn is_reserved_name(name: &str) -> (r: bool)
    ensures
        r == is_reserved_spec(name@),
{
    let v = str_chars(name);
    is_reserved_chars(&v)
}

/// Map an arbitrary string to a safe single path component.
pub fn sanitize_filename(filename: &str) -> (r: String)
    ensures
        sanitize_post(filename@, r@),
{
    let v = str_chars(filename);
    let replaced = replace_dangerous_chars(&v);
    let trimmed = trim_strip_chars(&replaced);
    if trimmed.len() == 0 || is_reserved_chars(&trimmed) {
        let stamp = now_stamp_full();
        let r = String::from_str("download_").concat(stamp.as_str());
        proof {
            reveal_strlit("download_");
            assert(r@.take(9) =~= "download_"@);
        }
        r
    } else {
        chars_to_string(&trimmed)
    }
}

/// Sanitization is idempotent: on any input whose sanitized form is neither
/// empty nor a reserved device name, sanitizing the sanitized form changes
/// nothing, and the second pass cannot fall back either.
pub proof fn lemma_sanitize_idempotent(s: Seq<char>)
    requires
        !needs_fallback(s),
    ensures
        sanitize_core(sanitize_core(s)) == sanitize_core(s),
        !needs_fallback(sanitize_core(s)),
{
    let u = replace_dangerous(s);
    let p = strip_pred();
    let a = lemma_trim_by_props(u, p);
    let t = trim_by(u, p);
    assert(t == sanitize_core(s));
    // No character of `u`, hence of `t`, is dangerous.
    assert forall|i: int| 0 <= i < t.len() implies !is_dangerous_char(t[i]) by {
        assert(t[i] == u.subrange(a, a + t.len())[i]);
        assert(t[i] == u[a + i]);
        assert(u[a + i] == replaced_char(s[a + i]));
    }
    assert(replace_dangerous(t) =~= t);
    // The ends of `t` are not strip characters, so trimming again is the
    // identity.
    if t.len() > 0 {
        assert(!p(t[0]));
        assert(!p(t.last()));
        lemma_trim_front_by_index(t, p, 0);
        assert(t.skip(0) =~= t);
        lemma_trim_back_by_index(t, p, t.len() as int);
        assert(t.take(t.len() as int) =~= t);
        assert(trim_by(t, p) == t);
    } else {
        assert(t =~= Seq::<char>::empty());
        assert(trim_by(t, p) == t);
    }
    assert(sanitize_core(t) == t);
}

} // verus!
