//! Content-disposition parsing for filename resolution. The header is
//! scanned for a `filename*=` parameter first (internationalized form,
//! `charset'language'percent-encoded-value`), then for a plain `filename=`
//! parameter; the captured value is stripped of surrounding quotes,
//! apostrophes and spaces. Percent-decoding of the internationalized form
//! is the url crate's work, reached through one trusted wrapper.

use vstd::prelude::*;

use crate::sanitize::{sanitize_filename, sanitize_post};
use crate::text::{
    chars_to_string, class_pred, lemma_trim_front_by_index, lemma_trim_back_by_index,
    opt_str_view, run_end, scan_class, str_chars, sub_chars, trim_by, CharClass,
};
use crate::urlinfo::{infer_filename_from_url, infer_post};

verus! {

/// The literal `filename` (with a trailing `*` in the internationalized
/// form) stands at position `i`.
pub open spec fn keyword_at(s: Seq<char>, i: int, star: bool) -> bool {
    &&& i + 8 <= s.len()
    &&& s[i] == 'f'
    &&& s[i + 1] == 'i'
    &&& s[i + 2] == 'l'
    &&& s[i + 3] == 'e'
    &&& s[i + 4] == 'n'
    &&& s[i + 5] == 'a'
    &&& s[i + 6] == 'm'
    &&& s[i + 7] == 'e'
    &&& (star ==> i + 9 <= s.len() && s[i + 8] == '*')
}

pub open spec fn key_len(star: bool) -> int {
    if star {
        9
    } else {
        8
    }
}

/// The parameter value captured by a match starting exactly at `i`: the
/// keyword, optional whitespace, `=`, optional whitespace, then the
/// longest nonempty run without a `;`. When only whitespace stands between
/// the `=` and the next `;` (or the end), the last whitespace character is
/// the capture; with nothing at all there, no match starts here.
pub open spec fn disp_match_at(s: Seq<char>, i: int, star: bool) -> Option<Seq<char>> {
    if 0 <= i && keyword_at(s, i, star) {
        let j = run_end(s, i + key_len(star), class_pred(CharClass::SpaceChar));
        if j < s.len() && s[j] == '=' {
            let k = run_end(s, j + 1, class_pred(CharClass::SpaceChar));
            if k < s.len() && s[k] != ';' {
                Some(s.subrange(k, run_end(s, k, class_pred(CharClass::NotSemi))))
            } else if k > j + 1 {
                Some(s.subrange(k - 1, k))
            } else {
                None
            }
        } else {
            None
        }
    } else {
        None
    }
}

/// The capture of the leftmost match at or after `i`.
pub open spec fn disp_find(s: Seq<char>, i: int, star: bool) -> Option<Seq<char>>
    decreases s.len() - i,
{
    if i < 0 || i >= s.len() {
        None
    } else if disp_match_at(s, i, star) is Some {
        disp_match_at(s, i, star)
    } else {
        disp_find(s, i + 1, star)
    }
}

/// Quotes, apostrophes and spaces stripped from both ends of a capture.
pub open spec fn quote_pred() -> spec_fn(char) -> bool {
    |c: char| c == '"' || c == '\'' || c == ' '
}

pub open spec fn trimmed_capture(cap: Seq<char>) -> Seq<char> {
    trim_by(cap, quote_pred())
}

/// The first percent-decoded key of a form-urlencoded byte string; what
/// `url::form_urlencoded::parse` yields first.
pub uninterp spec fn form_first_key(s: Seq<char>) -> Option<Seq<char>>;

/// What decoding the internationalized form returns: the part after the
/// second apostrophe, percent-decoded; nothing without two apostrophes.
pub open spec fn rfc5987_decode_spec(t: Seq<char>) -> Option<Seq<char>> {
    let a1 = run_end(t, 0, class_pred(CharClass::NotApos));
    if a1 < t.len() {
        let a2 = run_end(t, a1 + 1, class_pred(CharClass::NotApos));
        if a2 < t.len() {
            form_first_key(t.skip(a2 + 1))
        } else {
            None
        }
    } else {
        None
    }
}

/// The name taken from a plain `filename=` parameter.
pub open spec fn plain_filename(h: Seq<char>) -> Option<Seq<char>> {
    match disp_find(h, 0, false) {
        Some(cap) => Some(trimmed_capture(cap)),
        None => None,
    }
}

/// The name carried by a content-disposition header: the decoded
/// internationalized parameter where one is present and decodes, else the
/// plain parameter.
pub open spec fn disposition_filename(h: Seq<char>) -> Option<Seq<char>> {
    match disp_find(h, 0, true) {
        Some(cap) => match rfc5987_decode_spec(trimmed_capture(cap)) {
            Some(d) => Some(d),
            None => plain_filename(h),
        },
        None => plain_filename(h),
    }
}

/// Relies on `url::form_urlencoded::parse`: the first decoded key (plus
/// signs as spaces, percent-escapes decoded) is a function of the input
/// alone, and an input without key-value content yields none.
#[verifier::external_body]
fn form_first_key_exec(s: &str) -> (r: Option<String>)
    ensures
        opt_str_view(r) == form_first_key(s@),
{
    url::form_urlencoded::parse(s.as_bytes()).map(|(k, _)| k.to_string()).next()
}

fn is_quote(c: char) -> (r: bool)
    ensures
        r == quote_pred()(c),
{
    c == '"' || c == '\'' || c == ' '
}

fn trim_quote_chars(v: &Vec<char>) -> (r: Vec<char>)
    ensures
        r@ == trim_by(v@, quote_pred()),
{
    let mut a: usize = 0;
    while a < v.len() && is_quote(v[a])
        invariant
            a <= v.len(),
            forall|j: int| 0 <= j < a ==> quote_pred()(v@[j]),
        decreases v.len() - a,
    {
        a = a + 1;
    }
    if a == v.len() {
        proof {
            lemma_trim_front_by_index(v@, quote_pred(), a as int);
            assert(v@.skip(a as int) =~= Seq::<char>::empty());
        }
        let out: Vec<char> = Vec::new();
        return out;
    }
    let mut b: usize = v.len() - 1;
    while b > a && is_quote(v[b])
        invariant
            a <= b < v.len(),
            !quote_pred()(v@[a as int]),
            forall|j: int| b < j < v.len() ==> quote_pred()(v@[j]),
        decreases b,
    {
        b = b - 1;
    }
    let out = sub_chars(v, a, b + 1);
    proof {
        lemma_trim_front_by_index(v@, quote_pred(), a as int);
        let tf = v@.skip(a as int);
        lemma_trim_back_by_index(tf, quote_pred(), b + 1 - a);
        assert(trim_by(v@, quote_pred()) == tf.take(b + 1 - a));
        assert(out@ =~= tf.take(b + 1 - a));
    }
    out
}

/// Try to match the parameter shape starting exactly at `i`, returning
/// the capture's bounds.
fn disp_try_match(v: &Vec<char>, i: usize, star: bool) -> (r: Option<(usize, usize)>)
    requires
        i < v@.len(),
    ensures
        r is None ==> disp_match_at(v@, i as int, star) is None,
        r matches Some(c) ==> c.0 <= c.1 <= v@.len() && disp_match_at(v@, i as int, star)
            == Some(v@.subrange(c.0 as int, c.1 as int)),
{
    let kl: usize = if star {
        9
    } else {
        8
    };
    if v.len() - i < kl {
        return None;
    }
    if !(v[i] == 'f' && v[i + 1] == 'i' && v[i + 2] == 'l' && v[i + 3] == 'e' && v[i + 4] == 'n'
        && v[i + 5] == 'a' && v[i + 6] == 'm' && v[i + 7] == 'e') {
        return None;
    }
    if star && v[i + 8] != '*' {
        return None;
    }
    let j = scan_class(v, i + kl, CharClass::SpaceChar);
    if j == v.len() || v[j] != '=' {
        return None;
    }
    let k = scan_class(v, j + 1, CharClass::SpaceChar);
    if k < v.len() && v[k] != ';' {
        let e = scan_class(v, k, CharClass::NotSemi);
        Some((k, e))
    } else if k > j + 1 {
        Some((k - 1, k))
    } else {
        None
    }
}

/// The capture of the leftmost parameter match in the whole header.
fn disp_find_exec(v: &Vec<char>, star: bool) -> (r: Option<(usize, usize)>)
    ensures
        r is None ==> disp_find(v@, 0, star) is None,
        r matches Some(c) ==> c.0 <= c.1 <= v@.len() && disp_find(v@, 0, star) == Some(
            v@.subrange(c.0 as int, c.1 as int),
        ),
{
    let mut i: usize = 0;
    while i < v.len()
        invariant
            i <= v@.len(),
            disp_find(v@, 0, star) == disp_find(v@, i as int, star),
        decreases v@.len() - i,
    {
        match disp_try_match(v, i, star) {
            Some(c) => {
                return Some(c);
            }
            None => {
                i = i + 1;
            }
        }
    }
    None
}

/// Decode the internationalized parameter form `charset'language'value`.
pub fn decode_rfc5987(encoded: &str) -> (r: Option<String>)
    ensures
        opt_str_view(r) == rfc5987_decode_spec(encoded@),
{
    let v = str_chars(encoded);
    let a1 = scan_class(&v, 0, CharClass::NotApos);
    if a1 == v.len() {
        return None;
    }
    let a2 = scan_class(&v, a1 + 1, CharClass::NotApos);
    if a2 == v.len() {
        return None;
    }
    let rest = sub_chars(&v, a2 + 1, v.len());
    let rest_s = chars_to_string(&rest);
    proof {
        assert(rest_s@ =~= v@.skip(a2 + 1));
    }
    form_first_key_exec(rest_s.as_str())
}

/// Extract the preferred filename from a content-disposition header value.
pub fn parse_content_disposition(header: &str) -> (r: Option<String>)
    ensures
        opt_str_view(r) == disposition_filename(header@),
{
    let v = str_chars(header);
    match disp_find_exec(&v, true) {
        Some(c) => {
            let cap = sub_chars(&v, c.0, c.1);
            let trimmed = trim_quote_chars(&cap);
            let enc = chars_to_string(&trimmed);
            match decode_rfc5987(enc.as_str()) {
                Some(d) => {
                    return Some(d);
                }
                None => {}
            }
        }
        None => {}
    }
    match disp_find_exec(&v, false) {
        Some(c) => {
            let cap = sub_chars(&v, c.0, c.1);
            let trimmed = trim_quote_chars(&cap);
            Some(chars_to_string(&trimmed))
        }
        None => None,
    }
}

/// What filename detection returns: the sanitized header-borne name where
/// the header carries one, else the URL-derived name.
pub open spec fn detect_post(u: Seq<char>, cd: Option<Seq<char>>, r: Seq<char>) -> bool {
    match cd {
        Some(h) => match disposition_filename(h) {
            Some(name) => sanitize_post(name, r),
            None => infer_post(u, r),
        },
        None => infer_post(u, r),
    }
}

pub open spec fn opt_sslice_view(o: Option<&str>) -> Option<Seq<char>> {
    match o {
        Some(s) => Some(s@),
        None => None,
    }
}

/// Resolve the output filename for a URL from the optional
/// content-disposition header of a metadata response.
pub fn detect_filename(url: &str, content_disposition: Option<&str>) -> (r: String)
    ensures
        detect_post(url@, opt_sslice_view(content_disposition), r@),
{
    match content_disposition {
        Some(h) => match parse_content_disposition(h) {
            Some(name) => sanitize_filename(name.as_str()),
            None => infer_filename_from_url(url),
        },
        None => infer_filename_from_url(url),
    }
}

} // verus!
