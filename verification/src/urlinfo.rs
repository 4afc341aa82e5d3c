//! URL validation and URL-based filename inference. Parsing itself is the
//! url crate's work, reached through one trusted wrapper; everything that
//! is decided from the parsed pieces is verified here.

use vstd::prelude::*;

use crate::clock::{now_stamp_compact, now_stamp_full, now_stamp_time};
use crate::sanitize::{needs_fallback, sanitize_core, sanitize_filename, sanitize_post};
use crate::text::{has_prefix, opt_str_view, str_eq};

verus! {

/// Whether the string parses as an absolute URL.
pub uninterp spec fn url_ok(s: Seq<char>) -> bool;

/// The scheme of the parsed URL (meaningful only when it parses).
pub uninterp spec fn url_scheme(s: Seq<char>) -> Seq<char>;

/// The host of the parsed URL, if it has one.
pub uninterp spec fn url_host(s: Seq<char>) -> Option<Seq<char>>;

/// The path segments of the parsed URL, absent for URLs that cannot be a
/// base.
pub uninterp spec fn url_segments(s: Seq<char>) -> Option<Seq<Seq<char>>>;

/// The pieces of a parsed URL that this library reads.
pub struct UrlParts {
    pub scheme: String,
    pub host: Option<String>,
    pub segments: Option<Vec<String>>,
}

pub open spec fn opt_segs_view(o: Option<Vec<String>>) -> Option<Seq<Seq<char>>> {
    match o {
        Some(v) => Some(v@.map_values(|x: String| x@)),
        None => None,
    }
}

/// Relies on `url::Url::parse` and the accessors `scheme`, `host_str` and
/// `path_segments` of the parsed value: whether a string parses, and the
/// scheme, host and path segments of the result, are functions of the
/// string alone.
#[verifier::external_body]
fn parse_url_parts(raw: &str) -> (r: Option<UrlParts>)
    ensures
        (r is Some) == url_ok(raw@),
        r matches Some(p) ==> p.scheme@ == url_scheme(raw@) && opt_str_view(p.host) == url_host(
            raw@,
        ) && opt_segs_view(p.segments) == url_segments(raw@),
{
    match url::Url::parse(raw) {
        Ok(u) => Some(
            UrlParts {
                scheme: u.scheme().to_string(),
                host: u.host_str().map(|h| h.to_string()),
                segments: u.path_segments().map(|it| it.map(|s| s.to_string()).collect()),
            },
        ),
        Err(_) => None,
    }
}

/// Why a URL is rejected.
#[derive(Clone, Copy, Debug, PartialEq, Eq, Structural)]
pub enum UrlError {
    Empty,
    InvalidFormat,
    UnsupportedScheme,
    MissingHost,
}

impl UrlError {
    /// A human-readable description of the rejection.
    pub fn message(&self) -> (r: String)
        ensures
            self is Empty ==> r@ == "URL cannot be empty"@,
            self is InvalidFormat ==> r@ == "Invalid URL format"@,
            self is UnsupportedScheme ==> r@
                == "Unsupported URL scheme (supported: http, https, ftp)"@,
            self is MissingHost ==> r@ == "URL must contain a host"@,
    {
        match self {
            UrlError::Empty => String::from_str("URL cannot be empty"),
            UrlError::InvalidFormat => String::from_str("Invalid URL format"),
            UrlError::UnsupportedScheme => String::from_str(
                "Unsupported URL scheme (supported: http, https, ftp)",
            ),
            UrlError::MissingHost => String::from_str("URL must contain a host"),
        }
    }
}

pub open spec fn supported_scheme(s: Seq<char>) -> bool {
    s == "http"@ || s == "https"@ || s == "ftp"@
}

/// A URL this tool accepts: non-empty, parseable, with an http, https or
/// ftp scheme, and with a host.
pub open spec fn valid_url_spec(s: Seq<char>) -> bool {
    s.len() > 0 && url_ok(s) && supported_scheme(url_scheme(s)) && url_host(s) is Some
}

/// Accept or reject a URL, with the reason for the rejection.
pub fn validate_url(raw_url: &str) -> (r: Result<(), UrlError>)
    ensures
        r is Ok <==> valid_url_spec(raw_url@),
        raw_url@.len() == 0 ==> r == Err::<(), UrlError>(UrlError::Empty),
        raw_url@.len() > 0 && !url_ok(raw_url@) ==> r == Err::<(), UrlError>(
            UrlError::InvalidFormat,
        ),
        raw_url@.len() > 0 && url_ok(raw_url@) && !supported_scheme(url_scheme(raw_url@)) ==> r
            == Err::<(), UrlError>(UrlError::UnsupportedScheme),
        raw_url@.len() > 0 && url_ok(raw_url@) && supported_scheme(url_scheme(raw_url@))
            && url_host(raw_url@) is None ==> r == Err::<(), UrlError>(UrlError::MissingHost),
{
    if raw_url.unicode_len() == 0 {
        return Err(UrlError::Empty);
    }
    match parse_url_parts(raw_url) {
        None => Err(UrlError::InvalidFormat),
        Some(p) => {
            let sch = p.scheme.as_str();
            if !(str_eq(sch, "http") || str_eq(sch, "https") || str_eq(sch, "ftp")) {
                Err(UrlError::UnsupportedScheme)
            } else {
                match &p.host {
                    Some(_) => Ok(()),
                    None => Err(UrlError::MissingHost),
                }
            }
        }
    }
}

/// The last path segment, or empty where there is none.
pub open spec fn last_segment(o: Option<Seq<Seq<char>>>) -> Seq<char> {
    match o {
        Some(v) => if v.len() > 0 {
            v.last()
        } else {
            Seq::empty()
        },
        None => Seq::empty(),
    }
}

/// A last segment that can name a file.
pub open spec fn usable_segment(seg: Seq<char>) -> bool {
    seg.len() > 0 && seg != "."@
}

/// What URL-based inference returns: the sanitized last path segment where
/// one is usable; otherwise a generated name — from the host where the URL
/// has one, from the error or generic prefix where it does not.
pub open spec fn infer_post(u: Seq<char>, r: Seq<char>) -> bool {
    if !url_ok(u) {
        has_prefix(r, "download_error_"@)
    } else if usable_segment(last_segment(url_segments(u))) {
        sanitize_post(last_segment(url_segments(u)), r)
    } else {
        match url_host(u) {
            Some(h) => has_prefix(r, "download_from_"@) && (!needs_fallback(h) ==> has_prefix(
                r,
                "download_from_"@ + sanitize_core(h) + "_"@,
            )),
            None => has_prefix(r, "downloaded_file_"@),
        }
    }
}

/// Derive an output filename from the URL alone.
pub fn infer_filename_from_url(raw_url: &str) -> (r: String)
    ensures
        infer_post(raw_url@, r@),
{
    let p = match parse_url_parts(raw_url) {
        Some(p) => p,
        None => {
            let stamp = now_stamp_compact();
            let r = String::from_str("download_error_").concat(stamp.as_str());
            proof {
                reveal_strlit("download_error_");
                assert(r@.take(15) =~= "download_error_"@);
            }
            return r;
        }
    };
    let mut candidate: Option<String> = None;
    match &p.segments {
        Some(v) => {
            if v.len() > 0 {
                let seg = &v[v.len() - 1];
                if seg.unicode_len() > 0 && !str_eq(seg.as_str(), ".") {
                    candidate = Some(seg.clone());
                }
            }
        }
        None => {}
    }
    match candidate {
        Some(seg) => sanitize_filename(seg.as_str()),
        None => {
            match &p.host {
                Some(h) => {
                    let san = sanitize_filename(h.as_str());
                    let stamp = now_stamp_time();
                    let r = String::from_str("download_from_").concat(san.as_str()).concat(
                        "_",
                    ).concat(stamp.as_str());
                    proof {
                        reveal_strlit("download_from_");
                        assert(r@.take(14) =~= "download_from_"@);
                        if !needs_fallback(h@) {
                            let pfx = "download_from_"@ + sanitize_core(h@) + "_"@;
                            assert(r@.take(pfx.len() as int) =~= pfx);
                        }
                    }
                    r
                }
                None => {
                    let stamp = now_stamp_full();
                    let r = String::from_str("downloaded_file_").concat(stamp.as_str());
                    proof {
                        reveal_strlit("downloaded_file_");
                        assert(r@.take(16) =~= "downloaded_file_"@);
                    }
                    r
                }
            }
        }
    }
}

} // verus!
