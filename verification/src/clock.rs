//! Wall-clock timestamps used by the fallback branches of filename
//! generation. The results depend on the time of the call, so nothing is
//! promised about their contents; callers only splice them after a fixed,
//! verified prefix.

use vstd::prelude::*;

verus! {

/// Relies on `chrono::Local::now` and `DateTime::format` with the pattern
/// `%Y%m%d_%H%M%S`, for a date-and-time stamp.
#[verifier::external_body]
pub(crate) fn now_stamp_full() -> String {
    format!("{}", chrono::Local::now().format("%Y%m%d_%H%M%S"))
}

/// Relies on `chrono::Local::now` and `DateTime::format` with the pattern
/// `%Y%m%d%H%M%S`, for a compact date-and-time stamp.
#[verifier::external_body]
pub(crate) fn now_stamp_compact() -> String {
    format!("{}", chrono::Local::now().format("%Y%m%d%H%M%S"))
}

/// Relies on `chrono::Local::now` and `DateTime::format` with the pattern
/// `%H%M%S`, for a time-of-day stamp.
#[verifier::external_body]
pub(crate) fn now_stamp_time() -> String {
    format!("{}", chrono::Local::now().format("%H%M%S"))
}

} // verus!
