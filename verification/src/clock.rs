//! The clocks: the monotonic one for spans of time, the calendar for stamps.
//!
//! Time is not a function of anything the library holds, so nothing is
//! claimed of what a clock returns: the functions that read one state what
//! holds whatever came back.

use vstd::prelude::*;
use std::time::{Duration, Instant};

verus! {

/// `std::time::Instant`: a moment on the monotonic clock. Opaque here.
#[verifier::external_type_specification]
#[verifier::external_body]
pub struct ExInstant(Instant);

/// `Instant::now` reads the monotonic clock. Nothing is claimed of the moment
/// it returns.
pub assume_specification[ Instant::now ]() -> (now: Instant)
;

/// `Instant::elapsed` measures the time since the moment was taken. Nothing
/// is claimed of its length.
pub assume_specification[ Instant::elapsed ](start: &Instant) -> (d: Duration)
;

/// `Duration::as_millis` gives the whole milliseconds in a span of time.
/// Nothing is claimed of their number.
pub assume_specification[ Duration::as_millis ](d: &Duration) -> (ms: u128)
;

/// The whole milliseconds since `start`, or `u64::MAX` where they do not fit.
pub(crate) fn millis_since(start: &Instant) -> (ms: u64) {
    capped_millis(start.elapsed().as_millis())
}

/// A count of milliseconds as a `u64`: the count itself where it fits, and
/// the greatest `u64` where it does not.
pub open spec fn capped(elapsed: u128) -> u64 {
    if elapsed > u64::MAX {
        u64::MAX
    } else {
        elapsed as u64
    }
}

/// Brings a count of milliseconds, as a clock gives it, into a `u64`.
pub fn capped_millis(elapsed: u128) -> (ms: u64)
    ensures
        ms == capped(elapsed),
{
    if elapsed > 0xffff_ffff_ffff_ffff {
        0xffff_ffff_ffff_ffff
    } else {
        elapsed as u64
    }
}

/// The present moment in UTC as RFC 3339 text, such as
/// `2024-05-01T12:00:00.123456789+00:00`, from chrono's `Utc::now` and
/// `DateTime::to_rfc3339`. Trusted; nothing is claimed of the text. chrono
/// panics where the system clock stands before 1970.
#[verifier::external_body]
pub(crate) fn utc_timestamp() -> (text: String) {
    chrono::Utc::now().to_rfc3339()
}

/// The pattern that writes a moment as `YYYYMMDD_HHMMSS`.
pub open spec fn compact_pattern() -> Seq<char> {
    "%Y%m%d_%H%M%S"@
}

/// The pattern that writes a moment as `YYYY-MM-DD HH:MM:SS`.
pub open spec fn readable_pattern() -> Seq<char> {
    "%Y-%m-%d %H:%M:%S"@
}

/// The present local time, written after `pattern`, from chrono's
/// `Local::now` and `DateTime::format`. Trusted; nothing is claimed of the
/// text. chrono panics on a pattern that it cannot read, so only the two
/// patterns above are let in.
#[verifier::external_body]
pub(crate) fn local_time(pattern: &str) -> (text: String)
    requires
        pattern@ == compact_pattern() || pattern@ == readable_pattern(),
{
    chrono::Local::now().format(pattern).to_string()
}

} // verus!
