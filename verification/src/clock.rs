//! A monotonic clock that counts milliseconds.
//!
//! Nothing is known of what a clock reads but that it is a number: every
//! function that is handed a reading is proved for all readings. That the
//! readings of one clock never fall is the promise of the operating system,
//! and the library does not lean on it: where the order of readings matters,
//! it keeps the latest reading it has seen.

use crate::numeral::clamp_u64;
use std::time::{Duration, Instant};
use vstd::prelude::*;

verus! {

/// A point in time of the operating system's monotonic clock,
/// `std::time::Instant`.
#[verifier::external_type_specification]
#[verifier::external_body]
pub struct ExInstant(Instant);

/// Calls `std::time::Instant::now`. Nothing is claimed of the instant.
#[verifier::external_body]
fn instant_now() -> Instant {
    Instant::now()
}

/// Calls `std::time::Instant::elapsed`, the time gone by since `origin`.
/// Nothing is claimed of it.
#[verifier::external_body]
fn instant_elapsed(origin: &Instant) -> Duration {
    origin.elapsed()
}

/// Calls `std::time::Duration::as_millis`, the whole milliseconds of
/// `span`. Nothing is claimed of their number.
#[verifier::external_body]
fn duration_millis(span: &Duration) -> u128 {
    span.as_millis()
}

/// Turns a count of whole milliseconds into a reading: the count itself, or
/// the largest `u64` where the count is beyond it.
pub fn reading_of(whole: u128) -> (reading: u64)
    ensures
        reading == clamp_u64(whole as nat),
{
    if whole > u64::MAX as u128 {
        u64::MAX
    } else {
        whole as u64
    }
}

/// A clock that counts milliseconds from the moment it was started.
pub struct Clock {
    origin: Instant,
}

impl Clock {
    /// Starts a clock.
    pub fn start() -> Clock {
        Clock { origin: instant_now() }
    }

    /// Reads the clock: the milliseconds since it was started, held at the
    /// largest `u64`.
    pub fn millis(&self) -> u64 {
        let span: Duration = instant_elapsed(&self.origin);
        reading_of(duration_millis(&span))
    }
}

} // verus!
