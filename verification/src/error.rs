//! The ways in which producing a UUID can fail.

use vstd::prelude::*;

verus! {

/// Why a UUID could not be produced.
#[derive(Debug, Clone, Copy, PartialEq, Eq, Structural)]
pub enum UuidError {
    /// The operating system's random number source reported a failure.
    RandomSourceFailed,
    /// The clock reading lies outside the range of 100-nanosecond intervals
    /// since 1582-10-15 that fits in a `u64`.
    ClockOutOfRange,
}

} // verus!
