//! Points in time.

use vstd::prelude::*;

verus! {

/// The number of microseconds in a second.
pub const MICROS_PER_SECOND: i64 = 1_000_000;

/// A point in time: microseconds since 1970-01-01T00:00:00 UTC, leap seconds
/// not counted.
#[derive(Clone, Copy, Debug, PartialEq, Eq, Structural)]
pub struct Timestamp {
    pub micros: i64,
}

impl Timestamp {
    /// The whole seconds that pass from `self` to `later`.
    pub open spec fn whole_seconds_until(self, later: Timestamp) -> int {
        (later.micros - self.micros) / (MICROS_PER_SECOND as int)
    }

    /// The point in time that lies `micros` microseconds after the epoch.
    pub fn from_micros(micros: i64) -> (r: Timestamp)
        ensures
            r.micros == micros,
    {
        Timestamp { micros }
    }

    /// Whether `self` is strictly earlier than `other`.
    pub fn is_before(&self, other: &Timestamp) -> (r: bool)
        ensures
            r == (self.micros < other.micros),
    {
        self.micros < other.micros
    }

    /// The whole seconds that pass from `self` to `later`. Where `later` is
    /// in fact earlier, the number is negative, and a second that has only
    /// begun counts.
    pub fn seconds_until(&self, later: &Timestamp) -> (r: i64)
        ensures
            r == self.whole_seconds_until(*later),
            self.micros <= later.micros <==> r >= 0,
    {
        if self.micros <= later.micros {
            let span: u128 = (later.micros as i128 - self.micros as i128) as u128;
            let seconds: u128 = span / 1_000_000u128;
            seconds as i64
        } else {
            let span: u128 = (self.micros as i128 - later.micros as i128) as u128;
            let seconds: u128 = (span + 999_999u128) / 1_000_000u128;
            -(seconds as i64)
        }
    }
}

/// Reads the clock.
///
/// Calls `chrono::Utc::now` and takes the result's `timestamp_micros`.
/// Nothing is claimed of the value: it is whatever the machine's clock says.
/// `Utc::now` panics on a machine whose clock stands before 1970.
#[verifier::external_body]
pub(crate) fn clock_now() -> Timestamp {
    Timestamp { micros: chrono::Utc::now().timestamp_micros() }
}

} // verus!
