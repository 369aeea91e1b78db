//! Points in time, as nanoseconds since the Unix epoch (UTC).

use vstd::prelude::*;

verus! {

/// A point in time: nanoseconds since 1970-01-01T00:00:00Z.
#[derive(Debug, Clone, Copy, PartialEq, Eq, Structural, PartialOrd, Ord, Hash)]
pub struct Timestamp {
    pub unix_nanos: i128,
}

/// A bound on the distance from the epoch of any time `time` can represent.
pub const MAX_CLOCK_NANOS: i128 = 100_000_000_000_000_000_000_000i128;

/// Rust's division of `a` by `b` (rounds toward zero).
pub open spec fn div_toward_zero(a: int, b: int) -> int {
    if a >= 0 {
        a / b
    } else {
        -((-a) / b)
    }
}

impl Timestamp {
    /// The current time.
    ///
    /// Calls `time::OffsetDateTime::now_utc` and
    /// `OffsetDateTime::unix_timestamp_nanos`; the clock decides the value,
    /// so only its range is stated: `time` keeps dates within years
    /// -999_999..=999_999 (within -9999..=9999 without its `large-dates`
    /// feature), less than 10^23 nanoseconds either side of the epoch.
    #[verifier::external_body]
    pub(crate) fn now_utc() -> (r: Timestamp)
        ensures
            -MAX_CLOCK_NANOS <= r.unix_nanos <= MAX_CLOCK_NANOS,
    {
        Timestamp { unix_nanos: time::OffsetDateTime::now_utc().unix_timestamp_nanos() }
    }

    /// Whole milliseconds since the epoch, rounded toward zero.
    pub fn unix_millis(&self) -> (r: i128)
        ensures
            r == div_toward_zero(self.unix_nanos as int, 1_000_000),
    {
        self.unix_nanos / 1_000_000
    }

    /// The time `ms` milliseconds later.
    pub fn plus_millis(&self, ms: u64) -> (r: Timestamp)
        requires
            self.unix_nanos + ms * 1_000_000 <= i128::MAX,
        ensures
            r.unix_nanos == self.unix_nanos + ms * 1_000_000,
    {
        Timestamp { unix_nanos: self.unix_nanos + (ms as i128) * 1_000_000 }
    }
}

} // verus!
