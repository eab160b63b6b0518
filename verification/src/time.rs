//! Moments in time, as the seconds and nanoseconds since the start of 1970 in
//! UTC.

use vstd::prelude::*;

verus! {

/// A moment: whole seconds since 1970-01-01T00:00:00Z and the nanoseconds
/// after them.
#[derive(Clone, Copy, Debug, PartialEq, Eq, Structural)]
pub struct Timestamp {
    pub seconds: i64,
    pub nanos: u32,
}

/// The seconds of a day.
pub const SECONDS_PER_DAY: i64 = 86_400;

/// `chrono::Utc::now` reads the clock of the machine, which may be set to
/// any time after the start of 1970: chrono takes the time that has passed
/// since then, in whole seconds and the nanoseconds of the second begun,
/// and gives up on a clock that is set before it. `timestamp` and
/// `timestamp_subsec_nanos` hand the two numbers back.
#[verifier::external_body]
pub(crate) fn clock_now() -> (now: Timestamp)
    ensures
        now.is_clock_reading(),
{
    let now = chrono::Utc::now();
    Timestamp { seconds: now.timestamp(), nanos: now.timestamp_subsec_nanos() }
}

impl Timestamp {
    /// The moment `days` days after this one, if its seconds can be counted
    /// in 64 bits.
    pub fn plus_days(self, days: i64) -> (later: Option<Timestamp>)
        ensures
            match later {
                Some(moment) => moment.seconds == self.seconds + days * SECONDS_PER_DAY
                    && moment.nanos == self.nanos,
                None => !(i64::MIN <= self.seconds + days * SECONDS_PER_DAY <= i64::MAX),
            },
    {
        assert(-0x8000_0000_0000_0000 * 86_400 <= days * 86_400 <= 0x7fff_ffff_ffff_ffff * 86_400)
            by (nonlinear_arith)
            requires
                -0x8000_0000_0000_0000 <= days <= 0x7fff_ffff_ffff_ffff,
        ;
        let span: i128 = (days as i128) * 86_400;
        let total: i128 = (self.seconds as i128) + span;
        if total < -0x8000_0000_0000_0000 || total > 0x7fff_ffff_ffff_ffff {
            None
        } else {
            Some(Timestamp { seconds: total as i64, nanos: self.nanos })
        }
    }

    /// The present moment: what the clock of the machine reads, a moment
    /// not before the start of 1970 and with less than a second's worth of
    /// nanoseconds.
    pub fn now() -> (now: Timestamp)
        ensures
            now.is_clock_reading(),
    {
        clock_now()
    }

    /// Whether this moment is one that a clock can read: not before the
    /// start of 1970, and with the nanoseconds of a second that has begun
    /// and not ended.
    pub open spec fn is_clock_reading(self) -> bool {
        0 <= self.seconds && self.nanos < 1_000_000_000
    }

    /// Whether this moment lies before `other`.
    pub fn is_before(self, other: Timestamp) -> (before: bool)
        ensures
            before == (self.seconds < other.seconds || (self.seconds == other.seconds && self.nanos
                < other.nanos)),
    {
        self.seconds < other.seconds || (self.seconds == other.seconds && self.nanos < other.nanos)
    }
}

} // verus!
