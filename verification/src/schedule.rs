//! When the next day begins: the time left until the next midnight, in
//! universal time.

use chrono::Utc;
use vstd::prelude::*;

verus! {

/// The nanoseconds in a second.
pub const NANOS_PER_SECOND: i128 = 1_000_000_000;

/// The nanoseconds in a day.
pub const NANOS_PER_DAY: i128 = 86_400_000_000_000;

/// A span of time: whole seconds, and the nanoseconds beyond them.
#[derive(Debug)]
pub struct DayDuration {
    pub secs: u64,
    pub nanos: u32,
}

impl DayDuration {
    /// The span in nanoseconds.
    pub open spec fn total_nanos(self) -> int {
        self.secs * NANOS_PER_SECOND + self.nanos
    }
}

/// The moment that lies `secs` seconds and `nanos` nanoseconds after the
/// start of 1970, in nanoseconds.
pub open spec fn instant(secs: i64, nanos: u32) -> int {
    secs * NANOS_PER_SECOND + nanos
}

/// The nanoseconds from `now` to the next midnight after it. At midnight
/// itself that is a whole day.
pub open spec fn nanos_to_midnight(now: int) -> int {
    NANOS_PER_DAY - now % (NANOS_PER_DAY as int)
}

/// Reads the clock through chrono's `Utc::now`, and hands back what
/// `timestamp` and `timestamp_subsec_nanos` say of that moment: the seconds
/// since the start of 1970, and the nanoseconds since the last full second.
/// Nothing is promised of either. `Utc::now` panics where the system's clock
/// stands before 1970.
#[verifier::external_body]
fn utc_now() -> (now: (i64, u32)) {
    let now = Utc::now();
    (now.timestamp(), now.timestamp_subsec_nanos())
}

/// The time from the moment `secs` seconds and `nanos` nanoseconds after the
/// start of 1970 to the next midnight after it.
pub fn until_midnight(secs: i64, nanos: u32) -> (left: DayDuration)
    ensures
        left.total_nanos() == nanos_to_midnight(instant(secs, nanos)),
        left.nanos < NANOS_PER_SECOND,
        0 < left.total_nanos() <= NANOS_PER_DAY,
{
    let now: i128 = secs as i128 * NANOS_PER_SECOND + nanos as i128;
    let into_day: i128 = if now >= 0 {
        now % NANOS_PER_DAY
    } else {
        let behind: i128 = (-now) % NANOS_PER_DAY;
        if behind == 0 {
            0
        } else {
            NANOS_PER_DAY - behind
        }
    };
    let left: i128 = NANOS_PER_DAY - into_day;
    DayDuration { secs: (left / NANOS_PER_SECOND) as u64, nanos: (left % NANOS_PER_SECOND) as u32 }
}

/// The time from now to the next midnight: more than nothing, and a day at
/// most.
pub fn get_day_duration() -> (left: DayDuration)
    ensures
        left.nanos < NANOS_PER_SECOND,
        0 < left.total_nanos() <= NANOS_PER_DAY,
{
    let (secs, nanos) = utc_now();
    until_midnight(secs, nanos)
}

} // verus!
