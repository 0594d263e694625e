use vstd::prelude::*;

use crate::prompt::{mix_seed, mix_seed_exec};

verus! {

/// A reading of the local clock, as the plain values that the scheduling and
/// seeding logic reads: nanoseconds since the Unix epoch when they fit in an `i64`,
/// milliseconds since the epoch, and the local hour and minute.
#[derive(Clone, Copy, Debug)]
pub struct ClockReading {
    pub nanos: Option<i64>,
    pub millis: i64,
    pub hour: u32,
    pub minute: u32,
}

/// The nanoseconds of a reading; outside the range that nanoseconds in an `i64`
/// cover, the milliseconds times one million, wrapped.
pub open spec fn spec_seed_nanos(c: ClockReading) -> i64 {
    match c.nanos {
        Some(n) => n,
        None => vstd::wrapping::i64_specs::wrapping_mul(c.millis, 1_000_000),
    }
}

impl ClockReading {
    /// A reading as the clock gives it: an hour of the day and a minute of the hour.
    pub open spec fn is_valid(self) -> bool {
        self.hour < 24 && self.minute < 60
    }

    /// Minutes since local midnight.
    pub open spec fn minute_of_day(self) -> nat {
        (self.hour * 60 + self.minute) as nat
    }

    /// The nanoseconds of the reading, or the milliseconds times one million.
    pub fn seed_nanos(&self) -> (r: i64)
        ensures
            r == spec_seed_nanos(*self),
    {
        match self.nanos {
            Some(n) => n,
            None => self.millis.wrapping_mul(1_000_000),
        }
    }

    /// Minutes since local midnight.
    pub fn minutes_of_day(&self) -> (r: u64)
        ensures
            r == self.minute_of_day(),
    {
        (self.hour as u64) * 60 + (self.minute as u64)
    }
}

/// A seed for one attempt: the reading mixed with the process id and the attempt
/// number.
pub fn entropy(clock: &ClockReading, pid: u32, attempt: usize) -> (r: u64)
    requires
        attempt * 11 <= usize::MAX,
    ensures
        r == mix_seed(spec_seed_nanos(*clock), pid, attempt),
{
    mix_seed_exec(clock.seed_nanos(), pid, attempt)
}

} // verus!
