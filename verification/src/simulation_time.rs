//! The scaled simulation clock and the calendar date derived from it.
//!
//! The clock counts whole simulation seconds, independently of wall-clock
//! time. While the simulation is paused the clock is simply not advanced;
//! everything else may still read it.

use vstd::prelude::*;
use vstd::arithmetic::div_mod::{lemma_fundamental_div_mod, lemma_mod_bound, lemma_mod_mod};

verus! {

/// Whether the simulation clock is being advanced each frame.
#[derive(Clone, Copy, Eq, PartialEq, Debug, Hash, Structural)]
pub enum SimulationState {
    Running,
    Paused,
}

/// Scaled elapsed simulation time, in whole seconds.
pub struct SimulationTime {
    elapsed: u64,
    delta: u64,
    scale: u64,
}

impl SimulationTime {
    /// Total simulation seconds elapsed so far.
    pub closed spec fn spec_elapsed(self) -> u64 {
        self.elapsed
    }

    /// Scaled length of the last tick, in seconds.
    pub closed spec fn spec_delta(self) -> u64 {
        self.delta
    }

    /// Factor by which raw tick lengths are scaled.
    pub closed spec fn spec_scale(self) -> u64 {
        self.scale
    }

    /// Advances the clock by one tick of `delta` raw seconds, scaled by the
    /// current scale factor.
    pub fn advance(&mut self, delta: u64)
        requires
            old(self).spec_elapsed() + delta * old(self).spec_scale() <= u64::MAX,
        ensures
            final(self).spec_elapsed()
                == old(self).spec_elapsed() + delta * old(self).spec_scale(),
            final(self).spec_delta() == delta * old(self).spec_scale(),
            final(self).spec_scale() == old(self).spec_scale(),
    {
        proof {
            assert(delta * self.scale <= u64::MAX) by (nonlinear_arith)
                requires self.elapsed + delta * self.scale <= u64::MAX;
        }
        self.delta = delta * self.scale;
        self.elapsed = self.elapsed + self.delta;
    }

    #[inline]
    pub fn delta_seconds(&self) -> (r: u64)
        ensures
            r == self.spec_delta(),
    {
        self.delta
    }

    #[inline]
    pub fn scale(&self) -> (r: u64)
        ensures
            r == self.spec_scale(),
    {
        self.scale
    }

    #[inline]
    pub fn elapsed_seconds(&self) -> (r: u64)
        ensures
            r == self.spec_elapsed(),
    {
        self.elapsed
    }
}

impl Default for SimulationTime {
    /// A fresh clock: nothing elapsed, scale factor one.
    fn default() -> (r: Self)
        ensures
            r.spec_elapsed() == 0,
            r.spec_delta() == 0,
            r.spec_scale() == 1,
    {
        SimulationTime { delta: 0, elapsed: 0, scale: 1 }
    }
}

pub const DAYS_PER_MONTH: u64 = 28;
pub const MONTHS_PER_YEAR: u64 = 4;

pub const SECONDS_PER_MINUTE: u64 = 60;
pub const SECONDS_PER_HOUR: u64 = 3600;
pub const SECONDS_PER_DAY: u64 = 86400;
pub const SECONDS_PER_MONTH: u64 = 2419200;
pub const SECONDS_PER_YEAR: u64 = 9676800;

/// The calendar starts at eight in the morning of its first day.
pub const START_OFFSET: u64 = 28800;

/// Calendar reading of the simulation clock.
#[derive(Debug, Copy, Clone, Eq, PartialEq, Structural)]
pub struct SimulationDate {
    pub year: u32,
    pub month: u8,
    pub day: u8,
    pub hour: u8,
    pub minute: u8,
    pub second: u8,
}

impl Default for SimulationDate {
    fn default() -> (r: Self)
        ensures
            r == (SimulationDate { year: 1, month: 1, day: 1, hour: 8, minute: 0, second: 0 }),
    {
        SimulationDate { year: 1, month: 1, day: 1, hour: 8, minute: 0, second: 0 }
    }
}

impl SimulationDate {
    pub open spec fn spec_year(total: int) -> int {
        total / SECONDS_PER_YEAR as int
    }

    pub open spec fn spec_month(total: int) -> int {
        (total % SECONDS_PER_YEAR as int) / SECONDS_PER_MONTH as int
    }

    pub open spec fn spec_day(total: int) -> int {
        (total % SECONDS_PER_MONTH as int) / SECONDS_PER_DAY as int
    }

    pub open spec fn spec_hour(total: int) -> int {
        (total % SECONDS_PER_DAY as int) / SECONDS_PER_HOUR as int
    }

    pub open spec fn spec_minute(total: int) -> int {
        (total % SECONDS_PER_HOUR as int) / SECONDS_PER_MINUTE as int
    }

    pub open spec fn spec_second(total: int) -> int {
        total % SECONDS_PER_MINUTE as int
    }

    /// Breaks the clock's elapsed seconds, offset so that the calendar
    /// begins in the morning, into year, month, day and time of day.
    pub fn from_time(time: &SimulationTime) -> (r: SimulationDate)
        requires
            time.spec_elapsed() + START_OFFSET <= u64::MAX,
            Self::spec_year(time.spec_elapsed() + START_OFFSET as int) <= u32::MAX,
        ensures
            ({
                let total = time.spec_elapsed() + START_OFFSET as int;
                &&& r.year == Self::spec_year(total)
                &&& r.month == Self::spec_month(total)
                &&& r.day == Self::spec_day(total)
                &&& r.hour == Self::spec_hour(total)
                &&& r.minute == Self::spec_minute(total)
                &&& r.second == Self::spec_second(total)
            }),
    {
        let total: u64 = time.elapsed_seconds() + START_OFFSET;
        let ghost t = total as int;

        let year: u64 = total / SECONDS_PER_YEAR;
        proof {
            lemma_fundamental_div_mod(t, SECONDS_PER_YEAR as int);
            lemma_mod_bound(t, SECONDS_PER_YEAR as int);
        }
        let mut remaining_seconds: u64 = total - year * SECONDS_PER_YEAR;
        assert(remaining_seconds == t % SECONDS_PER_YEAR as int);

        let month: u64 = remaining_seconds / SECONDS_PER_MONTH;
        proof {
            lemma_date_step(t, SECONDS_PER_YEAR as int, SECONDS_PER_MONTH as int,
                MONTHS_PER_YEAR as int);
        }
        remaining_seconds = remaining_seconds - month * SECONDS_PER_MONTH;
        assert(remaining_seconds == t % SECONDS_PER_MONTH as int);
        assert(month < MONTHS_PER_YEAR);

        let day: u64 = remaining_seconds / SECONDS_PER_DAY;
        proof {
            lemma_date_step(t, SECONDS_PER_MONTH as int, SECONDS_PER_DAY as int,
                DAYS_PER_MONTH as int);
        }
        remaining_seconds = remaining_seconds - day * SECONDS_PER_DAY;
        assert(remaining_seconds == t % SECONDS_PER_DAY as int);
        assert(day < DAYS_PER_MONTH);

        let hour: u64 = remaining_seconds / SECONDS_PER_HOUR;
        proof {
            lemma_date_step(t, SECONDS_PER_DAY as int, SECONDS_PER_HOUR as int, 24);
        }
        remaining_seconds = remaining_seconds - hour * SECONDS_PER_HOUR;
        assert(remaining_seconds == t % SECONDS_PER_HOUR as int);
        assert(hour < 24);

        let minute: u64 = remaining_seconds / SECONDS_PER_MINUTE;
        proof {
            lemma_date_step(t, SECONDS_PER_HOUR as int, SECONDS_PER_MINUTE as int, 60);
        }
        remaining_seconds = remaining_seconds - minute * SECONDS_PER_MINUTE;
        assert(remaining_seconds == t % SECONDS_PER_MINUTE as int);
        assert(minute < 60);

        SimulationDate {
            year: year as u32,
            month: month as u8,
            day: day as u8,
            hour: hour as u8,
            minute: minute as u8,
            second: remaining_seconds as u8,
        }
    }
}

/// One step of breaking a total number of seconds into calendar units:
/// given that `big == small * k`, the remainder of `t` modulo `big` splits
/// into fewer than `k` whole `small` units plus the remainder of `t` modulo
/// `small`.
proof fn lemma_date_step(t: int, big: int, small: int, k: int)
    requires
        t >= 0,
        small > 0,
        k > 0,
        big == small * k,
    ensures
        0 < big,
        (t % big) % small == t % small,
        0 <= t % small < small,
        0 <= (t % big) / small < k,
        ((t % big) / small) * small <= t % big,
        (t % big) - ((t % big) / small) * small == t % small,
{
    assert(big > 0) by (nonlinear_arith)
        requires small > 0 && k > 0 && big == small * k;
    lemma_mod_bound(t, big);
    lemma_mod_mod(t, small, k);
    let r = t % big;
    lemma_fundamental_div_mod(r, small);
    lemma_mod_bound(r, small);
    assert(r / small >= 0 && (r / small) * small <= r) by (nonlinear_arith)
        requires small > 0 && r >= 0 && r == small * (r / small) + r % small && 0 <= r % small;
    assert(r / small < k) by (nonlinear_arith)
        requires small > 0 && r == small * (r / small) + r % small && 0 <= r % small
            && r < small * k;
    assert(r - (r / small) * small == r % small) by (nonlinear_arith)
        requires r == small * (r / small) + r % small;
}

} // verus!
