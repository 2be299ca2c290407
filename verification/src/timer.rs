//! The 60 Hz clock of the two timers, and the pacing of cycles.
//!
//! The clock is fed the time; it reads none itself. It hands out one pulse
//! for each sixtieth of a second that has passed since it was made, however
//! often or seldom it is asked.

use vstd::prelude::*;

verus! {

/// The length of one cycle in microseconds, at 500 cycles a second.
pub const CYCLE_MICROS: u64 = 2000;

/// The number of whole sixtieths of a second in a number of microseconds.
pub open spec fn pulses_in(micros: nat) -> nat {
    micros * 60 / 1_000_000
}

/// Time that passes brings no fewer pulses.
pub proof fn pulses_in_is_monotonic(earlier: nat, later: nat)
    requires
        earlier <= later,
    ensures
        pulses_in(earlier) <= pulses_in(later),
{
}

/// A stretch of time shorter than one period of 60 Hz brings at most one pulse.
pub proof fn at_most_one_pulse_per_period(earlier: nat, later: nat)
    requires
        earlier <= later,
        (later - earlier) * 60 < 1_000_000,
    ensures
        pulses_in(later) - pulses_in(earlier) <= 1,
{
}

/// The model of a clock.
pub ghost struct TimerClockView {
    /// The time at which the clock was made, in microseconds.
    pub origin: nat,
    /// The pulses handed out so far.
    pub delivered: nat,
}

impl TimerClockView {
    /// The pulses that are due at a time, counted from the origin.
    pub open spec fn due(self, now: nat) -> nat {
        if now >= self.origin {
            pulses_in((now - self.origin) as nat)
        } else {
            0
        }
    }

    /// The pulses that are due at a time and not handed out yet.
    pub open spec fn pending(self, now: nat) -> nat {
        if self.due(now) > self.delivered {
            (self.due(now) - self.delivered) as nat
        } else {
            0
        }
    }

    /// The clock after it was drained at a time.
    pub open spec fn drained(self, now: nat) -> TimerClockView {
        TimerClockView { delivered: self.delivered + self.pending(now), ..self }
    }

    /// The clock after it was drained at each of the times in turn.
    pub open spec fn drained_at_each(self, times: Seq<u64>) -> TimerClockView
        decreases times.len(),
    {
        if times.len() == 0 {
            self
        } else {
            self.drained_at_each(times.drop_last()).drained(times.last() as nat)
        }
    }

    /// The pulses handed out in all when the clock is drained at each of the
    /// times in turn.
    pub open spec fn pulses_over(self, times: Seq<u64>) -> nat
        decreases times.len(),
    {
        if times.len() == 0 {
            0
        } else {
            self.pulses_over(times.drop_last()) + self.drained_at_each(times.drop_last()).pending(
                times.last() as nat,
            )
        }
    }
}

/// The timers go by the time, not by the number of cycles: however often the
/// clock is drained up to a time, it hands out no more pulses in all than one
/// draining at that time would have.
pub proof fn pulses_follow_time(clock: TimerClockView, times: Seq<u64>, latest: u64)
    requires
        forall|i: int| 0 <= i < times.len() ==> times[i] <= latest,
    ensures
        clock.pulses_over(times) == clock.drained_at_each(times).delivered - clock.delivered,
        clock.pulses_over(times) <= clock.pending(latest as nat),
        clock.drained_at_each(times).origin == clock.origin,
    decreases times.len(),
{
    if times.len() > 0 {
        pulses_follow_time(clock, times.drop_last(), latest);
        let before = clock.drained_at_each(times.drop_last());
        pulses_in_is_monotonic(
            if times.last() >= clock.origin {
                (times.last() - clock.origin) as nat
            } else {
                0
            },
            if latest >= clock.origin {
                (latest - clock.origin) as nat
            } else {
                0
            },
        );
    }
}

/// However often a clock is drained within less than one period of 60 Hz
/// after a draining, it hands out at most one pulse in all.
pub proof fn one_period_brings_at_most_one_pulse(
    clock: TimerClockView,
    start: u64,
    times: Seq<u64>,
    latest: u64,
)
    requires
        start <= latest,
        (latest - start) * 60 < 1_000_000,
        forall|i: int| 0 <= i < times.len() ==> times[i] <= latest,
    ensures
        clock.drained(start as nat).pulses_over(times) <= 1,
{
    let drained = clock.drained(start as nat);
    pulses_follow_time(drained, times, latest);
    if latest >= clock.origin {
        if start >= clock.origin {
            at_most_one_pulse_per_period(
                (start - clock.origin) as nat,
                (latest - clock.origin) as nat,
            );
        } else {
            at_most_one_pulse_per_period(0, (latest - clock.origin) as nat);
        }
    }
}

/// The clock of the timers.
pub struct TimerClock {
    origin_us: u64,
    delivered: u64,
}

impl View for TimerClock {
    type V = TimerClockView;

    closed spec fn view(&self) -> TimerClockView {
        TimerClockView { origin: self.origin_us as nat, delivered: self.delivered as nat }
    }
}

impl TimerClock {
    /// A clock made at the given time, in microseconds.
    pub fn new(now_us: u64) -> (r: TimerClock)
        ensures
            r@ == (TimerClockView { origin: now_us as nat, delivered: 0 }),
    {
        TimerClock { origin_us: now_us, delivered: 0 }
    }

    /// Hands out the pulses that are due at the given time, in microseconds,
    /// and were not handed out before.
    pub fn drain(&mut self, now_us: u64) -> (pulses: u64)
        ensures
            pulses == old(self)@.pending(now_us as nat),
            final(self)@ == old(self)@.drained(now_us as nat),
    {
        if now_us < self.origin_us {
            return 0;
        }
        let elapsed: u64 = now_us - self.origin_us;
        let due: u64 = ((elapsed as u128 * 60) / 1_000_000) as u64;
        if due > self.delivered {
            let pulses: u64 = due - self.delivered;
            self.delivered = due;
            pulses
        } else {
            0
        }
    }
}

/// How long to wait after a cycle that took `elapsed_us` microseconds, so
/// that cycles follow each other `CYCLE_MICROS` apart; `None` where the cycle
/// took that long or longer.
pub fn pacing_delay(elapsed_us: u64) -> (r: Option<u64>)
    ensures
        r == if elapsed_us < CYCLE_MICROS {
            Some((CYCLE_MICROS - elapsed_us) as u64)
        } else {
            None
        },
{
    if elapsed_us < CYCLE_MICROS {
        Some(CYCLE_MICROS - elapsed_us)
    } else {
        None
    }
}

} // verus!
