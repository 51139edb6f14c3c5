//! The two cadences of the machine: instructions and timers.
//!
//! Time is a count of nanoseconds that the host reads from a clock of its
//! choice and hands in; the machine reads no clock itself. A cadence of `rate`
//! periods per second has completed `elapsed * rate / 1_000_000_000` whole
//! periods once `elapsed` nanoseconds have passed, so no fraction of a period
//! is ever lost to rounding, however the elapsed time is cut into calls.

use vstd::prelude::*;

verus! {

/// Nanoseconds in a second.
pub const NANOS_PER_SECOND: u64 = 1_000_000_000;

/// Instructions executed per second.
pub const TICKS_PER_SECOND: u64 = 700;

/// Timer decrements per second.
pub const TIMER_UPDATES_PER_SECOND: u64 = 60;

/// The most instructions that one tick executes, however long the machine
/// was left alone before it.
pub const MAX_CATCH_UP: u64 = 16;

/// The whole periods of a cadence of `rate` periods per second that have
/// passed at time `now` on a clock started at `started`. A `now` before the
/// start counts as the start.
pub open spec fn periods(rate: u64, started: u64, now: u64) -> int {
    if now <= started {
        0
    } else {
        ((now - started) * rate) / (NANOS_PER_SECOND as int)
    }
}

/// What a `CycleHandler` knows: when its clock started and how many periods
/// of each cadence it has accounted for.
pub struct Cadence {
    pub started: u64,
    pub ticks_done: u64,
    pub timer_updates_done: u64,
}

impl Cadence {
    /// The instruction periods that have passed at `now` and are not yet
    /// accounted for.
    pub open spec fn ticks_due(self, now: u64) -> int {
        let total = periods(TICKS_PER_SECOND, self.started, now);
        if total > self.ticks_done {
            total - self.ticks_done
        } else {
            0
        }
    }

    /// The instructions that a tick at `now` is entitled to: the periods due,
    /// but no more than `MAX_CATCH_UP`.
    pub open spec fn cycles_due(self, now: u64) -> int {
        if self.ticks_due(now) > MAX_CATCH_UP {
            MAX_CATCH_UP as int
        } else {
            self.ticks_due(now)
        }
    }

    /// The cadence after a tick at `now`: every instruction period that has
    /// passed is accounted for, whether it was executed or dropped.
    pub open spec fn after_tick(self, now: u64) -> Cadence {
        Cadence { ticks_done: (self.ticks_done + self.ticks_due(now)) as u64, ..self }
    }

    /// The timer periods that have passed at `now` and are not yet accounted
    /// for.
    pub open spec fn timer_updates_due(self, now: u64) -> int {
        let total = periods(TIMER_UPDATES_PER_SECOND, self.started, now);
        if total > self.timer_updates_done {
            total - self.timer_updates_done
        } else {
            0
        }
    }

    /// The cadence after a timer update at `now`.
    pub open spec fn after_timer_update(self, now: u64) -> Cadence {
        Cadence {
            timer_updates_done: (self.timer_updates_done + self.timer_updates_due(now)) as u64,
            ..self
        }
    }
}

/// The periods that have passed fit in 64 bits, and never decrease as time
/// goes on.
pub proof fn lemma_periods(rate: u64, started: u64, earlier: u64, later: u64)
    requires
        rate <= NANOS_PER_SECOND,
        earlier <= later,
    ensures
        0 <= periods(rate, started, earlier) <= periods(rate, started, later) <= u64::MAX,
{
    if later > started {
        assert((later - started) * rate <= (later - started) * NANOS_PER_SECOND)
            by (nonlinear_arith)
            requires
                rate <= NANOS_PER_SECOND,
                later - started >= 0,
        ;
        if earlier > started {
            assert((earlier - started) * rate <= (later - started) * rate) by (nonlinear_arith)
                requires
                    earlier - started <= later - started,
                    rate >= 0,
            ;
        } else {
            assert(0 <= (later - started) * rate) by (nonlinear_arith)
                requires
                    later - started >= 0,
                    rate >= 0,
            ;
        }
    }
}

/// The whole periods of a cadence of `rate` periods per second that have
/// passed at `now` on a clock started at `started`.
fn periods_elapsed(rate: u64, started: u64, now: u64) -> (count: u64)
    requires
        rate <= NANOS_PER_SECOND,
    ensures
        count == periods(rate, started, now),
{
    if now <= started {
        0
    } else {
        let elapsed: u128 = (now - started) as u128;
        proof {
            lemma_periods(rate, started, now, now);
            assert(elapsed * rate <= elapsed * NANOS_PER_SECOND) by (nonlinear_arith)
                requires
                    rate <= NANOS_PER_SECOND,
                    elapsed >= 0,
            ;
        }
        let scaled: u128 = elapsed * (rate as u128);
        (scaled / (NANOS_PER_SECOND as u128)) as u64
    }
}

/// The clock of the two cadences.
pub struct CycleHandler {
    started: u64,
    ticks_done: u64,
    timer_updates_done: u64,
}

impl View for CycleHandler {
    type V = Cadence;

    closed spec fn view(&self) -> Cadence {
        Cadence {
            started: self.started,
            ticks_done: self.ticks_done,
            timer_updates_done: self.timer_updates_done,
        }
    }
}

impl CycleHandler {
    /// A clock started at `now`, with nothing due.
    pub fn new(now: u64) -> (handler: CycleHandler)
        ensures
            handler@ == (Cadence { started: now, ticks_done: 0, timer_updates_done: 0 }),
    {
        CycleHandler { started: now, ticks_done: 0, timer_updates_done: 0 }
    }

    /// The number of instructions to execute at `now`, at most
    /// `MAX_CATCH_UP`. Every instruction period that has passed is then
    /// accounted for: those above the limit are dropped.
    pub fn take_cycles(&mut self, now: u64) -> (cycles: u64)
        ensures
            cycles == old(self)@.cycles_due(now),
            final(self)@ == old(self)@.after_tick(now),
    {
        let total: u64 = periods_elapsed(TICKS_PER_SECOND, self.started, now);
        if total > self.ticks_done {
            let due: u64 = total - self.ticks_done;
            self.ticks_done = total;
            if due > MAX_CATCH_UP {
                MAX_CATCH_UP
            } else {
                due
            }
        } else {
            0
        }
    }

    /// The number of timer decrements to make at `now`. Every timer period
    /// that has passed is then accounted for.
    pub fn take_timer_updates(&mut self, now: u64) -> (updates: u64)
        ensures
            updates == old(self)@.timer_updates_due(now),
            final(self)@ == old(self)@.after_timer_update(now),
    {
        let total: u64 = periods_elapsed(TIMER_UPDATES_PER_SECOND, self.started, now);
        if total > self.timer_updates_done {
            let due: u64 = total - self.timer_updates_done;
            self.timer_updates_done = total;
            due
        } else {
            0
        }
    }
}

} // verus!
