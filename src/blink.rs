//! Two outputs toggled in lock-step, once per period.

use vstd::prelude::*;
use crate::periodic::{Periodic, wakes_before, lemma_count_at, lemma_whole_periods};

verus! {

/// Milliseconds between two toggles of the board's blinker.
pub const BLINK_PERIOD_MS: u64 = 1000;

/// The level of a binary output.
#[derive(Clone, Copy, PartialEq, Eq, Structural, Debug)]
pub enum Level {
    Low,
    High,
}

impl Level {
    pub open spec fn flip(self) -> Level {
        match self {
            Level::Low => Level::High,
            Level::High => Level::Low,
        }
    }

    /// The level after `n` toggles.
    pub open spec fn flipped(self, n: int) -> Level {
        if n % 2 == 0 {
            self
        } else {
            self.flip()
        }
    }

    /// The other level.
    pub fn toggled(self) -> (r: Level)
        ensures
            r == self.flip(),
    {
        match self {
            Level::Low => Level::High,
            Level::High => Level::Low,
        }
    }
}

/// The blinker: outputs `a` and `b` each toggle once at every wake-up. Their
/// starting levels are the caller's and need not agree.
pub struct BlinkTask {
    a: Level,
    b: Level,
    first_a: Level,
    first_b: Level,
    timer: Periodic,
}

impl BlinkTask {
    pub closed spec fn a_spec(&self) -> Level {
        self.a
    }

    pub closed spec fn b_spec(&self) -> Level {
        self.b
    }

    pub closed spec fn first_a_spec(&self) -> Level {
        self.first_a
    }

    pub closed spec fn first_b_spec(&self) -> Level {
        self.first_b
    }

    pub closed spec fn timer_spec(&self) -> Periodic {
        self.timer
    }

    /// How often each output has toggled: the same count for both.
    pub open spec fn toggles(&self) -> int {
        self.timer_spec().fired_spec()
    }

    pub open spec fn wf(&self) -> bool {
        &&& self.timer_spec().wf()
        &&& self.a_spec() == self.first_a_spec().flipped(self.toggles())
        &&& self.b_spec() == self.first_b_spec().flipped(self.toggles())
    }

    /// A blinker due first at `start`, toggling every `period` milliseconds.
    pub fn new(a: Level, b: Level, start: u64, period: u64) -> (r: BlinkTask)
        requires
            period > 0,
        ensures
            r.wf(),
            r.a_spec() == a,
            r.b_spec() == b,
            r.first_a_spec() == a,
            r.first_b_spec() == b,
            r.timer_spec().start_spec() == start,
            r.timer_spec().period_spec() == period,
            r.timer_spec().ready_at_spec() == start,
            r.toggles() == 0,
    {
        BlinkTask { a, b, first_a: a, first_b: b, timer: Periodic::new(start, period) }
    }

    /// The current levels of the two outputs.
    pub fn levels(&self) -> (r: (Level, Level))
        ensures
            r == (self.a_spec(), self.b_spec()),
    {
        (self.a, self.b)
    }

    /// The time at which the blinker is next due.
    pub fn ready_at(&self) -> (r: u64)
        ensures
            r == self.timer_spec().ready_at_spec(),
    {
        self.timer.ready_at()
    }

    /// Milliseconds between two wake-ups.
    pub fn period(&self) -> (r: u64)
        ensures
            r == self.timer_spec().period_spec(),
    {
        self.timer.period()
    }

    /// How often each output has toggled.
    pub fn toggle_count(&self) -> (r: u64)
        ensures
            r == self.toggles(),
    {
        self.timer.fired()
    }

    /// One wake-up: toggle both outputs and sleep one period. Returns the new
    /// levels of `a` and `b`.
    pub fn wake(&mut self) -> (r: (Level, Level))
        requires
            old(self).wf(),
            old(self).timer_spec().ready_at_spec() + old(self).timer_spec().period_spec()
                <= u64::MAX,
        ensures
            final(self).wf(),
            r == (final(self).a_spec(), final(self).b_spec()),
            final(self).a_spec() == old(self).a_spec().flip(),
            final(self).b_spec() == old(self).b_spec().flip(),
            final(self).first_a_spec() == old(self).first_a_spec(),
            final(self).first_b_spec() == old(self).first_b_spec(),
            final(self).toggles() == old(self).toggles() + 1,
            final(self).timer_spec().start_spec() == old(self).timer_spec().start_spec(),
            final(self).timer_spec().period_spec() == old(self).timer_spec().period_spec(),
            final(self).timer_spec().ready_at_spec() == old(self).timer_spec().ready_at_spec()
                + old(self).timer_spec().period_spec(),
    {
        self.a = self.a.toggled();
        self.b = self.b.toggled();
        self.timer.fire();
        (self.a, self.b)
    }

    /// What running a blinker until `end` does: the outputs have toggled once
    /// for each wake-up due before `end`, both equally often.
    pub open spec fn ran_until(&self, after: BlinkTask, end: int) -> bool {
        &&& after.wf()
        &&& after.first_a_spec() == self.first_a_spec()
        &&& after.first_b_spec() == self.first_b_spec()
        &&& after.timer_spec().start_spec() == self.timer_spec().start_spec()
        &&& after.timer_spec().period_spec() == self.timer_spec().period_spec()
        &&& after.timer_spec().ready_at_spec() >= end
        &&& after.toggles() == if self.timer_spec().ready_at_spec() >= end {
            self.toggles()
        } else {
            wakes_before(self.timer_spec().start_spec(), self.timer_spec().period_spec(), end)
        }
    }

    /// Run every wake-up that falls before `end`.
    pub fn run_until(&mut self, end: u64)
        requires
            old(self).wf(),
            end as int + old(self).timer_spec().period_spec() <= u64::MAX,
        ensures
            old(self).ran_until(*final(self), end as int),
    {
        let ghost start = self.timer_spec().start_spec();
        let ghost period = self.timer_spec().period_spec();
        let ghost first = *self;
        let ghost first_toggles = self.toggles();
        let mut ran = false;
        while self.timer.ready_at() < end
            invariant
                self.wf(),
                self.first_a_spec() == first.first_a_spec(),
                self.first_b_spec() == first.first_b_spec(),
                self.timer_spec().start_spec() == start,
                self.timer_spec().period_spec() == period,
                end as int + period <= u64::MAX,
                !ran ==> self.toggles() == first_toggles,
                !ran ==> self.timer_spec().ready_at_spec() == first.timer_spec().ready_at_spec(),
                ran ==> self.timer_spec().ready_at_spec() - period < end,
                ran ==> self.toggles() > 0,
                ran ==> first.timer_spec().ready_at_spec() < end,
            decreases
                if self.timer_spec().ready_at_spec() < end {
                    end - self.timer_spec().ready_at_spec()
                } else {
                    0
                },
        {
            self.wake();
            ran = true;
        }
        if ran {
            proof {
                lemma_count_at(start, period, self.toggles(), end as int);
            }
        }
    }
}

/// A blinker that has just started and then runs for a whole number of
/// periods has toggled each output once per period, in lock-step.
pub proof fn lemma_blink_whole_periods(before: BlinkTask, after: BlinkTask, span: int)
    requires
        before.wf(),
        before.toggles() == 0,
        span >= 0,
        span % before.timer_spec().period_spec() == 0,
        before.ran_until(after, before.timer_spec().start_spec() + span),
    ensures
        after.toggles() == span / before.timer_spec().period_spec(),
        after.a_spec() == before.a_spec().flipped(span / before.timer_spec().period_spec()),
        after.b_spec() == before.b_spec().flipped(span / before.timer_spec().period_spec()),
{
    let p = before.timer_spec().period_spec();
    lemma_whole_periods(before.timer_spec().start_spec(), p, span);
    if span == 0 {
        assert(span / p == 0);
    }
}

} // verus!
