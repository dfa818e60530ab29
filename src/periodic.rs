//! A task's wake-up schedule: first at its start time, then once per period.

use vstd::prelude::*;

verus! {

/// How many wake-ups a schedule that starts at `start` with the given period
/// has had strictly before `end`.
pub open spec fn wakes_before(start: int, period: int, end: int) -> int {
    if end <= start {
        0
    } else {
        (end - start + period - 1) / period
    }
}

/// The deadlines of one task: it is due at `start`, `start + period`, ...
pub struct Periodic {
    start: u64,
    period: u64,
    ready_at: u64,
    fired: u64,
}

impl Periodic {
    pub closed spec fn start_spec(&self) -> int {
        self.start as int
    }

    pub closed spec fn period_spec(&self) -> int {
        self.period as int
    }

    pub closed spec fn ready_at_spec(&self) -> int {
        self.ready_at as int
    }

    pub closed spec fn fired_spec(&self) -> int {
        self.fired as int
    }

    /// Each wake-up so far moved the deadline on by one period.
    pub open spec fn wf(&self) -> bool {
        &&& self.period_spec() > 0
        &&& 0 <= self.start_spec() <= self.ready_at_spec() <= u64::MAX
        &&& 0 <= self.fired_spec() <= u64::MAX
        &&& self.ready_at_spec() == self.start_spec() + self.fired_spec() * self.period_spec()
    }

    /// A schedule due first at `start`.
    pub fn new(start: u64, period: u64) -> (r: Periodic)
        requires
            period > 0,
        ensures
            r.wf(),
            r.start_spec() == start,
            r.period_spec() == period,
            r.ready_at_spec() == start,
            r.fired_spec() == 0,
    {
        Periodic { start, period, ready_at: start, fired: 0 }
    }

    pub fn start(&self) -> (r: u64)
        ensures
            r == self.start_spec(),
    {
        self.start
    }

    pub fn period(&self) -> (r: u64)
        ensures
            r == self.period_spec(),
    {
        self.period
    }

    /// The time at which the task is next due.
    pub fn ready_at(&self) -> (r: u64)
        ensures
            r == self.ready_at_spec(),
    {
        self.ready_at
    }

    /// How many wake-ups have happened.
    pub fn fired(&self) -> (r: u64)
        ensures
            r == self.fired_spec(),
    {
        self.fired
    }

    /// Record one wake-up: the next deadline is one period later.
    pub fn fire(&mut self)
        requires
            old(self).wf(),
            old(self).ready_at_spec() + old(self).period_spec() <= u64::MAX,
        ensures
            final(self).wf(),
            final(self).start_spec() == old(self).start_spec(),
            final(self).period_spec() == old(self).period_spec(),
            final(self).ready_at_spec() == old(self).ready_at_spec() + old(self).period_spec(),
            final(self).fired_spec() == old(self).fired_spec() + 1,
    {
        assert((self.fired + 1) * self.period == self.fired * self.period + self.period)
            by (nonlinear_arith);
        assert(self.fired * self.period <= self.ready_at);
        assert(self.fired + 1 <= u64::MAX) by (nonlinear_arith)
            requires
                self.fired * self.period + self.period <= u64::MAX,
                self.period > 0,
        ;
        self.ready_at = self.ready_at + self.period;
        self.fired = self.fired + 1;
    }
}

/// A schedule whose deadline has reached `end`, with its last wake-up before
/// `end`, has had exactly the wake-ups that fall before `end`.
pub proof fn lemma_count_at(start: int, period: int, fired: int, end: int)
    requires
        period > 0,
        fired >= 0,
        start + fired * period >= end,
        fired == 0 || start + fired * period - period < end,
    ensures
        fired == wakes_before(start, period, end),
{
    if end > start {
        let x = end - start;
        assert(fired > 0) by (nonlinear_arith)
            requires x > 0, start + fired * period >= end, x == end - start, fired >= 0;
        assert((x + period - 1) / period == fired) by (nonlinear_arith)
            requires
                fired * period <= x + period - 1,
                x + period - 1 < fired * period + period,
                period > 0,
        ;
    } else if fired > 0 {
        assert(fired * period >= period) by (nonlinear_arith)
            requires fired >= 1, period > 0;
    }
}

/// Over a span that is a whole number of periods, a schedule wakes once per
/// period.
pub proof fn lemma_whole_periods(start: int, period: int, span: int)
    requires
        period > 0,
        span >= 0,
        span % period == 0,
    ensures
        wakes_before(start, period, start + span) == span / period,
{
    if span > 0 {
        let k = span / period;
        assert(span == k * period) by (nonlinear_arith)
            requires span % period == 0, period > 0, k == span / period;
        assert((span + period - 1) / period == k) by (nonlinear_arith)
            requires span == k * period, period > 0;
    }
}

} // verus!
