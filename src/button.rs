//! Button pollers: each samples one input once per interval and reports a
//! press on every sample that reads low. There is no debouncing and no edge
//! detection, so a held button reports once per interval.

use vstd::prelude::*;
use crate::periodic::{Periodic, wakes_before, lemma_count_at, lemma_whole_periods};

verus! {

/// Milliseconds between two samples of a button.
pub const BUTTON_POLL_MS: u64 = 100;

/// Which of the four buttons a poller watches.
#[derive(Clone, Copy, PartialEq, Eq, Structural, Debug)]
pub enum ButtonId {
    Btn1,
    Btn2,
    Btn3,
    Btn4,
}

pub open spec fn button_number(id: ButtonId) -> u8 {
    match id {
        ButtonId::Btn1 => 1,
        ButtonId::Btn2 => 2,
        ButtonId::Btn3 => 3,
        ButtonId::Btn4 => 4,
    }
}

impl ButtonId {
    /// The button's label on the board, 1 to 4.
    pub fn number(&self) -> (r: u8)
        ensures
            r == button_number(*self),
            1 <= r <= 4,
    {
        match self {
            ButtonId::Btn1 => 1,
            ButtonId::Btn2 => 2,
            ButtonId::Btn3 => 3,
            ButtonId::Btn4 => 4,
        }
    }

    /// The button with a given label, if there is one.
    pub fn from_number(n: u8) -> (r: Option<ButtonId>)
        ensures
            r is Some <==> 1 <= n <= 4,
            r matches Some(id) ==> button_number(id) == n,
    {
        match n {
            1 => Some(ButtonId::Btn1),
            2 => Some(ButtonId::Btn2),
            3 => Some(ButtonId::Btn3),
            4 => Some(ButtonId::Btn4),
            _ => None,
        }
    }
}

/// A poller of one button.
pub struct ButtonTask {
    id: ButtonId,
    timer: Periodic,
    presses: u64,
}

impl ButtonTask {
    pub closed spec fn id_spec(&self) -> ButtonId {
        self.id
    }

    pub closed spec fn timer_spec(&self) -> Periodic {
        self.timer
    }

    /// How many presses the poller has reported.
    pub closed spec fn presses_spec(&self) -> int {
        self.presses as int
    }

    /// How many samples the poller has taken.
    pub open spec fn polls(&self) -> int {
        self.timer_spec().fired_spec()
    }

    pub open spec fn wf(&self) -> bool {
        &&& self.timer_spec().wf()
        &&& 0 <= self.presses_spec() <= self.polls()
    }

    /// A poller of button `id`, due first at `start`, sampling every
    /// `interval` milliseconds.
    pub fn new(id: ButtonId, start: u64, interval: u64) -> (r: ButtonTask)
        requires
            interval > 0,
        ensures
            r.wf(),
            r.id_spec() == id,
            r.timer_spec().start_spec() == start,
            r.timer_spec().period_spec() == interval,
            r.timer_spec().ready_at_spec() == start,
            r.polls() == 0,
            r.presses_spec() == 0,
    {
        ButtonTask { id, timer: Periodic::new(start, interval), presses: 0 }
    }

    pub fn id(&self) -> (r: ButtonId)
        ensures
            r == self.id_spec(),
    {
        self.id
    }

    /// The time at which the poller is next due.
    pub fn ready_at(&self) -> (r: u64)
        ensures
            r == self.timer_spec().ready_at_spec(),
    {
        self.timer.ready_at()
    }

    /// Milliseconds between two wake-ups.
    pub fn period(&self) -> (r: u64)
        ensures
            r == self.timer_spec().period_spec(),
    {
        self.timer.period()
    }

    /// How many presses the poller has reported.
    pub fn presses(&self) -> (r: u64)
        ensures
            r == self.presses_spec(),
    {
        self.presses
    }

    /// One sample: `low` is what the input read. A low input is a press of
    /// this button, reported as `Some(id)`.
    pub fn poll(&mut self, low: bool) -> (r: Option<ButtonId>)
        requires
            old(self).wf(),
            old(self).timer_spec().ready_at_spec() + old(self).timer_spec().period_spec()
                <= u64::MAX,
        ensures
            final(self).wf(),
            r == (if low { Some(old(self).id_spec()) } else { None::<ButtonId> }),
            final(self).id_spec() == old(self).id_spec(),
            final(self).polls() == old(self).polls() + 1,
            final(self).presses_spec() == old(self).presses_spec() + (if low { 1int } else { 0 }),
            final(self).timer_spec().start_spec() == old(self).timer_spec().start_spec(),
            final(self).timer_spec().period_spec() == old(self).timer_spec().period_spec(),
            final(self).timer_spec().ready_at_spec() == old(self).timer_spec().ready_at_spec()
                + old(self).timer_spec().period_spec(),
    {
        self.timer.fire();
        if low {
            self.presses = self.presses + 1;
            Some(self.id)
        } else {
            None
        }
    }

    /// What polling until `end` with the input held at one level does: one
    /// sample for each wake-up due before `end`, each a press if the input is
    /// held low.
    pub open spec fn held_until(&self, after: ButtonTask, end: int, low: bool) -> bool {
        &&& after.wf()
        &&& after.id_spec() == self.id_spec()
        &&& after.timer_spec().start_spec() == self.timer_spec().start_spec()
        &&& after.timer_spec().period_spec() == self.timer_spec().period_spec()
        &&& after.timer_spec().ready_at_spec() >= end
        &&& after.polls() == if self.timer_spec().ready_at_spec() >= end {
            self.polls()
        } else {
            wakes_before(self.timer_spec().start_spec(), self.timer_spec().period_spec(), end)
        }
        &&& after.presses_spec() == self.presses_spec() + if low {
            after.polls() - self.polls()
        } else {
            0
        }
    }

    /// Take every sample due before `end` while the input stays at one level.
    /// Returns how many presses were reported.
    pub fn run_held(&mut self, end: u64, low: bool) -> (r: u64)
        requires
            old(self).wf(),
            end as int + old(self).timer_spec().period_spec() <= u64::MAX,
        ensures
            old(self).held_until(*final(self), end as int, low),
            r == final(self).presses_spec() - old(self).presses_spec(),
    {
        let ghost start = self.timer_spec().start_spec();
        let ghost period = self.timer_spec().period_spec();
        let ghost first = *self;
        let mut ran = false;
        let mut count: u64 = 0;
        while self.timer.ready_at() < end
            invariant
                self.wf(),
                self.id_spec() == first.id_spec(),
                self.timer_spec().start_spec() == start,
                self.timer_spec().period_spec() == period,
                end as int + period <= u64::MAX,
                !ran ==> self.polls() == first.polls(),
                !ran ==> self.timer_spec().ready_at_spec() == first.timer_spec().ready_at_spec(),
                ran ==> self.timer_spec().ready_at_spec() - period < end,
                ran ==> self.polls() > 0,
                ran ==> first.timer_spec().ready_at_spec() < end,
                self.polls() >= first.polls(),
                count == self.presses_spec() - first.presses_spec(),
                self.presses_spec() == first.presses_spec() + if low {
                    self.polls() - first.polls()
                } else {
                    0
                },
            decreases
                if self.timer_spec().ready_at_spec() < end {
                    end - self.timer_spec().ready_at_spec()
                } else {
                    0
                },
        {
            let e = self.poll(low);
            if e.is_some() {
                count = count + 1;
            }
            ran = true;
        }
        if ran {
            proof {
                lemma_count_at(start, period, self.polls(), end as int);
            }
        }
        count
    }
}

/// A poller that has just started, with its input held low for a whole number
/// of intervals, reports exactly one press per interval.
pub proof fn lemma_held_whole_intervals(before: ButtonTask, after: ButtonTask, span: int)
    requires
        before.wf(),
        before.polls() == 0,
        span >= 0,
        span % before.timer_spec().period_spec() == 0,
        before.held_until(after, before.timer_spec().start_spec() + span, true),
    ensures
        after.presses_spec() - before.presses_spec() == span / before.timer_spec().period_spec(),
{
    let p = before.timer_spec().period_spec();
    lemma_whole_periods(before.timer_spec().start_spec(), p, span);
    if span == 0 {
        assert(span / p == 0);
    }
}

} // verus!
