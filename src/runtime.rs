//! The cooperative runtime: a fixed pool of tasks per kind, each due at its
//! own deadline. The runtime picks the task due earliest, ties going to the
//! one spawned first, and resumes it for one step; the program around it
//! waits for the deadline, samples inputs and carries out what the step asks.

use vstd::prelude::*;
use crate::animator::{PanelTask, next_hue, hue_after};
use crate::blink::{BlinkTask, Level};
use crate::button::{ButtonId, ButtonTask, button_number};
use crate::periodic::{wakes_before, lemma_count_at};
use crate::color::Rgb;

verus! {

/// The kinds of task, each with its own pool.
#[derive(Clone, Copy, PartialEq, Eq, Structural, Debug)]
pub enum TaskKind {
    Blink,
    Panel,
    Button,
}

/// How many button pollers may run at once.
pub const BUTTON_POOL: usize = 4;

/// How many tasks of a kind may run at once.
pub open spec fn capacity_of(k: TaskKind) -> nat {
    match k {
        TaskKind::Blink => 1,
        TaskKind::Panel => 1,
        TaskKind::Button => BUTTON_POOL as nat,
    }
}

/// The size of a kind's pool.
pub fn capacity(k: TaskKind) -> (r: usize)
    ensures
        r == capacity_of(k),
{
    match k {
        TaskKind::Blink => 1,
        TaskKind::Panel => 1,
        TaskKind::Button => BUTTON_POOL,
    }
}

/// One spawned unit of work.
pub enum Task {
    Blink(BlinkTask),
    Panel(PanelTask),
    Button(ButtonTask),
}

/// What a resumed task asks of the hardware.
pub enum Action {
    /// Set the two blink outputs to these levels.
    SetLevels(Level, Level),
    /// Write this frame to the strip; the flag tells that a sweep ended.
    WriteFrame(Vec<Rgb>, bool),
    /// The button was sampled; `Some` reports it pressed.
    Sampled(Option<ButtonId>),
}

/// A spawn that could not be served.
#[derive(Clone, Copy, PartialEq, Eq, Structural, Debug)]
pub enum SpawnError {
    /// Every slot of the kind's pool is taken.
    PoolExhausted,
}

pub open spec fn kind_of(t: Task) -> TaskKind {
    match t {
        Task::Blink(_) => TaskKind::Blink,
        Task::Panel(_) => TaskKind::Panel,
        Task::Button(_) => TaskKind::Button,
    }
}

pub open spec fn task_wf(t: Task) -> bool {
    match t {
        Task::Blink(b) => b.wf(),
        Task::Panel(p) => p.wf(),
        Task::Button(b) => b.wf(),
    }
}

/// The time at which a task is next due.
pub open spec fn due_of(t: Task) -> int {
    match t {
        Task::Blink(b) => b.timer_spec().ready_at_spec(),
        Task::Panel(p) => p.timer_spec().ready_at_spec(),
        Task::Button(b) => b.timer_spec().ready_at_spec(),
    }
}

pub open spec fn period_of(t: Task) -> int {
    match t {
        Task::Blink(b) => b.timer_spec().period_spec(),
        Task::Panel(p) => p.timer_spec().period_spec(),
        Task::Button(b) => b.timer_spec().period_spec(),
    }
}

/// How many tasks of kind `k` the sequence holds.
pub open spec fn count_kind(s: Seq<Task>, k: TaskKind) -> nat
    decreases s.len(),
{
    if s.len() == 0 {
        0
    } else {
        count_kind(s.drop_last(), k) + if kind_of(s.last()) == k {
            1nat
        } else {
            0
        }
    }
}

/// One step of a task: `before` became `after` and asked for `action`, with
/// `low` the level sampled for a button.
pub open spec fn resumed(before: Task, after: Task, low: bool, action: Action) -> bool {
    match (before, after, action) {
        (Task::Blink(b0), Task::Blink(b1), Action::SetLevels(a, b)) => {
            &&& b1.wf()
            &&& b1.a_spec() == b0.a_spec().flip()
            &&& b1.b_spec() == b0.b_spec().flip()
            &&& a == b1.a_spec()
            &&& b == b1.b_spec()
            &&& b1.toggles() == b0.toggles() + 1
            &&& b1.first_a_spec() == b0.first_a_spec()
            &&& b1.first_b_spec() == b0.first_b_spec()
            &&& b1.timer_spec().start_spec() == b0.timer_spec().start_spec()
            &&& b1.timer_spec().period_spec() == b0.timer_spec().period_spec()
            &&& b1.timer_spec().ready_at_spec() == b0.timer_spec().ready_at_spec()
                + b0.timer_spec().period_spec()
        },
        (Task::Panel(p0), Task::Panel(p1), Action::WriteFrame(f, lap)) => {
            &&& p1.wf()
            &&& f@ == p0.animator_spec().current_frame()
            &&& lap == (p0.animator_spec().hue_spec() == 255)
            &&& p1.animator_spec().hue_spec() == next_hue(p0.animator_spec().hue_spec())
            &&& p1.animator_spec().strip_len_spec() == p0.animator_spec().strip_len_spec()
            &&& p1.animator_spec().level_spec() == p0.animator_spec().level_spec()
            &&& p1.laps_spec() == p0.laps_spec() + (if lap { 1int } else { 0 })
            &&& p1.timer_spec().start_spec() == p0.timer_spec().start_spec()
            &&& p1.timer_spec().period_spec() == p0.timer_spec().period_spec()
            &&& p1.timer_spec().ready_at_spec() == p0.timer_spec().ready_at_spec()
                + p0.timer_spec().period_spec()
            &&& p1.timer_spec().fired_spec() == p0.timer_spec().fired_spec() + 1
        },
        (Task::Button(b0), Task::Button(b1), Action::Sampled(e)) => {
            &&& b1.wf()
            &&& e == (if low { Some(b0.id_spec()) } else { None::<ButtonId> })
            &&& b1.id_spec() == b0.id_spec()
            &&& b1.polls() == b0.polls() + 1
            &&& b1.presses_spec() == b0.presses_spec() + (if low { 1int } else { 0 })
            &&& b1.timer_spec().start_spec() == b0.timer_spec().start_spec()
            &&& b1.timer_spec().period_spec() == b0.timer_spec().period_spec()
            &&& b1.timer_spec().ready_at_spec() == b0.timer_spec().ready_at_spec()
                + b0.timer_spec().period_spec()
        },
        _ => false,
    }
}

pub open spec fn start_of(t: Task) -> int {
    match t {
        Task::Blink(b) => b.timer_spec().start_spec(),
        Task::Panel(p) => p.timer_spec().start_spec(),
        Task::Button(b) => b.timer_spec().start_spec(),
    }
}

/// How many times the task has been resumed since it was created.
pub open spec fn fired_of(t: Task) -> int {
    match t {
        Task::Blink(b) => b.timer_spec().fired_spec(),
        Task::Panel(p) => p.timer_spec().fired_spec(),
        Task::Button(b) => b.timer_spec().fired_spec(),
    }
}

/// The level that a button poller's input is held at, from the levels of
/// the four buttons in label order; other tasks read no input.
pub open spec fn held_of(t: Task, held: Seq<bool>) -> bool {
    match t {
        Task::Button(b) => held[button_number(b.id_spec()) - 1],
        _ => false,
    }
}

/// `after` is `before` resumed some number of times, its input held at `low`.
pub open spec fn advanced(before: Task, after: Task, low: bool) -> bool {
    &&& task_wf(after)
    &&& start_of(after) == start_of(before)
    &&& period_of(after) == period_of(before)
    &&& fired_of(after) >= fired_of(before)
    &&& match (before, after) {
        (Task::Blink(b0), Task::Blink(b1)) => {
            &&& b1.first_a_spec() == b0.first_a_spec()
            &&& b1.first_b_spec() == b0.first_b_spec()
        },
        (Task::Panel(p0), Task::Panel(p1)) => {
            &&& p1.animator_spec().hue_spec() == hue_after(
                p0.animator_spec().hue_spec(),
                (fired_of(after) - fired_of(before)) as nat,
            )
            &&& p1.animator_spec().strip_len_spec() == p0.animator_spec().strip_len_spec()
            &&& p1.animator_spec().level_spec() == p0.animator_spec().level_spec()
        },
        (Task::Button(b0), Task::Button(b1)) => {
            &&& b1.id_spec() == b0.id_spec()
            &&& b1.presses_spec() == b0.presses_spec() + if low {
                fired_of(after) - fired_of(before)
            } else {
                0
            }
        },
        _ => false,
    }
}

/// How far, in milliseconds, the tasks' deadlines lie before `end`, summed.
pub open spec fn pending(s: Seq<Task>, end: int) -> nat
    decreases s.len(),
{
    if s.len() == 0 {
        0
    } else {
        pending(s.drop_last(), end) + if due_of(s.last()) < end {
            (end - due_of(s.last())) as nat
        } else {
            0nat
        }
    }
}

pub open spec fn gap(t: Task, end: int) -> int {
    if due_of(t) < end {
        end - due_of(t)
    } else {
        0
    }
}

proof fn lemma_pending_update(s: Seq<Task>, i: int, t: Task, end: int)
    requires
        0 <= i < s.len(),
    ensures
        pending(s.update(i, t), end) == pending(s, end) - gap(s[i], end) + gap(t, end),
    decreases s.len(),
{
    let u = s.update(i, t);
    if i < s.len() - 1 {
        assert(u.drop_last() =~= s.drop_last().update(i, t));
        lemma_pending_update(s.drop_last(), i, t, end);
    } else {
        assert(u.drop_last() =~= s.drop_last());
    }
}

proof fn lemma_advanced_refl(t: Task, low: bool)
    requires
        task_wf(t),
    ensures
        advanced(t, t, low),
{
    match t {
        Task::Panel(p) => {
            assert(hue_after(p.animator_spec().hue_spec(), 0) == p.animator_spec().hue_spec());
        },
        _ => {},
    }
}

proof fn lemma_advanced_step(t0: Task, t1: Task, t2: Task, low: bool, a: Action)
    requires
        advanced(t0, t1, low),
        resumed(t1, t2, low, a),
    ensures
        advanced(t0, t2, low),
        fired_of(t2) == fired_of(t1) + 1,
{
    match (t1, t2) {
        (Task::Panel(p1), Task::Panel(p2)) => {
            let h0 = match t0 {
                Task::Panel(p0) => p0.animator_spec().hue_spec(),
                _ => 0,
            };
            let n = (fired_of(t1) - fired_of(t0)) as nat;
            assert(hue_after(h0, n + 1) == next_hue(hue_after(h0, n)));
            assert((fired_of(t2) - fired_of(t0)) as nat == n + 1);
        },
        _ => {},
    }
}

/// A deadline that has not moved means the task was not resumed.
proof fn lemma_same_due(t0: Task, t: Task, low: bool)
    requires
        task_wf(t0),
        advanced(t0, t, low),
        due_of(t) == due_of(t0),
    ensures
        fired_of(t) == fired_of(t0),
{
    let p = period_of(t0);
    let f0 = fired_of(t0);
    let f1 = fired_of(t);
    assert(due_of(t0) == start_of(t0) + f0 * p);
    assert(due_of(t) == start_of(t0) + f1 * p);
    if f1 > f0 {
        assert(f1 * p >= f0 * p + p) by (nonlinear_arith)
            requires f1 >= f0 + 1, p > 0;
    }
}

impl Task {
    /// The kind of the task.
    pub fn kind(&self) -> (r: TaskKind)
        ensures
            r == kind_of(*self),
    {
        match self {
            Task::Blink(_) => TaskKind::Blink,
            Task::Panel(_) => TaskKind::Panel,
            Task::Button(_) => TaskKind::Button,
        }
    }

    /// The time at which the task is next due.
    pub fn ready_at(&self) -> (r: u64)
        ensures
            r == due_of(*self),
    {
        match self {
            Task::Blink(b) => b.ready_at(),
            Task::Panel(p) => p.ready_at(),
            Task::Button(b) => b.ready_at(),
        }
    }

    /// Milliseconds between two resumptions of the task.
    pub fn period(&self) -> (r: u64)
        ensures
            r == period_of(*self),
    {
        match self {
            Task::Blink(b) => b.period(),
            Task::Panel(p) => p.period(),
            Task::Button(b) => b.period(),
        }
    }

    /// The level of the input that a button poller samples, picked from the
    /// levels of the four buttons; false for the other tasks.
    pub fn held_input(&self, held: &Vec<bool>) -> (r: bool)
        requires
            held@.len() == 4,
        ensures
            r == held_of(*self, held@),
    {
        match self {
            Task::Button(b) => held[(b.id().number() - 1) as usize],
            _ => false,
        }
    }

    /// One step of the task.
    pub fn resume(&mut self, low: bool) -> (r: Action)
        requires
            task_wf(*old(self)),
            due_of(*old(self)) + period_of(*old(self)) <= u64::MAX,
        ensures
            resumed(*old(self), *final(self), low, r),
            task_wf(*final(self)),
    {
        match self {
            Task::Blink(b) => {
                let (x, y) = b.wake();
                Action::SetLevels(x, y)
            },
            Task::Panel(p) => {
                let (f, lap) = p.wake();
                Action::WriteFrame(f, lap)
            },
            Task::Button(b) => Action::Sampled(b.poll(low)),
        }
    }
}

/// Replacing one task by another of the same kind keeps every kind's count.
pub proof fn lemma_count_update(s: Seq<Task>, i: int, t: Task, k: TaskKind)
    requires
        0 <= i < s.len(),
        kind_of(t) == kind_of(s[i]),
    ensures
        count_kind(s.update(i, t), k) == count_kind(s, k),
    decreases s.len(),
{
    let u = s.update(i, t);
    if i < s.len() - 1 {
        assert(u.drop_last() =~= s.drop_last().update(i, t));
        lemma_count_update(s.drop_last(), i, t, k);
    } else {
        assert(u.drop_last() =~= s.drop_last());
    }
}

/// The tasks spawned so far, in spawn order.
pub struct Runtime {
    tasks: Vec<Task>,
}

impl View for Runtime {
    type V = Seq<Task>;

    closed spec fn view(&self) -> Seq<Task> {
        self.tasks@
    }
}

impl Runtime {
    /// Every task is well formed and no pool holds more than its capacity.
    pub open spec fn wf(&self) -> bool {
        &&& forall|i: int| 0 <= i < self@.len() ==> task_wf(#[trigger] self@[i])
        &&& forall|k: TaskKind| count_kind(self@, k) <= #[trigger] capacity_of(k)
    }

    /// A runtime with no task.
    pub fn new() -> (r: Runtime)
        ensures
            r.wf(),
            r@ == Seq::<Task>::empty(),
    {
        Runtime { tasks: Vec::new() }
    }

    /// What running until `end` does to each task: it has been resumed for
    /// every deadline of its own before `end`, as if it ran alone, and none is
    /// due before `end` any more.
    pub open spec fn ran_until(&self, after: Seq<Task>, end: int, held: Seq<bool>) -> bool {
        &&& after.len() == self@.len()
        &&& forall|j: int|
            0 <= j < self@.len() ==> {
                &&& advanced(self@[j], #[trigger] after[j], held_of(self@[j], held))
                &&& due_of(after[j]) >= end
                &&& fired_of(after[j]) == if due_of(self@[j]) >= end {
                    fired_of(self@[j])
                } else {
                    wakes_before(start_of(self@[j]), period_of(self@[j]), end)
                }
            }
    }

    /// How many tasks have been spawned.
    pub fn len(&self) -> (r: usize)
        ensures
            r == self@.len(),
    {
        self.tasks.len()
    }

    /// The task spawned `i`-th.
    pub fn task(&self, i: usize) -> (r: &Task)
        requires
            i < self@.len(),
        ensures
            *r == self@[i as int],
    {
        &self.tasks[i]
    }

    /// How many running tasks are of kind `k`.
    pub fn count(&self, k: TaskKind) -> (r: usize)
        ensures
            r == count_kind(self@, k),
    {
        let mut n: usize = 0;
        let mut i: usize = 0;
        while i < self.tasks.len()
            invariant
                i <= self@.len(),
                n == count_kind(self@.subrange(0, i as int), k),
                n <= i,
            decreases self@.len() - i,
        {
            proof {
                assert(self@.subrange(0, i + 1).drop_last() =~= self@.subrange(0, i as int));
            }
            if self.tasks[i].kind() == k {
                n = n + 1;
            }
            i = i + 1;
        }
        proof {
            assert(self@.subrange(0, i as int) =~= self@);
        }
        n
    }

    /// Add a task to its kind's pool. When the pool is full the spawn fails
    /// and the tasks already running are left as they were.
    pub fn spawn(&mut self, task: Task) -> (r: Result<usize, SpawnError>)
        requires
            old(self).wf(),
            task_wf(task),
        ensures
            final(self).wf(),
            r is Err <==> count_kind(old(self)@, kind_of(task)) >= capacity_of(kind_of(task)),
            r is Err ==> final(self)@ == old(self)@,
            r matches Ok(i) ==> i == old(self)@.len() && final(self)@ == old(self)@.push(task),
            forall|k: TaskKind|
                #[trigger] count_kind(final(self)@, k) == count_kind(old(self)@, k) + if r is Ok
                    && k == kind_of(task) {
                    1nat
                } else {
                    0nat
                },
    {
        let k = task.kind();
        if self.count(k) >= capacity(k) {
            return Err(SpawnError::PoolExhausted);
        }
        let ghost before = self@;
        let i = self.tasks.len();
        self.tasks.push(task);
        proof {
            assert(self@.drop_last() =~= before);
            assert forall|j: TaskKind| count_kind(self@, j) <= #[trigger] capacity_of(j) by {
                assert(count_kind(before, j) <= capacity_of(j));
            }
        }
        Ok(i)
    }

    /// The task to resume next: the one due earliest, ties going to the one
    /// spawned first. `None` when there is no task.
    pub fn next_due(&self) -> (r: Option<usize>)
        ensures
            r is None <==> self@.len() == 0,
            r matches Some(i) ==> {
                &&& i < self@.len()
                &&& forall|j: int| 0 <= j < self@.len() ==> due_of(self@[i as int]) <= due_of(
                    #[trigger] self@[j],
                )
                &&& forall|j: int| 0 <= j < i ==> due_of(#[trigger] self@[j]) > due_of(
                    self@[i as int],
                )
            },
    {
        if self.tasks.len() == 0 {
            return None;
        }
        let mut best: usize = 0;
        let mut best_at: u64 = self.tasks[0].ready_at();
        let mut i: usize = 1;
        while i < self.tasks.len()
            invariant
                1 <= i <= self@.len(),
                best < i,
                best_at == due_of(self@[best as int]),
                forall|j: int| 0 <= j < i ==> due_of(self@[best as int]) <= due_of(
                    #[trigger] self@[j],
                ),
                forall|j: int| 0 <= j < best ==> due_of(#[trigger] self@[j]) > due_of(
                    self@[best as int],
                ),
            decreases self@.len() - i,
        {
            let at = self.tasks[i].ready_at();
            if at < best_at {
                best = i;
                best_at = at;
            }
            i = i + 1;
        }
        Some(best)
    }

    /// Resume the task spawned `i`-th for one step; `low` is what its input
    /// read, if it is a button poller. The other tasks are left as they were.
    pub fn resume(&mut self, i: usize, low: bool) -> (r: Action)
        requires
            old(self).wf(),
            i < old(self)@.len(),
            due_of(old(self)@[i as int]) + period_of(old(self)@[i as int]) <= u64::MAX,
        ensures
            final(self).wf(),
            final(self)@.len() == old(self)@.len(),
            resumed(old(self)@[i as int], final(self)@[i as int], low, r),
            forall|j: int| 0 <= j < old(self)@.len() && j != i ==> final(self)@[j] == old(self)@[j],
    {
        let ghost before = self@;
        let r = self.tasks[i].resume(low);
        proof {
            assert(self@ =~= before.update(i as int, self@[i as int]));
            assert(kind_of(self@[i as int]) == kind_of(before[i as int]));
            assert forall|k: TaskKind| count_kind(self@, k) <= #[trigger] capacity_of(k) by {
                lemma_count_update(before, i as int, self@[i as int], k);
                assert(count_kind(before, k) <= capacity_of(k));
            }
        }
        r
    }
}

impl Runtime {
    /// Resume tasks, earliest deadline first, until none is due before `end`.
    /// `held` gives the level of each button's input, in label order, for
    /// the whole run. Every task ends as if it had run alone: no task is
    /// starved by the others.
    pub fn run_until(&mut self, end: u64, held: &Vec<bool>)
        requires
            old(self).wf(),
            held@.len() == 4,
            forall|j: int|
                0 <= j < old(self)@.len() ==> end + period_of(#[trigger] old(self)@[j]) <= u64::MAX,
        ensures
            final(self).wf(),
            old(self).ran_until(final(self)@, end as int, held@),
    {
        let ghost first = self@;
        proof {
            assert forall|j: int| 0 <= j < first.len() implies advanced(
                first[j],
                #[trigger] self@[j],
                held_of(first[j], held@),
            ) by {
                lemma_advanced_refl(first[j], held_of(first[j], held@));
            }
        }
        loop
            invariant
                self.wf(),
                held@.len() == 4,
                self@.len() == first.len(),
                forall|j: int|
                    0 <= j < first.len() ==> end + period_of(#[trigger] first[j]) <= u64::MAX,
                forall|j: int|
                    0 <= j < first.len() ==> {
                        &&& advanced(first[j], #[trigger] self@[j], held_of(first[j], held@))
                        &&& due_of(self@[j]) == due_of(first[j]) || (due_of(first[j]) < end
                            && due_of(self@[j]) - period_of(first[j]) < end)
                    },
            ensures
                forall|j: int| 0 <= j < first.len() ==> due_of(#[trigger] self@[j]) >= end,
            decreases pending(self@, end as int),
        {
            let i = match self.next_due() {
                None => break,
                Some(i) => i,
            };
            if self.tasks[i].ready_at() >= end {
                break;
            }
            let low = self.tasks[i].held_input(held);
            let ghost before = self@;
            assert(advanced(first[i as int], before[i as int], held_of(first[i as int], held@)));
            assert(held_of(before[i as int], held@) == held_of(first[i as int], held@));
            let a = self.resume(i, low);
            proof {
                assert(self@ =~= before.update(i as int, self@[i as int]));
                lemma_pending_update(before, i as int, self@[i as int], end as int);
                lemma_advanced_step(
                    first[i as int],
                    before[i as int],
                    self@[i as int],
                    low,
                    a,
                );
            }
        }
        proof {
            assert forall|j: int| 0 <= j < first.len() implies {
                &&& advanced(first[j], #[trigger] self@[j], held_of(first[j], held@))
                &&& due_of(self@[j]) >= end
                &&& fired_of(self@[j]) == if due_of(first[j]) >= end {
                    fired_of(first[j])
                } else {
                    wakes_before(start_of(first[j]), period_of(first[j]), end as int)
                }
            } by {
                assert(due_of(self@[j]) >= end);
                if due_of(self@[j]) == due_of(first[j]) {
                    lemma_same_due(first[j], self@[j], held_of(first[j], held@));
                }
                if due_of(first[j]) < end {
                    lemma_count_at(
                        start_of(first[j]),
                        period_of(first[j]),
                        fired_of(self@[j]),
                        end as int,
                    );
                }
            }
        }
    }
}

} // verus!
