use vstd::prelude::*;
use crate::commons::{FutureType, Progress, ResumptionHandle, Resumer, UnitOfWork};
use crate::model::{PollOutcome, SchedState, TaskState, WorkerPolicy};
use crate::preserve::{
    lemma_detach_wf, lemma_pick_wf, lemma_settle_wf, lemma_spawn_wf, lemma_wake_wf,
};
use crate::scheduler::Scheduler;

verus! {

/// The caller's handle of a spawned unit of work. It can be awaited or
/// detached, once; it cannot be copied.
#[derive(Debug)]
pub struct Task {
    id: u64,
}

impl Task {
    /// The id of the unit that the handle stands for.
    pub closed spec fn task(&self) -> u64 {
        self.id
    }

    /// The id of the unit that the handle stands for.
    pub fn id(&self) -> (id: u64)
        ensures
            id == self.task(),
    {
        self.id
    }

    /// The token by which the unit can be resumed.
    pub fn resumption_handle(&self) -> (h: ResumptionHandle)
        ensures
            h.id == self.task(),
    {
        ResumptionHandle { id: self.id }
    }
}

/// The scheduler's handle of a unit that is ready to be polled now. It owns
/// the unit: while it exists nobody else can reach the unit.
pub struct Runnable<U> {
    id: u64,
    unit: U,
}

impl<U> Runnable<U> {
    pub closed spec fn task(&self) -> u64 {
        self.id
    }

    pub closed spec fn unit(&self) -> U {
        self.unit
    }

    /// The id of the unit to poll.
    pub fn id(&self) -> (id: u64)
        ensures
            id == self.task(),
    {
        self.id
    }
}

/// What a worker hands back after one poll: the progress made, whether the
/// unit asked to be resumed, and the unit itself.
pub struct Polled<U: UnitOfWork> {
    id: u64,
    resumed: bool,
    progress: Progress<U::Output>,
    unit: U,
}

impl<U: UnitOfWork> Polled<U> {
    pub closed spec fn task(&self) -> u64 {
        self.id
    }

    pub closed spec fn resumed(&self) -> bool {
        self.resumed
    }

    pub closed spec fn progress(&self) -> Progress<U::Output> {
        self.progress
    }

    pub closed spec fn unit(&self) -> U {
        self.unit
    }

    /// How the poll ended, as the scheduler records it.
    pub open spec fn outcome(&self) -> PollOutcome {
        match self.progress() {
            Progress::Ready(_) => PollOutcome::Ready,
            Progress::Pending => PollOutcome::Pending,
        }
    }

    /// The id of the unit that was polled.
    pub fn id(&self) -> (id: u64)
        ensures
            id == self.task(),
    {
        self.id
    }

    /// How the poll ended, and whether the unit asked for its resumption.
    pub fn summary(&self) -> (s: (PollOutcome, bool))
        ensures
            s.0 == self.outcome(),
            s.1 == self.resumed(),
    {
        match self.progress {
            Progress::Ready(_) => (PollOutcome::Ready, self.resumed),
            Progress::Pending => (PollOutcome::Pending, self.resumed),
        }
    }
}

impl<U: UnitOfWork> Runnable<U> {
    /// Polls the unit once, with a fresh resumption context, and reports
    /// what the poll did: the report holds the unit as the poll left it, the
    /// progress that the poll returned, and whether the unit asked for its
    /// resumption, all three as the unit's own `polled` relates them.
    ///
    /// A bounded unit is ready with its outcome if no pending poll was left,
    /// else it is pending with one pending poll less; a resuming unit that is
    /// pending has asked for its resumption.
    pub fn run(self) -> (polled: Polled<U>)
        requires
            self.unit().pollable(),
        ensures
            polled.task() == self.task(),
            self.unit().polled(polled.unit(), polled.resumed(), polled.progress()),
            polled.progress() is Pending ==> polled.unit().pollable(),
            self.unit().bounded() ==> match polled.progress() {
                Progress::Ready(v) => self.unit().pendings_left() == 0 && v
                    == self.unit().outcome(),
                Progress::Pending => {
                    &&& self.unit().pendings_left() > 0
                    &&& polled.unit().bounded()
                    &&& polled.unit().pendings_left() == self.unit().pendings_left() - 1
                    &&& polled.unit().outcome() == self.unit().outcome()
                },
            },
            self.unit().resuming() && polled.progress() is Pending ==> polled.resumed()
                && polled.unit().resuming(),
    {
        let Runnable { id, unit } = self;
        let mut unit = unit;
        let mut cx = Resumer::new(id);
        let progress = unit.poll(&mut cx);
        Polled { id, resumed: cx.woken(), progress, unit }
    }
}

/// Why a task handle yields no value.
#[derive(Debug, Clone, Copy, PartialEq, Eq, Structural)]
pub enum TaskError {
    /// A poll of the unit panicked.
    Panicked,
    /// The unit is suspended and nothing is queued that would resume it.
    Stalled,
    /// The executor has no such unit, or its result was given up.
    Lost,
}

/// The executor as a mathematical value: the scheduler's state, the unit of
/// every task that is not being polled, and the results not yet fetched.
pub struct ExecState<U: UnitOfWork> {
    pub sched: SchedState,
    pub units: Seq<Option<U>>,
    pub results: Seq<Option<U::Output>>,
}

impl<U: UnitOfWork> ExecState<U> {
    pub open spec fn empty() -> ExecState<U> {
        ExecState { sched: SchedState::empty(), units: Seq::empty(), results: Seq::empty() }
    }

    /// Whether the executor holds the unit of a task in this state.
    pub open spec fn parked(state: TaskState) -> bool {
        state == TaskState::Queued || state == TaskState::Dormant
    }

    pub open spec fn slot_ok(self, i: int) -> bool {
        let t = self.sched.tasks[i];
        &&& t.state != TaskState::Created
        &&& self.units[i] is Some <==> Self::parked(t.state)
        &&& self.units[i] matches Some(unit) ==> unit.pollable()
        &&& self.results[i] is Some ==> t.state == TaskState::Completed && !t.detached
    }

    /// The invariant of the executor: the scheduler's invariant, and the unit
    /// of a task is held, fit to be polled, exactly while the task is queued
    /// or dormant; a result is held only for a completed task that is not
    /// detached.
    pub open spec fn wf(self) -> bool {
        &&& self.sched.wf()
        &&& self.units.len() == self.sched.tasks.len()
        &&& self.results.len() == self.sched.tasks.len()
        &&& forall|i: int| 0 <= i < self.sched.tasks.len() ==> #[trigger] self.slot_ok(i)
    }

    /// A unit is spawned with priority `p`.
    pub open spec fn spawn(self, unit: U, p: FutureType) -> ExecState<U> {
        ExecState {
            sched: self.sched.spawn(p),
            units: self.units.push(Some(unit)),
            results: self.results.push(None),
        }
    }

    /// A worker of policy `w` takes its next runnable, and the unit with it.
    pub open spec fn pick(self, w: WorkerPolicy) -> ExecState<U> {
        match self.sched.picked(w) {
            Some(id) => ExecState {
                sched: self.sched.pick(w),
                units: self.units.update(id as int, None),
                ..self
            },
            None => self,
        }
    }

    /// The scheduler after the poll of the running unit `id` has ended with
    /// `outcome`, the unit having asked for its resumption if `resumed`.
    pub open spec fn sched_after(self, id: u64, resumed: bool, outcome: PollOutcome) -> SchedState {
        if resumed {
            self.sched.wake(id).settle(id, outcome)
        } else {
            self.sched.settle(id, outcome)
        }
    }

    /// A worker hands back what a poll gave. A report for a task that is not
    /// running is dropped.
    pub open spec fn settle(self, polled: Polled<U>) -> ExecState<U> {
        let id = polled.task();
        if !self.sched.state_is(id, TaskState::Running) {
            self
        } else {
            match polled.progress() {
                Progress::Ready(v) => ExecState {
                    sched: self.sched_after(id, polled.resumed(), PollOutcome::Ready),
                    units: self.units,
                    results: if self.sched.tasks[id as int].detached {
                        self.results
                    } else {
                        self.results.update(id as int, Some(v))
                    },
                },
                Progress::Pending => ExecState {
                    sched: self.sched_after(id, polled.resumed(), PollOutcome::Pending),
                    units: self.units.update(id as int, Some(polled.unit())),
                    results: self.results,
                },
            }
        }
    }

    /// A worker reports that the poll of task `id` panicked.
    pub open spec fn abandon(self, id: u64) -> ExecState<U> {
        ExecState { sched: self.sched.settle(id, PollOutcome::Panicked), ..self }
    }

    /// The resumption handle of task `id` is invoked.
    pub open spec fn wake(self, id: u64) -> ExecState<U> {
        ExecState { sched: self.sched.wake(id), ..self }
    }

    /// The caller gives up the result of task `id`.
    pub open spec fn detach(self, id: u64) -> ExecState<U> {
        if !self.sched.knows(id) {
            self
        } else {
            ExecState {
                sched: self.sched.detach(id),
                units: self.units,
                results: self.results.update(id as int, None),
            }
        }
    }
}

/// A scheduler together with the units of work that it schedules.
///
/// The executor does not run by itself: workers call `next_runnable`, poll
/// what they get with `Runnable::run`, and hand the report to `settle`; `step`
/// does the three at once.
pub struct Executor<U: UnitOfWork> {
    sched: Scheduler,
    units: Vec<Option<U>>,
    results: Vec<Option<U::Output>>,
}

/// Spawning keeps the executor well formed.
pub proof fn lemma_exec_spawn_wf<U: UnitOfWork>(s: ExecState<U>, unit: U, p: FutureType)
    requires
        s.wf(),
        unit.pollable(),
        s.sched.tasks.len() < u64::MAX,
    ensures
        s.spawn(unit, p).wf(),
        s.spawn(unit, p).sched.queued_on(s.sched.tasks.len() as u64, p),
{
    lemma_spawn_wf(s.sched, p);
    let r = s.spawn(unit, p);
    assert forall|i: int| 0 <= i < r.sched.tasks.len() implies #[trigger] r.slot_ok(i) by {
        if i < s.sched.tasks.len() {
            assert(s.slot_ok(i));
        }
    }
}

/// Taking a runnable keeps the executor well formed.
pub proof fn lemma_exec_pick_wf<U: UnitOfWork>(s: ExecState<U>, w: WorkerPolicy)
    requires
        s.wf(),
    ensures
        s.pick(w).wf(),
        s.sched.picked(w) matches Some(id) ==> s.sched.knows(id) && s.units[id as int] is Some
            && s.units[id as int]->0.pollable(),
{
    lemma_pick_wf(s.sched, w);
    let r = s.pick(w);
    match s.sched.picked(w) {
        Some(id) => {
            assert(s.slot_ok(id as int));
            assert forall|i: int| 0 <= i < r.sched.tasks.len() implies #[trigger] r.slot_ok(
                i,
            ) by {
                assert(s.slot_ok(i));
            }
        },
        None => {},
    }
}

/// Handing back a poll report keeps the executor well formed.
pub proof fn lemma_exec_settle_wf<U: UnitOfWork>(s: ExecState<U>, polled: Polled<U>)
    requires
        s.wf(),
        polled.progress() is Pending ==> polled.unit().pollable(),
    ensures
        s.settle(polled).wf(),
{
    let id = polled.task();
    let r = s.settle(polled);
    if s.sched.state_is(id, TaskState::Running) {
        lemma_wake_wf(s.sched, id);
        lemma_settle_wf(s.sched, id, polled.outcome());
        lemma_settle_wf(s.sched.wake(id), id, polled.outcome());
        assert forall|i: int| 0 <= i < r.sched.tasks.len() implies #[trigger] r.slot_ok(i) by {
            assert(s.slot_ok(i));
        }
    }
}

/// Reporting a panicked poll keeps the executor well formed.
pub proof fn lemma_exec_abandon_wf<U: UnitOfWork>(s: ExecState<U>, id: u64)
    requires
        s.wf(),
    ensures
        s.abandon(id).wf(),
{
    lemma_settle_wf(s.sched, id, PollOutcome::Panicked);
    let r = s.abandon(id);
    assert forall|i: int| 0 <= i < r.sched.tasks.len() implies #[trigger] r.slot_ok(i) by {
        assert(s.slot_ok(i));
    }
}

/// A resumption keeps the executor well formed.
pub proof fn lemma_exec_wake_wf<U: UnitOfWork>(s: ExecState<U>, id: u64)
    requires
        s.wf(),
    ensures
        s.wake(id).wf(),
{
    lemma_wake_wf(s.sched, id);
    let r = s.wake(id);
    assert forall|i: int| 0 <= i < r.sched.tasks.len() implies #[trigger] r.slot_ok(i) by {
        assert(s.slot_ok(i));
    }
}

/// Detaching keeps the executor well formed.
pub proof fn lemma_exec_detach_wf<U: UnitOfWork>(s: ExecState<U>, id: u64)
    requires
        s.wf(),
    ensures
        s.detach(id).wf(),
{
    lemma_detach_wf(s.sched, id);
    let r = s.detach(id);
    assert forall|i: int| 0 <= i < r.sched.tasks.len() implies #[trigger] r.slot_ok(i) by {
        assert(s.slot_ok(i));
    }
}

/// What one turn of a worker did.
#[derive(Debug, Clone, Copy, PartialEq, Eq, Structural)]
pub enum Step {
    /// Every lane that the worker serves was empty: it is to back off.
    Idle,
    /// The worker polled unit `id`; the poll ended with `outcome`, and the
    /// unit asked for its own resumption if `resumed`.
    Polled { id: u64, outcome: PollOutcome, resumed: bool },
}

impl<U: UnitOfWork> Executor<U> {
    pub closed spec fn view(&self) -> ExecState<U> {
        ExecState { sched: self.sched@, units: self.units@, results: self.results@ }
    }

    pub closed spec fn lanes_open(&self) -> bool {
        self.sched.lanes_open()
    }

    /// The lanes are usable and the state satisfies the executor's invariant.
    pub open spec fn wf(&self) -> bool {
        self.lanes_open() && self@.wf()
    }

    /// An executor without any unit.
    pub fn new() -> (e: Executor<U>)
        ensures
            e.wf(),
            e@ == ExecState::<U>::empty(),
    {
        Executor { sched: Scheduler::new(), units: Vec::new(), results: Vec::new() }
    }

    /// The scheduler's record of unit `id`, if there is such a unit.
    pub fn record(&self, id: u64) -> (r: Option<crate::model::TaskRecord>)
        ensures
            r == if self@.sched.knows(id) {
                Some(self@.sched.tasks[id as int])
            } else {
                None
            },
    {
        self.sched.record(id)
    }

    /// The number of runnables that wait in the lane of priority `p`.
    pub fn queued(&self, p: FutureType) -> (n: usize)
        ensures
            n == self@.sched.lane(p).len(),
    {
        self.sched.queued(p)
    }

    /// Takes `unit` over and queues its first runnable at the back of the
    /// lane of priority `p`. Nothing is polled; the handle of the new task is
    /// returned at once.
    pub fn spawn(&mut self, unit: U, p: FutureType) -> (task: Task)
        requires
            old(self).wf(),
            unit.pollable(),
        ensures
            final(self).wf(),
            task.task() == old(self)@.sched.tasks.len(),
            final(self)@ == old(self)@.spawn(unit, p),
    {
        let id = self.sched.spawn(p);
        self.units.push(Some(unit));
        self.results.push(None);
        proof {
            assert(self.units.len() <= usize::MAX);
            lemma_exec_spawn_wf(old(self)@, unit, p);
        }
        Task { id }
    }

    /// One scheduling decision of a worker with policy `worker`: the oldest
    /// runnable of its primary lane or, if that lane is empty and the policy
    /// has a fallback, of the other lane. The runnable carries the unit, which
    /// the executor gives up until the poll is settled.
    pub fn next_runnable(&mut self, worker: WorkerPolicy) -> (got: Option<Runnable<U>>)
        requires
            old(self).wf(),
        ensures
            final(self).wf(),
            final(self)@ == old(self)@.pick(worker),
            match old(self)@.sched.picked(worker) {
                Some(id) => got matches Some(r) && r.task() == id && r.unit().pollable() && Some(
                    r.unit(),
                ) == old(self)@.units[id as int],
                None => got is None,
            },
    {
        proof {
            lemma_exec_pick_wf(self@, worker);
        }
        match self.sched.next_runnable(worker) {
            Some(id) => {
                assert(id < self.units.len());
                let mut slot: Option<U> = None;
                core::mem::swap(&mut self.units[id as usize], &mut slot);
                match slot {
                    Some(unit) => Some(Runnable { id, unit }),
                    None => None,
                }
            },
            None => None,
        }
    }

    /// Takes back the report of one poll.
    ///
    /// A resumption that the unit asked for is recorded first. Then `Ready`
    /// completes the task and stores its value, unless the task is detached;
    /// `Pending` returns the unit to the executor, queued again at the back of
    /// its lane if a resumption arrived during the poll and dormant otherwise.
    /// A report for a task that is not running is dropped.
    pub fn settle(&mut self, polled: Polled<U>)
        requires
            old(self).wf(),
            polled.progress() is Pending ==> polled.unit().pollable(),
        ensures
            final(self).wf(),
            final(self)@ == old(self)@.settle(polled),
    {
        proof {
            lemma_exec_settle_wf(self@, polled);
        }
        let Polled { id, resumed, progress, unit } = polled;
        match self.sched.record(id) {
            Some(t) => {
                if t.state == TaskState::Running {
                    if resumed {
                        self.sched.wake(id);
                    }
                    assert(id < self.units.len());
                    match progress {
                        Progress::Ready(v) => {
                            self.sched.settle(id, PollOutcome::Ready);
                            if !t.detached {
                                self.results.set(id as usize, Some(v));
                            }
                        },
                        Progress::Pending => {
                            self.sched.settle(id, PollOutcome::Pending);
                            self.units.set(id as usize, Some(unit));
                        },
                    }
                }
            },
            None => {},
        }
    }

    /// Records that the poll of the running unit `id` panicked: the task has
    /// failed for good, and nothing else changes. For a task that is not
    /// running nothing happens.
    pub fn abandon(&mut self, id: u64)
        requires
            old(self).wf(),
        ensures
            final(self).wf(),
            final(self)@ == old(self)@.abandon(id),
    {
        proof {
            lemma_exec_abandon_wf(self@, id);
        }
        self.sched.settle(id, PollOutcome::Panicked);
    }

    /// Invokes a resumption handle; see `Scheduler::wake`.
    pub fn wake(&mut self, handle: ResumptionHandle)
        requires
            old(self).wf(),
        ensures
            final(self).wf(),
            final(self)@ == old(self)@.wake(handle.id),
    {
        proof {
            lemma_exec_wake_wf(self@, handle.id);
        }
        self.sched.wake(handle.id);
    }

    /// Gives up the result of `task`. The unit keeps its place in the
    /// schedule and runs to completion; its value is dropped.
    pub fn detach(&mut self, task: Task)
        requires
            old(self).wf(),
        ensures
            final(self).wf(),
            final(self)@ == old(self)@.detach(task.task()),
    {
        proof {
            lemma_exec_detach_wf(self@, task.id);
        }
        let id = task.id;
        if id < self.results.len() as u64 {
            self.sched.detach(id);
            self.results.set(id as usize, None);
        }
    }

    /// Takes the stored result of task `id` out of the executor, if one is held.
    pub(crate) fn fetch(&mut self, id: u64) -> (got: Option<U::Output>)
        requires
            old(self).wf(),
            old(self)@.sched.knows(id),
        ensures
            final(self).wf(),
            got == old(self)@.results[id as int],
            final(self)@ == (ExecState {
                results: old(self)@.results.update(id as int, None),
                ..old(self)@
            }),
    {
        assert(id < self.results.len());
        let mut slot: Option<U::Output> = None;
        core::mem::swap(&mut self.results[id as usize], &mut slot);
        proof {
            assert forall|i: int| 0 <= i < self@.sched.tasks.len() implies #[trigger] self@.slot_ok(
                i,
            ) by {
                assert(old(self)@.slot_ok(i));
            }
        }
        slot
    }
}

} // verus!
