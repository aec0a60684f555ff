use vstd::prelude::*;
use crate::commons::{FutureType, Progress, UnitOfWork};
use crate::executor::{ExecState, Executor, Step, Task, TaskError};
use crate::model::{
    lemma_drop_first, lemma_push_contains, other_lane, PollOutcome, SchedState, TaskState,
    WorkerPolicy,
};
use crate::preserve::{lemma_pick_wf, lemma_queued_present, lemma_settle_wf, lemma_wake_wf};

verus! {

/// Where `x` stands in the lane `s`: the number of runnables ahead of it.
pub open spec fn position(s: Seq<u64>, x: u64) -> int {
    choose|i: int| 0 <= i < s.len() && s[i] == x
}

/// In a lane without duplicates the position of a member is the one index
/// at which it stands.
pub proof fn lemma_position(s: Seq<u64>, x: u64)
    requires
        s.no_duplicates(),
        s.contains(x),
    ensures
        0 <= position(s, x) < s.len(),
        s[position(s, x)] == x,
        forall|i: int| 0 <= i < s.len() && s[i] == x ==> i == position(s, x),
{
}

/// Taking the front runnable away moves every other runnable one place ahead.
pub proof fn lemma_position_drop_first(s: Seq<u64>, x: u64)
    requires
        s.no_duplicates(),
        s.contains(x),
        s[0] != x,
    ensures
        s.drop_first().contains(x),
        position(s.drop_first(), x) == position(s, x) - 1,
{
    lemma_position(s, x);
    lemma_drop_first(s);
    let d = s.drop_first();
    lemma_position(d, x);
    assert(s[position(d, x) + 1] == x);
}

/// A runnable queued at the back leaves the positions of the others alone.
pub proof fn lemma_position_push(s: Seq<u64>, y: u64, x: u64)
    requires
        s.push(y).no_duplicates(),
        s.contains(x),
    ensures
        s.push(y).contains(x),
        position(s.push(y), x) == position(s, x),
{
    lemma_push_contains(s, y);
    assert(s.no_duplicates()) by {
        assert forall|i: int, j: int| 0 <= i < s.len() && 0 <= j < s.len() && i != j implies s[i]
            != s[j] by {
            assert(s.push(y)[i] == s[i]);
            assert(s.push(y)[j] == s[j]);
        }
    }
    lemma_position(s, x);
    lemma_position(s.push(y), x);
    assert(s.push(y)[position(s, x)] == x);
}

impl<U: UnitOfWork> ExecState<U> {
    /// What `await_result` yields for task `id`.
    pub open spec fn awaited(self, id: u64) -> Result<U::Output, TaskError> {
        if !self.sched.knows(id) {
            Err(TaskError::Lost)
        } else {
            let t = self.sched.tasks[id as int];
            if t.detached {
                Err(TaskError::Lost)
            } else {
                match t.state {
                    TaskState::Completed => match self.results[id as int] {
                        Some(v) => Ok(v),
                        None => Err(TaskError::Lost),
                    },
                    TaskState::Panicked => Err(TaskError::Panicked),
                    TaskState::Queued => Ok(self.units[id as int]->0.outcome()),
                    _ => Err(TaskError::Stalled),
                }
            }
        }
    }

    /// Whether `after` is the executor that a worker of policy `w` leaves
    /// behind when it takes the runnable of unit `id` from `self`, polls the
    /// unit once and settles the poll, which ended with `outcome`, the unit
    /// having asked for its resumption if `resumed`.
    ///
    /// Only unit `id` is touched, and what happens to it is what the unit's
    /// own `polled` allows. On `Ready` the unit is gone and the value that
    /// the poll gave is stored, unless the task is detached; on `Pending`
    /// the unit is held again as the poll left it. A bounded unit has become
    /// ready with its outcome, or has one pending poll less; a resuming unit
    /// that is pending has asked for its resumption.
    pub open spec fn stepped(
        self,
        after: ExecState<U>,
        w: WorkerPolicy,
        id: u64,
        outcome: PollOutcome,
        resumed: bool,
    ) -> bool {
        let unit = self.units[id as int]->0;
        &&& outcome != PollOutcome::Panicked
        &&& after.sched == self.pick(w).sched_after(id, resumed, outcome)
        &&& after.units == self.units.update(id as int, after.units[id as int])
        &&& after.results == self.results.update(id as int, after.results[id as int])
        &&& match outcome {
            PollOutcome::Ready => {
                &&& after.units[id as int] is None
                &&& after.results[id as int] is Some <==> !self.sched.tasks[id as int].detached
                &&& exists|gone: U, v: U::Output| #[trigger]
                    unit.polled(gone, resumed, Progress::Ready(v)) && (after.results[id as int]
                        matches Some(stored) ==> stored == v)
            },
            _ => {
                &&& after.units[id as int] is Some
                &&& after.results[id as int] == self.results[id as int]
                &&& unit.polled(after.units[id as int]->0, resumed, Progress::Pending)
            },
        }
        &&& unit.bounded() ==> match outcome {
            PollOutcome::Ready => {
                &&& unit.pendings_left() == 0
                &&& !self.sched.tasks[id as int].detached ==> after.results[id as int] == Some(
                    unit.outcome(),
                )
            },
            _ => {
                &&& unit.pendings_left() > 0
                &&& after.units[id as int]->0.bounded()
                &&& after.units[id as int]->0.pendings_left() == unit.pendings_left() - 1
                &&& after.units[id as int]->0.outcome() == unit.outcome()
            },
        }
        &&& unit.resuming() && outcome == PollOutcome::Pending ==> resumed
            && after.units[id as int]->0.resuming()
    }

    /// Whether `after` can arise from `self` by serving lane `p` alone: no
    /// unit has come or gone, nothing has changed its priority or been
    /// detached, and the other lane and every unit of the other priority are
    /// as they were.
    pub open spec fn served(self, after: ExecState<U>, p: FutureType) -> bool {
        &&& after.sched.tasks.len() == self.sched.tasks.len()
        &&& after.sched.lane(other_lane(p)) == self.sched.lane(other_lane(p))
        &&& forall|j: int|
            0 <= j < self.sched.tasks.len() ==> {
                &&& (#[trigger] after.sched.tasks[j]).priority == self.sched.tasks[j].priority
                &&& after.sched.tasks[j].detached == self.sched.tasks[j].detached
                &&& self.sched.tasks[j].priority != p ==> {
                    &&& after.sched.tasks[j] == self.sched.tasks[j]
                    &&& after.units[j] == self.units[j]
                    &&& after.results[j] == self.results[j]
                }
            }
    }

    /// Whether task `id` waits in a lane for a caller that wants its result.
    pub open spec fn waits(self, id: u64) -> bool {
        self.sched.state_is(id, TaskState::Queued) && !self.sched.tasks[id as int].detached
    }

    /// Whether, from `self` to `after`, task `id` has run into a suspension
    /// that only a resumption from outside can end: it is dormant, and its
    /// unit is held, still bounded and with the same outcome to come, and
    /// with fewer pending polls left than it had.
    pub open spec fn stalled(self, after: ExecState<U>, id: u64) -> bool {
        &&& after.sched.state_is(id, TaskState::Dormant)
        &&& after.units[id as int] is Some
        &&& after.units[id as int]->0.bounded()
        &&& after.units[id as int]->0.outcome() == self.units[id as int]->0.outcome()
        &&& after.units[id as int]->0.pendings_left() < self.units[id as int]->0.pendings_left()
    }

    /// Whether awaiting task `id` is certain to end: it is unless the task
    /// is queued with a unit that is not bounded.
    pub open spec fn joinable(self, id: u64) -> bool {
        self.sched.state_is(id, TaskState::Queued) && !self.sched.tasks[id as int].detached
            ==> self.units[id as int]->0.bounded()
    }

    /// Whether what awaiting task `id` yields is settled already: it is
    /// unless the task is queued with a unit that might not become ready by
    /// itself, be it that it is not bounded or that it does not promise to
    /// resume itself.
    pub open spec fn certain(self, id: u64) -> bool {
        self.sched.state_is(id, TaskState::Queued) && !self.sched.tasks[id as int].detached
            ==> self.units[id as int]->0.bounded() && self.units[id as int]->0.resuming()
    }
}

/// What a handle is to yield does not change while other work is done. A
/// turn of any worker, whichever unit it polls and however that poll ends,
/// leaves settled what was settled: the handle of such a task yields
/// afterwards what it would have yielded before.
pub proof fn lemma_step_keeps_awaited<U: UnitOfWork>(
    before: ExecState<U>,
    after: ExecState<U>,
    w: WorkerPolicy,
    outcome: PollOutcome,
    resumed: bool,
    j: u64,
)
    requires
        before.wf(),
        before.sched.picked(w) matches Some(id) && before.stepped(after, w, id, outcome, resumed),
        before.certain(j),
    ensures
        after.certain(j),
        after.awaited(j) == before.awaited(j),
{
    let id = before.sched.picked(w)->0;
    lemma_pick_wf(before.sched, w);
    let a = before.sched.pick(w);
    assert(before.slot_ok(id as int));
    assert(a.state_is(id, TaskState::Running));
    if before.sched.knows(j) {
        assert(before.slot_ok(j as int));
        if j != id {
            assert(after.sched.tasks[j as int] == before.sched.tasks[j as int]);
            assert(after.units[j as int] == before.units[j as int]);
            assert(after.results[j as int] == before.results[j as int]);
        } else {
            assert(before.sched.tasks[id as int].state == TaskState::Queued);
        }
    }
}

/// A turn of a worker that serves lane `p` alone leaves the other lane and
/// the units of the other priority as they were.
pub proof fn lemma_step_serves<U: UnitOfWork>(
    before: ExecState<U>,
    after: ExecState<U>,
    p: FutureType,
    outcome: PollOutcome,
    resumed: bool,
)
    requires
        before.wf(),
        before.sched.picked(WorkerPolicy { primary: p, fallback: false }) matches Some(id)
            && before.stepped(
            after,
            WorkerPolicy { primary: p, fallback: false },
            id,
            outcome,
            resumed,
        ),
    ensures
        before.served(after, p),
{
    let w = WorkerPolicy { primary: p, fallback: false };
    let id = before.sched.picked(w)->0;
    lemma_pick_wf(before.sched, w);
    assert(before.sched.source(w) == Some(p));
    assert(before.sched.queued_on(id, p));
    let a = before.sched.pick(w);
    assert(a.state_is(id, TaskState::Running));
    assert forall|j: int| 0 <= j < before.sched.tasks.len() implies {
        &&& (#[trigger] after.sched.tasks[j]).priority == before.sched.tasks[j].priority
        &&& after.sched.tasks[j].detached == before.sched.tasks[j].detached
        &&& before.sched.tasks[j].priority != p ==> {
            &&& after.sched.tasks[j] == before.sched.tasks[j]
            &&& after.units[j] == before.units[j]
            &&& after.results[j] == before.results[j]
        }
    } by {
        if j != id as int {
            assert(after.sched.tasks[j] == before.sched.tasks[j]);
        }
    }
}

impl<U: UnitOfWork> Executor<U> {
    /// One turn of a worker with policy `worker`: it takes its next runnable,
    /// polls the unit once and settles the poll. With nothing to take, the
    /// turn is idle and changes nothing.
    ///
    /// Only the unit polled is touched: every other unit and result stays as
    /// it was. What the poll did is what the unit's own `polled` allows; a
    /// unit that is pending is queued again at the back of its lane if it
    /// asked for its resumption, and dormant if it did not.
    pub fn step(&mut self, worker: WorkerPolicy) -> (step: Step)
        requires
            old(self).wf(),
        ensures
            final(self).wf(),
            match old(self)@.sched.picked(worker) {
                None => step == Step::Idle && final(self)@ == old(self)@,
                Some(id) => {
                    &&& step matches Step::Polled { id: polled, outcome, resumed }
                    &&& polled == id
                    &&& old(self)@.stepped(final(self)@, worker, id, outcome, resumed)
                },
            },
            forall|j: u64| #[trigger]
                old(self)@.certain(j) ==> final(self)@.certain(j) && final(self)@.awaited(j)
                    == old(self)@.awaited(j),
    {
        proof {
            lemma_pick_wf(self@.sched, worker);
        }
        match self.next_runnable(worker) {
            None => Step::Idle,
            Some(runnable) => {
                let id = runnable.id();
                let polled = runnable.run();
                let (outcome, resumed) = polled.summary();
                let ghost left = polled.unit();
                let ghost gave = polled.progress();
                let ghost mid = self@;
                assert(mid.sched.state_is(id, TaskState::Running));
                self.settle(polled);
                proof {
                    assert(old(self)@.slot_ok(id as int));
                    assert(self@.slot_ok(id as int));
                    let unit = old(self)@.units[id as int]->0;
                    assert(unit.polled(left, resumed, gave));
                    if let Progress::Ready(v) = gave {
                        assert(unit.polled(left, resumed, Progress::Ready(v)));
                    }
                    assert(self@.units =~= old(self)@.units.update(
                        id as int,
                        self@.units[id as int],
                    ));
                    assert(self@.results =~= old(self)@.results.update(
                        id as int,
                        self@.results[id as int],
                    ));
                    assert forall|j: u64| #[trigger]
                        old(self)@.certain(j) implies self@.certain(j) && self@.awaited(j)
                        == old(self)@.awaited(j) by {
                        lemma_step_keeps_awaited(old(self)@, self@, worker, outcome, resumed, j);
                    }
                }
                Step::Polled { id, outcome, resumed }
            },
        }
    }
}

/// The scheduler after one turn of a worker of policy `w` whose poll of the
/// unit taken ended with `outcome`, the unit having asked for its resumption
/// if `resumed`.
pub open spec fn after_turn(
    s: SchedState,
    w: WorkerPolicy,
    resumed: bool,
    outcome: PollOutcome,
) -> SchedState {
    match s.picked(w) {
        Some(x) => if resumed {
            s.pick(w).wake(x).settle(x, outcome)
        } else {
            s.pick(w).settle(x, outcome)
        },
        None => s,
    }
}

/// No starvation within a lane. Let unit `id` be queued with priority `p`,
/// and let a worker that serves lane `p` first take one turn. If the turn
/// polls another unit, `id` stays queued and moves one place ahead, whatever
/// that other unit does. If the turn polls `id` itself, `id` completes on
/// `Ready`; on `Pending` it is queued again if it asked for its resumption,
/// and dormant if it did not.
pub proof fn lemma_turn_progress(
    s: SchedState,
    w: WorkerPolicy,
    id: u64,
    resumed: bool,
    outcome: PollOutcome,
)
    requires
        s.wf(),
        s.state_is(id, TaskState::Queued),
        w.primary == s.tasks[id as int].priority,
    ensures
        s.picked(w) == Some(s.lane(w.primary)[0]),
        s.queued_on(s.lane(w.primary)[0], w.primary),
        after_turn(s, w, resumed, outcome).wf(),
        after_turn(s, w, resumed, outcome).knows(id),
        s.lane(w.primary)[0] != id ==> {
            let r = after_turn(s, w, resumed, outcome);
            &&& r.tasks[id as int] == s.tasks[id as int]
            &&& r.lane(w.primary).contains(id)
            &&& position(r.lane(w.primary), id) == position(s.lane(w.primary), id) - 1
            &&& 0 <= position(r.lane(w.primary), id)
        },
        s.lane(w.primary)[0] == id ==> {
            let r = after_turn(s, w, resumed, outcome);
            &&& r.tasks[id as int].priority == s.tasks[id as int].priority
            &&& r.tasks[id as int].detached == s.tasks[id as int].detached
            &&& outcome == PollOutcome::Ready ==> r.tasks[id as int].state == TaskState::Completed
            &&& outcome == PollOutcome::Pending && resumed ==> r.tasks[id as int].state
                == TaskState::Queued
            &&& outcome == PollOutcome::Pending && !resumed ==> r.tasks[id as int].state
                == TaskState::Dormant
        },
{
    let p = w.primary;
    lemma_queued_present(s, id);
    lemma_position(s.lane(p), id);
    let x = s.lane(p)[0];
    assert(s.source(w) == Some(p));
    lemma_pick_wf(s, w);
    let a = s.pick(w);
    lemma_wake_wf(a, x);
    lemma_settle_wf(a, x, outcome);
    lemma_settle_wf(a.wake(x), x, outcome);
    let r = after_turn(s, w, resumed, outcome);
    assert(s.queued_on(x, p));
    assert(a.state_is(x, TaskState::Running));
    if x != id {
        lemma_position_drop_first(s.lane(p), id);
        assert(a.lane(p) == s.lane(p).drop_first());
        assert(r.tasks[id as int] == s.tasks[id as int]);
        if r.lane(p) != a.lane(p) {
            assert(r.lane(p) == a.lane(p).push(x));
            lemma_position_push(a.lane(p), x, id);
        }
        lemma_position(r.lane(p), id);
    }
}

impl<U: UnitOfWork> Executor<U> {
    /// Waits for the result of `task` by working for it: the caller serves
    /// the lane of the task's priority, in turn, until the task is complete
    /// or has gone dormant.
    ///
    /// The handle yields the value of the unit's first `Ready`. Every turn
    /// either polls the awaited unit, which uses up one of its pending polls,
    /// or polls a unit that was queued before it, which moves it one place
    /// ahead; so the wait ends however many other units share the lane, and
    /// whatever they do. It ends with the value if the unit resumes itself
    /// whenever it is pending. A unit that returns `Pending` without asking
    /// for its resumption is left dormant and reported as `Stalled`: once its
    /// handle has been invoked from outside it can be awaited again, and
    /// since every such round uses up a pending poll, the value comes after
    /// finitely many of them.
    ///
    /// A task that is not queued is answered at once: with its value if it
    /// has completed, `Panicked` if a poll of it panicked, `Stalled` if it is
    /// suspended or in the hands of a worker, `Lost` if there is no such task
    /// or its result was given up or fetched before.
    pub fn await_result(&mut self, task: &Task) -> (r: Result<U::Output, TaskError>)
        requires
            old(self).wf(),
            old(self)@.joinable(task.task()),
        ensures
            final(self).wf(),
            old(self)@.certain(task.task()) ==> r == old(self)@.awaited(task.task()),
            old(self)@.waits(task.task()) ==> match r {
                Ok(v) => v == old(self)@.units[task.task() as int]->0.outcome(),
                Err(e) => e == TaskError::Stalled && old(self)@.stalled(final(self)@, task.task()),
            },
            r is Ok ==> final(self)@.sched.state_is(task.task(), TaskState::Completed),
            r is Ok ==> final(self)@.results[task.task() as int] is None,
            r is Err && !old(self)@.waits(task.task()) ==> final(self)@ == old(self)@,
            r is Ok && !old(self)@.waits(task.task()) ==> final(self)@ == old(self)@.fetched(
                task.task(),
            ),
            old(self)@.sched.knows(task.task()) ==> old(self)@.served(
                final(self)@,
                old(self)@.sched.tasks[task.task() as int].priority,
            ),
            forall|j: u64|
                j != task.task() && #[trigger] old(self)@.certain(j) ==> final(self)@.certain(j)
                    && final(self)@.awaited(j) == old(self)@.awaited(j),
    {
        let id = task.id();
        let t = match self.record(id) {
            Some(t) => t,
            None => {
                return Err(TaskError::Lost);
            },
        };
        if t.detached {
            return Err(TaskError::Lost);
        }
        match t.state {
            TaskState::Completed => {
                assert(old(self)@.slot_ok(id as int));
                let got = self.fetch(id);
                match got {
                    Some(v) => Ok(v),
                    None => {
                        assert(self@.results =~= old(self)@.results);
                        Err(TaskError::Lost)
                    },
                }
            },
            TaskState::Panicked => Err(TaskError::Panicked),
            TaskState::Queued => {
                let worker = WorkerPolicy::only(t.priority);
                let ghost first = self@.units[id as int]->0;
                let mut done = false;
                let mut dormant = false;
                assert(old(self)@.slot_ok(id as int));
                proof {
                    lemma_queued_present(self@.sched, id);
                    lemma_position(self@.sched.lane(t.priority), id);
                }
                while !done && !dormant
                    invariant
                        self.wf(),
                        self@.sched.knows(id),
                        old(self)@.sched.knows(id),
                        first == old(self)@.units[id as int]->0,
                        first.bounded(),
                        worker == (WorkerPolicy { primary: t.priority, fallback: false }),
                        self@.sched.tasks[id as int].priority == t.priority,
                        !self@.sched.tasks[id as int].detached,
                        !(done && dormant),
                        !done && !dormant ==> {
                            &&& self@.sched.tasks[id as int].state == TaskState::Queued
                            &&& self@.units[id as int] is Some
                            &&& self@.units[id as int]->0.bounded()
                            &&& self@.units[id as int]->0.outcome() == first.outcome()
                            &&& self@.units[id as int]->0.pendings_left() <= first.pendings_left()
                            &&& first.resuming() ==> self@.units[id as int]->0.resuming()
                            &&& 0 <= position(self@.sched.lane(t.priority), id)
                        },
                        done ==> {
                            &&& self@.sched.tasks[id as int].state == TaskState::Completed
                            &&& self@.results[id as int] == Some(first.outcome())
                        },
                        dormant ==> !first.resuming() && old(self)@.stalled(self@, id),
                        forall|j: u64| #[trigger]
                            old(self)@.certain(j) ==> self@.certain(j) && (j != id
                                ==> self@.awaited(j) == old(self)@.awaited(j)),
                        old(self)@.served(self@, t.priority),
                    decreases
                            (if done || dormant {
                                0nat
                            } else {
                                1 + self@.units[id as int]->0.pendings_left()
                            }),
                            (if done || dormant {
                                0int
                            } else {
                                position(self@.sched.lane(t.priority), id)
                            }),
                {
                    let ghost before = self@;
                    proof {
                        assert(before.sched.state_is(id, TaskState::Queued));
                        lemma_queued_present(before.sched, id);
                    }
                    let step = self.step(worker);
                    match step {
                        Step::Polled { id: polled, outcome, resumed } => {
                            proof {
                                lemma_turn_progress(before.sched, worker, id, resumed, outcome);
                                assert(before.pick(worker).sched == before.sched.pick(worker));
                                assert(self@.sched == after_turn(
                                    before.sched,
                                    worker,
                                    resumed,
                                    outcome,
                                ));
                                assert(self@.slot_ok(id as int));
                                assert(polled == before.sched.lane(t.priority)[0]);
                                lemma_step_serves(before, self@, t.priority, outcome, resumed);
                                if polled == id {
                                    assert(before.units[id as int]->0.bounded());
                                    if outcome != PollOutcome::Ready {
                                        assert(outcome == PollOutcome::Pending);
                                        if resumed {
                                            assert(self@.sched.state_is(id, TaskState::Queued));
                                            lemma_queued_present(self@.sched, id);
                                            lemma_position(self@.sched.lane(t.priority), id);
                                        } else {
                                            assert(self@.sched.state_is(id, TaskState::Dormant));
                                        }
                                    }
                                } else {
                                    assert(before.sched.knows(polled));
                                    assert(self@.units[id as int] == before.units[id as int]);
                                }
                            }
                            if polled == id {
                                match outcome {
                                    PollOutcome::Ready => {
                                        done = true;
                                    },
                                    _ => {
                                        if !resumed {
                                            dormant = true;
                                        }
                                    },
                                }
                            }
                        },
                        Step::Idle => {
                            assert(false);
                        },
                    }
                }
                if done {
                    let got = self.fetch(id);
                    match got {
                        Some(v) => Ok(v),
                        None => Err(TaskError::Lost),
                    }
                } else {
                    Err(TaskError::Stalled)
                }
            },
            _ => Err(TaskError::Stalled),
        }
    }
}

impl<U: UnitOfWork> ExecState<U> {
    /// The worker that works for task `id`: it serves the lane of the task's
    /// priority and nothing else.
    pub open spec fn helper(self, id: u64) -> WorkerPolicy {
        WorkerPolicy { primary: self.sched.tasks[id as int].priority, fallback: false }
    }

    /// Whether `after` arises from `self` by `k` turns of the worker that
    /// works for task `id`, each of them taken while the task was waiting.
    pub open spec fn driven(self, after: ExecState<U>, id: u64, k: nat) -> bool
        decreases k,
    {
        if k == 0 {
            after == self
        } else {
            exists|prev: ExecState<U>, outcome: PollOutcome, resumed: bool|
                {
                    &&& self.driven(prev, id, (k - 1) as nat)
                    &&& prev.waits(id)
                    &&& prev.sched.picked(prev.helper(id)) is Some
                    &&& #[trigger] prev.stepped(
                        after,
                        prev.helper(id),
                        prev.sched.picked(prev.helper(id))->0,
                        outcome,
                        resumed,
                    )
                }
        }
    }

    /// The executor after the stored result of task `id` has been fetched.
    pub open spec fn fetched(self, id: u64) -> ExecState<U> {
        ExecState { results: self.results.update(id as int, None), ..self }
    }
}

impl<U: UnitOfWork> Executor<U> {
    /// Waits for the result of `task` as `await_result` does, for `turns`
    /// turns at most. It is for every unit, bounded or not.
    ///
    /// While the task waits in its lane and turns are left, the caller takes
    /// a turn for it. If the task still waits when the turns are used up,
    /// the result is `None`, and the handle can be awaited again. Else the
    /// task is answered at once, as `await_result` answers a task that does
    /// not wait.
    pub fn await_within(&mut self, task: &Task, turns: u64) -> (r: Option<
        Result<U::Output, TaskError>,
    >)
        requires
            old(self).wf(),
        ensures
            final(self).wf(),
            exists|k: nat, mid: ExecState<U>|
                {
                    &&& k <= turns
                    &&& #[trigger] old(self)@.driven(mid, task.task(), k)
                    &&& k < turns ==> !mid.waits(task.task())
                    &&& if mid.waits(task.task()) {
                        r is None && final(self)@ == mid
                    } else {
                        &&& r == Some(mid.awaited(task.task()))
                        &&& final(self)@ == if mid.awaited(task.task()) is Ok {
                            mid.fetched(task.task())
                        } else {
                            mid
                        }
                    }
                },
    {
        let id = task.id();
        let mut left = turns;
        let mut waiting = self.waiting(id);
        proof {
            assert(old(self)@.driven(self@, id, 0));
        }
        while waiting && left > 0
            invariant
                self.wf(),
                left <= turns,
                waiting == self@.waits(id),
                old(self)@.driven(self@, id, (turns - left) as nat),
            decreases left,
        {
            let ghost before = self@;
            let ghost taken = (turns - left) as nat;
            let worker = self.helper(id);
            proof {
                lemma_queued_present(before.sched, id);
                lemma_turn_progress(
                    before.sched,
                    worker,
                    id,
                    false,
                    PollOutcome::Ready,
                );
            }
            let step = self.step(worker);
            left = left - 1;
            waiting = self.waiting(id);
            proof {
                match step {
                    Step::Polled { id: polled, outcome, resumed } => {
                        assert(before.stepped(self@, before.helper(id), polled, outcome, resumed));
                        assert(old(self)@.driven(self@, id, taken + 1));
                    },
                    Step::Idle => {
                        assert(false);
                    },
                }
            }
        }
        let ghost mid = self@;
        if waiting {
            None
        } else {
            let answer = self.await_result(task);
            proof {
                assert(mid.certain(id));
                assert(old(self)@.driven(mid, id, (turns - left) as nat));
            }
            Some(answer)
        }
    }

    /// Whether task `id` waits in a lane for a caller that wants its result.
    pub fn waiting(&self, id: u64) -> (w: bool)
        ensures
            w == self@.waits(id),
    {
        match self.record(id) {
            Some(t) => t.state == TaskState::Queued && !t.detached,
            None => false,
        }
    }

    /// The worker that works for the waiting task `id`.
    fn helper(&self, id: u64) -> (w: WorkerPolicy)
        requires
            self@.sched.knows(id),
        ensures
            w == self@.helper(id),
    {
        match self.record(id) {
            Some(t) => WorkerPolicy::only(t.priority),
            None => WorkerPolicy::low(),
        }
    }
}

} // verus!
