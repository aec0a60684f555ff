use vstd::prelude::*;
use crate::commons::{FutureType, UnitOfWork};
use crate::executor::{ExecState, TaskError};
use crate::model::{other_lane, PollOutcome, SchedState, TaskState, WorkerPolicy};
use crate::preserve::{lemma_pick_wf, lemma_queued_present, lemma_unqueued_absent};

verus! {

/// The number of runnables of unit `id` that exist: those that wait in a
/// lane, and the one that a worker holds while the unit is running.
pub open spec fn live_runnables(s: SchedState, id: u64) -> nat {
    s.high.to_multiset().count(id) + s.low.to_multiset().count(id) + if s.state_is(
        id,
        TaskState::Running,
    ) {
        1nat
    } else {
        0nat
    }
}

/// At most one runnable. In a well-formed scheduler every unit has exactly
/// one runnable while it is queued or running, and none otherwise; so no two
/// workers can ever poll the same unit at once.
pub proof fn lemma_single_runnable(s: SchedState, id: u64)
    requires
        s.wf(),
    ensures
        live_runnables(s, id) <= 1,
        live_runnables(s, id) == 1 <==> s.state_is(id, TaskState::Queued) || s.state_is(
            id,
            TaskState::Running,
        ),
{
    broadcast use vstd::seq_lib::to_multiset_contains;

    s.high.lemma_multiset_has_no_duplicates();
    s.low.lemma_multiset_has_no_duplicates();
    assert(s.high.to_multiset().contains(id) <==> s.high.contains(id));
    assert(s.low.to_multiset().contains(id) <==> s.low.contains(id));
    assert(s.high.to_multiset().count(id) > 0 <==> s.high.to_multiset().contains(id));
    assert(s.low.to_multiset().count(id) > 0 <==> s.low.to_multiset().contains(id));
    if s.state_is(id, TaskState::Queued) {
        lemma_queued_present(s, id);
    } else {
        lemma_unqueued_absent(s, id);
    }
}

/// The unit of a running task is out of the executor's hands: it travels
/// with the one runnable that the worker holds.
pub proof fn lemma_running_unit_is_away<U: UnitOfWork>(e: ExecState<U>, id: u64)
    requires
        e.wf(),
        e.sched.state_is(id, TaskState::Running),
    ensures
        e.units[id as int] is None,
        live_runnables(e.sched, id) == 1,
{
    assert(e.slot_ok(id as int));
    lemma_single_runnable(e.sched, id);
}

/// High before low, turn by turn. Whenever the high lane is not empty, a
/// worker whose primary lane it is takes the oldest high runnable and leaves
/// the low lane untouched.
pub proof fn lemma_high_first(s: SchedState, w: WorkerPolicy)
    requires
        w.primary == FutureType::High,
        s.high.len() > 0,
    ensures
        s.picked(w) == Some(s.high[0]),
        s.pick(w).high == s.high.drop_first(),
        s.pick(w).low == s.low,
{
}

/// A worker falls back to the low lane only when the high lane is empty, and
/// a worker without a fallback never leaves its lane.
pub proof fn lemma_fallback(s: SchedState, w: WorkerPolicy)
    requires
        s.lane(w.primary).len() == 0,
    ensures
        w.fallback && s.lane(other_lane(w.primary)).len() > 0 ==> s.picked(w) == Some(
            s.lane(other_lane(w.primary))[0],
        ),
        !w.fallback ==> s.picked(w) is None && s.pick(w) == s,
{
}

/// The scheduler after `n` turns of a worker of policy `w`, none of which
/// has been settled yet and with no resumption in between.
pub open spec fn after_picks(s: SchedState, w: WorkerPolicy, n: nat) -> SchedState
    decreases n,
{
    if n == 0 {
        s
    } else {
        after_picks(s, w, (n - 1) as nat).pick(w)
    }
}

/// High before low, all the way. With `N` runnables in the high lane, the
/// first `N` turns of a worker whose primary lane it is take exactly those,
/// oldest first, and the low lane is the same after each of them.
pub proof fn lemma_high_drains_first(s: SchedState, w: WorkerPolicy, n: nat)
    requires
        w.primary == FutureType::High,
        n <= s.high.len(),
    ensures
        after_picks(s, w, n).high == s.high.skip(n as int),
        after_picks(s, w, n).low == s.low,
        n < s.high.len() ==> after_picks(s, w, n).picked(w) == Some(s.high[n as int]),
    decreases n,
{
    if n == 0 {
        assert(s.high.skip(0) =~= s.high);
    } else {
        lemma_high_drains_first(s, w, (n - 1) as nat);
        let before = after_picks(s, w, (n - 1) as nat);
        assert(before.high.len() > 0);
        lemma_high_first(before, w);
        assert(s.high.skip(n - 1).drop_first() =~= s.high.skip(n as int));
    }
}

/// Low after high. Once a worker that falls back to the low lane has drained
/// the high lane, its next turns take the low runnables, oldest first.
pub proof fn lemma_low_follows(s: SchedState, w: WorkerPolicy, m: nat)
    requires
        w.primary == FutureType::High,
        w.fallback,
        m <= s.low.len(),
    ensures
        after_picks(s, w, s.high.len() + m).high == Seq::<u64>::empty(),
        after_picks(s, w, s.high.len() + m).low == s.low.skip(m as int),
        m < s.low.len() ==> after_picks(s, w, s.high.len() + m).picked(w) == Some(s.low[m as int]),
    decreases m,
{
    if m == 0 {
        lemma_high_drains_first(s, w, s.high.len());
        assert(s.high.skip(s.high.len() as int) =~= Seq::<u64>::empty());
        assert(s.low.skip(0) =~= s.low);
    } else {
        lemma_low_follows(s, w, (m - 1) as nat);
        let before = after_picks(s, w, (s.high.len() + m - 1) as nat);
        assert(before.source(w) == Some(FutureType::Low));
        assert(s.low.skip(m - 1).drop_first() =~= s.low.skip(m as int));
    }
}

/// First in, first out. Only a worker's turn takes a runnable out of a
/// lane, and it takes the oldest; whatever else happens leaves a lane as it
/// is or queues one runnable at its back. So runnables leave a lane in the
/// order in which they entered it.
pub proof fn lemma_fifo(
    s: SchedState,
    w: WorkerPolicy,
    id: u64,
    outcome: PollOutcome,
    p: FutureType,
    q: FutureType,
)
    ensures
        s.pick(w).lane(p) == s.lane(p) || (s.lane(p).len() > 0 && s.picked(w) == Some(s.lane(p)[0])
            && s.pick(w).lane(p) == s.lane(p).drop_first()),
        s.wake(id).lane(p) == s.lane(p) || s.wake(id).lane(p) == s.lane(p).push(id),
        s.settle(id, outcome).lane(p) == s.lane(p) || s.settle(id, outcome).lane(p)
            == s.lane(p).push(id),
        s.register(q).lane(p) == s.lane(p),
        s.detach(id).lane(p) == s.lane(p),
{
}

/// Self-resumption. A unit that invokes its resumption handle while it is
/// polled and then returns `Pending` is queued again at once, at the back of
/// the lane of its priority.
pub proof fn lemma_self_resume_requeues(s: SchedState, id: u64)
    requires
        s.wf(),
        s.state_is(id, TaskState::Running),
    ensures
        ({
            let p = s.tasks[id as int].priority;
            let r = s.wake(id).settle(id, PollOutcome::Pending);
            &&& r.queued_on(id, p)
            &&& r.lane(p) == s.lane(p).push(id)
            &&& r.lane(other_lane(p)) == s.lane(other_lane(p))
        }),
{
}

/// Without a resumption a pending unit goes dormant: it is in no lane, and
/// no worker will poll it until its handle is invoked.
pub proof fn lemma_pending_goes_dormant(s: SchedState, id: u64)
    requires
        s.wf(),
        s.state_is(id, TaskState::Running),
        !s.tasks[id as int].woken,
    ensures
        ({
            let r = s.settle(id, PollOutcome::Pending);
            &&& r.state_is(id, TaskState::Dormant)
            &&& r.high == s.high
            &&& r.low == s.low
            &&& !r.high.contains(id)
            &&& !r.low.contains(id)
        }),
{
    lemma_unqueued_absent(s, id);
}

/// Resumption from outside. Invoking the handle of a dormant unit, from
/// wherever, queues one runnable for it at the back of the lane of its
/// priority and touches nothing else.
pub proof fn lemma_wake_requeues_dormant(s: SchedState, id: u64)
    requires
        s.wf(),
        s.state_is(id, TaskState::Dormant),
    ensures
        ({
            let p = s.tasks[id as int].priority;
            let r = s.wake(id);
            &&& r.queued_on(id, p)
            &&& r.lane(p) == s.lane(p).push(id)
            &&& r.lane(other_lane(p)) == s.lane(other_lane(p))
            &&& forall|j: int| 0 <= j < s.tasks.len() && j != id ==> r.tasks[j] == s.tasks[j]
        }),
{
}

/// A handle that is invoked too late, too early or too often does no harm:
/// for a unit that has finished, that is queued already, or that does not
/// exist, the invocation changes nothing.
pub proof fn lemma_wake_is_safe(s: SchedState, id: u64)
    requires
        !s.knows(id) || s.state_is(id, TaskState::Completed) || s.state_is(
            id,
            TaskState::Panicked,
        ) || s.state_is(id, TaskState::Queued),
    ensures
        s.wake(id) == s,
{
}

/// Detaching does not reschedule. It changes neither lane, nor the state or
/// the priority of any unit, nor what any worker takes next.
pub proof fn lemma_detach_keeps_schedule(s: SchedState, id: u64, w: WorkerPolicy)
    ensures
        s.detach(id).high == s.high,
        s.detach(id).low == s.low,
        s.detach(id).tasks.len() == s.tasks.len(),
        forall|j: int|
            0 <= j < s.tasks.len() ==> (#[trigger] s.detach(id).tasks[j]).state == s.tasks[j].state
                && s.detach(id).tasks[j].priority == s.tasks[j].priority && s.detach(id).tasks[j].woken == s.tasks[j].woken,
        s.detach(id).picked(w) == s.picked(w),
{
}

/// A detached unit runs on. Every step that the scheduler can take leads
/// from the detached state to the detached successor: taking a runnable,
/// resuming, and settling a poll all commute with detaching.
pub proof fn lemma_detach_commutes(
    s: SchedState,
    id: u64,
    w: WorkerPolicy,
    j: u64,
    outcome: PollOutcome,
)
    requires
        s.wf(),
    ensures
        s.detach(id).pick(w) == s.pick(w).detach(id),
        s.detach(id).wake(j) == s.wake(j).detach(id),
        s.detach(id).settle(j, outcome) == s.settle(j, outcome).detach(id),
{
    lemma_pick_wf(s, w);
    let a = s.detach(id);
    assert(a.pick(w).tasks =~= s.pick(w).detach(id).tasks);
    assert(a.wake(j).tasks =~= s.wake(j).detach(id).tasks);
    assert(a.settle(j, outcome).tasks =~= s.settle(j, outcome).detach(id).tasks);
}

/// A panic is contained. When the poll of a unit panics, that unit fails for
/// good and nothing else changes: both lanes, every other unit, and what any
/// worker takes next are the same as if the poll had never happened.
pub proof fn lemma_panic_is_contained(s: SchedState, id: u64, w: WorkerPolicy)
    requires
        s.wf(),
        s.state_is(id, TaskState::Running),
    ensures
        ({
            let r = s.settle(id, PollOutcome::Panicked);
            &&& r.state_is(id, TaskState::Panicked)
            &&& r.high == s.high
            &&& r.low == s.low
            &&& forall|j: int| 0 <= j < s.tasks.len() && j != id ==> r.tasks[j] == s.tasks[j]
            &&& r.picked(w) == s.picked(w)
        }),
{
}

/// Completion and failure are final: no resumption and no report moves a
/// unit that has completed or panicked.
pub proof fn lemma_terminal(s: SchedState, id: u64, outcome: PollOutcome)
    requires
        s.state_is(id, TaskState::Completed) || s.state_is(id, TaskState::Panicked),
    ensures
        s.wake(id) == s,
        s.settle(id, outcome) == s,
{
}

/// A failure is delivered. The handle of a unit whose poll panicked yields
/// `Panicked` instead of waiting for a value that will not come.
pub proof fn lemma_panic_is_reported<U: UnitOfWork>(e: ExecState<U>, id: u64)
    requires
        e.wf(),
        e.sched.state_is(id, TaskState::Running),
        !e.sched.tasks[id as int].detached,
    ensures
        e.abandon(id).certain(id),
        e.abandon(id).awaited(id) == Err::<U::Output, TaskError>(TaskError::Panicked),
{
}

/// Liveness at spawn time. A bounded unit that has just been spawned can be
/// awaited; and if it resumes itself whenever it is pending, it is settled
/// from the start that its handle yields the unit's outcome.
pub proof fn lemma_spawned_is_awaited<U: UnitOfWork>(e: ExecState<U>, unit: U, p: FutureType)
    requires
        e.wf(),
        e.sched.tasks.len() < u64::MAX,
        unit.pollable(),
        unit.bounded(),
    ensures
        ({
            let id = e.sched.tasks.len() as u64;
            &&& e.spawn(unit, p).waits(id)
            &&& e.spawn(unit, p).joinable(id)
            &&& e.spawn(unit, p).units[id as int] == Some(unit)
            &&& unit.resuming() ==> e.spawn(unit, p).certain(id) && e.spawn(unit, p).awaited(id)
                == Ok::<U::Output, TaskError>(unit.outcome())
        }),
{
}

/// Liveness across resumptions from outside. A bounded unit that has
/// stalled and whose handle is then invoked can be awaited again: it waits
/// in its lane once more, with the same outcome to come and the pending
/// polls that it had left. Since every stall has used up a pending poll, a
/// unit with `k` of them is complete after at most `k` such rounds, whoever
/// resumes it.
pub proof fn lemma_resumed_is_awaited<U: UnitOfWork>(
    before: ExecState<U>,
    e: ExecState<U>,
    id: u64,
)
    requires
        before.wf(),
        e.wf(),
        before.stalled(e, id),
        !e.sched.tasks[id as int].detached,
    ensures
        e.wake(id).wf(),
        e.wake(id).waits(id),
        e.wake(id).joinable(id),
        e.wake(id).units[id as int] == e.units[id as int],
        e.wake(id).units[id as int]->0.outcome() == before.units[id as int]->0.outcome(),
        e.wake(id).units[id as int]->0.pendings_left() < before.units[id as int]->0.pendings_left(),
{
    crate::executor::lemma_exec_wake_wf(e, id);
}

/// What is done is done. A unit that has completed or panicked stands in no
/// lane, so that no worker ever takes it again, and its unit is gone from
/// the executor: it is never polled after its first `Ready`.
pub proof fn lemma_finished_is_never_taken<U: UnitOfWork>(e: ExecState<U>, id: u64, w: WorkerPolicy)
    requires
        e.wf(),
        e.sched.state_is(id, TaskState::Completed) || e.sched.state_is(id, TaskState::Panicked),
    ensures
        e.sched.picked(w) != Some(id),
        e.units[id as int] is None,
        !e.sched.high.contains(id),
        !e.sched.low.contains(id),
{
    lemma_unqueued_absent(e.sched, id);
    assert(e.slot_ok(id as int));
    match e.sched.source(w) {
        Some(p) => {
            assert(e.sched.lane(p).contains(e.sched.lane(p)[0]));
        },
        None => {},
    }
}

} // verus!
