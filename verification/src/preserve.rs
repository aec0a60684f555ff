use vstd::prelude::*;
use crate::commons::FutureType;
use crate::model::{
    lemma_drop_first, lemma_push_contains, lemma_push_fresh, other_lane, PollOutcome, SchedState,
    TaskRecord, TaskState, WorkerPolicy,
};

verus! {

/// The empty scheduler is well formed.
pub proof fn lemma_empty_wf()
    ensures
        SchedState::empty().wf(),
{
}

/// Registering a unit keeps the scheduler well formed and changes no lane.
pub proof fn lemma_register_wf(s: SchedState, p: FutureType)
    requires
        s.wf(),
        s.tasks.len() < u64::MAX,
    ensures
        s.register(p).wf(),
        s.register(p).state_is(s.tasks.len() as u64, TaskState::Created),
{
    let r = s.register(p);
    assert forall|i: int| 0 <= i < r.high.len() implies #[trigger] r.queued_on(
        r.high[i],
        FutureType::High,
    ) by {
        assert(s.queued_on(s.high[i], FutureType::High));
    }
    assert forall|i: int| 0 <= i < r.low.len() implies #[trigger] r.queued_on(
        r.low[i],
        FutureType::Low,
    ) by {
        assert(s.queued_on(s.low[i], FutureType::Low));
    }
    assert forall|id: u64| #[trigger] r.state_is(id, TaskState::Queued) implies r.lane(
        r.tasks[id as int].priority,
    ).contains(id) by {
        assert(s.state_is(id, TaskState::Queued));
    }
}

/// A unit whose state is not `Queued` stands in no lane.
pub proof fn lemma_unqueued_absent(s: SchedState, id: u64)
    requires
        s.wf(),
        !s.state_is(id, TaskState::Queued),
    ensures
        !s.high.contains(id),
        !s.low.contains(id),
{
    if s.high.contains(id) {
        let i = choose|i: int| 0 <= i < s.high.len() && s.high[i] == id;
        assert(s.queued_on(s.high[i], FutureType::High));
    }
    if s.low.contains(id) {
        let i = choose|i: int| 0 <= i < s.low.len() && s.low[i] == id;
        assert(s.queued_on(s.low[i], FutureType::Low));
    }
}

/// A queued unit stands in the lane of its priority and not in the other.
pub proof fn lemma_queued_present(s: SchedState, id: u64)
    requires
        s.wf(),
        s.state_is(id, TaskState::Queued),
    ensures
        s.lane(s.tasks[id as int].priority).contains(id),
        !s.lane(other_lane(s.tasks[id as int].priority)).contains(id),
{
    let o = other_lane(s.tasks[id as int].priority);
    if s.lane(o).contains(id) {
        let i = choose|i: int| 0 <= i < s.lane(o).len() && s.lane(o)[i] == id;
        match o {
            FutureType::High => {
                assert(s.queued_on(s.high[i], FutureType::High));
            },
            FutureType::Low => {
                assert(s.queued_on(s.low[i], FutureType::Low));
            },
        }
    }
}

/// Putting a unit that is not queued at the back of its lane, as `Queued`,
/// keeps the scheduler well formed.
proof fn lemma_enqueue_wf(s: SchedState, id: u64)
    requires
        s.wf(),
        s.knows(id),
        s.tasks[id as int].state != TaskState::Queued,
    ensures
        s.with_task(
            id,
            TaskRecord { state: TaskState::Queued, woken: false, ..s.tasks[id as int] },
        ).with_lane(s.tasks[id as int].priority, s.lane(s.tasks[id as int].priority).push(id)).wf(),
{
    let t = s.tasks[id as int];
    let p = t.priority;
    let r = s.with_task(id, TaskRecord { state: TaskState::Queued, woken: false, ..t }).with_lane(
        p,
        s.lane(p).push(id),
    );
    lemma_unqueued_absent(s, id);
    lemma_push_fresh(s.lane(p), id);
    lemma_push_contains(s.lane(p), id);
    assert forall|i: int| 0 <= i < r.high.len() implies #[trigger] r.queued_on(
        r.high[i],
        FutureType::High,
    ) by {
        if i < s.high.len() {
            assert(s.queued_on(s.high[i], FutureType::High));
            assert(s.high.contains(s.high[i]));
        }
    }
    assert forall|i: int| 0 <= i < r.low.len() implies #[trigger] r.queued_on(
        r.low[i],
        FutureType::Low,
    ) by {
        if i < s.low.len() {
            assert(s.queued_on(s.low[i], FutureType::Low));
            assert(s.low.contains(s.low[i]));
        }
    }
    assert forall|x: u64| #[trigger] r.state_is(x, TaskState::Queued) implies r.lane(
        r.tasks[x as int].priority,
    ).contains(x) by {
        if x != id {
            assert(s.state_is(x, TaskState::Queued));
        }
    }
    assert forall|x: u64| r.knows(x) && (#[trigger] r.tasks[x as int]).woken implies r.tasks[x as int].state
        == TaskState::Running by {
        if x != id {
            assert(s.tasks[x as int].woken);
        }
    }
}

/// Changing the record of a unit that is not queued, to one that is not
/// queued either and remembers a resumption only while running, keeps the
/// scheduler well formed.
proof fn lemma_retag_wf(s: SchedState, id: u64, record: TaskRecord)
    requires
        s.wf(),
        s.knows(id),
        s.tasks[id as int].state != TaskState::Queued,
        record.state != TaskState::Queued,
        record.woken ==> record.state == TaskState::Running,
    ensures
        s.with_task(id, record).wf(),
{
    let r = s.with_task(id, record);
    lemma_unqueued_absent(s, id);
    assert forall|i: int| 0 <= i < r.high.len() implies #[trigger] r.queued_on(
        r.high[i],
        FutureType::High,
    ) by {
        assert(s.queued_on(s.high[i], FutureType::High));
        assert(s.high.contains(s.high[i]));
    }
    assert forall|i: int| 0 <= i < r.low.len() implies #[trigger] r.queued_on(
        r.low[i],
        FutureType::Low,
    ) by {
        assert(s.queued_on(s.low[i], FutureType::Low));
        assert(s.low.contains(s.low[i]));
    }
    assert forall|x: u64| #[trigger] r.state_is(x, TaskState::Queued) implies r.lane(
        r.tasks[x as int].priority,
    ).contains(x) by {
        assert(s.state_is(x, TaskState::Queued));
    }
    assert forall|x: u64| r.knows(x) && (#[trigger] r.tasks[x as int]).woken implies r.tasks[x as int].state
        == TaskState::Running by {
        if x != id {
            assert(s.tasks[x as int].woken);
        }
    }
}

/// Invoking a resumption handle keeps the scheduler well formed.
pub proof fn lemma_wake_wf(s: SchedState, id: u64)
    requires
        s.wf(),
    ensures
        s.wake(id).wf(),
{
    if s.knows(id) {
        let t = s.tasks[id as int];
        match t.state {
            TaskState::Created | TaskState::Dormant => {
                assert(!t.woken);
                lemma_enqueue_wf(s, id);
                assert(TaskRecord { state: TaskState::Queued, woken: false, ..t } == TaskRecord {
                    state: TaskState::Queued,
                    ..t
                });
            },
            TaskState::Running => {
                lemma_retag_wf(s, id, TaskRecord { woken: true, ..t });
            },
            _ => {},
        }
    }
}

/// Spawning keeps the scheduler well formed.
pub proof fn lemma_spawn_wf(s: SchedState, p: FutureType)
    requires
        s.wf(),
        s.tasks.len() < u64::MAX,
    ensures
        s.spawn(p).wf(),
{
    lemma_register_wf(s, p);
    lemma_wake_wf(s.register(p), s.tasks.len() as u64);
}

/// Taking the next runnable keeps the scheduler well formed, and the unit
/// taken was queued on the lane it came from.
pub proof fn lemma_pick_wf(s: SchedState, w: WorkerPolicy)
    requires
        s.wf(),
    ensures
        s.pick(w).wf(),
        s.source(w) matches Some(p) ==> s.queued_on(s.lane(p)[0], p),
        s.picked(w) matches Some(id) ==> s.pick(w).state_is(id, TaskState::Running),
{
    match s.source(w) {
        Some(p) => {
            let id = s.lane(p)[0];
            match p {
                FutureType::High => {
                    assert(s.queued_on(s.high[0], FutureType::High));
                },
                FutureType::Low => {
                    assert(s.queued_on(s.low[0], FutureType::Low));
                },
            }
            lemma_drop_first(s.lane(p));
            lemma_queued_present(s, id);
            let r = s.pick(w);
            assert forall|i: int| 0 <= i < r.high.len() implies #[trigger] r.queued_on(
                r.high[i],
                FutureType::High,
            ) by {
                if p == FutureType::High {
                    assert(r.high[i] == s.high[i + 1]);
                    assert(s.queued_on(s.high[i + 1], FutureType::High));
                    assert(r.high.contains(r.high[i]));
                } else {
                    assert(s.queued_on(s.high[i], FutureType::High));
                    assert(s.high.contains(s.high[i]));
                }
            }
            assert forall|i: int| 0 <= i < r.low.len() implies #[trigger] r.queued_on(
                r.low[i],
                FutureType::Low,
            ) by {
                if p == FutureType::Low {
                    assert(r.low[i] == s.low[i + 1]);
                    assert(s.queued_on(s.low[i + 1], FutureType::Low));
                    assert(r.low.contains(r.low[i]));
                } else {
                    assert(s.queued_on(s.low[i], FutureType::Low));
                    assert(s.low.contains(s.low[i]));
                }
            }
            assert forall|x: u64| #[trigger] r.state_is(x, TaskState::Queued) implies r.lane(
                r.tasks[x as int].priority,
            ).contains(x) by {
                assert(x != id);
                assert(s.state_is(x, TaskState::Queued));
            }
            assert forall|x: u64| r.knows(x) && (#[trigger] r.tasks[x as int]).woken implies r.tasks[x as int].state
                == TaskState::Running by {
                if x != id {
                    assert(s.tasks[x as int].woken);
                } else {
                    assert(s.tasks[id as int].woken);
                }
            }
        },
        None => {},
    }
}

/// Settling a poll keeps the scheduler well formed.
pub proof fn lemma_settle_wf(s: SchedState, id: u64, outcome: PollOutcome)
    requires
        s.wf(),
    ensures
        s.settle(id, outcome).wf(),
{
    if s.state_is(id, TaskState::Running) {
        let t = s.tasks[id as int];
        match outcome {
            PollOutcome::Ready => {
                lemma_retag_wf(
                    s,
                    id,
                    TaskRecord { state: TaskState::Completed, woken: false, ..t },
                );
            },
            PollOutcome::Panicked => {
                lemma_retag_wf(s, id, TaskRecord { state: TaskState::Panicked, woken: false, ..t });
            },
            PollOutcome::Pending => {
                if t.woken {
                    lemma_enqueue_wf(s, id);
                } else {
                    lemma_retag_wf(s, id, TaskRecord { state: TaskState::Dormant, ..t });
                }
            },
        }
    }
}

/// Detaching keeps the scheduler well formed.
pub proof fn lemma_detach_wf(s: SchedState, id: u64)
    requires
        s.wf(),
    ensures
        s.detach(id).wf(),
{
    if s.knows(id) {
        let t = s.tasks[id as int];
        let r = s.detach(id);
        assert forall|i: int| 0 <= i < r.high.len() implies #[trigger] r.queued_on(
            r.high[i],
            FutureType::High,
        ) by {
            assert(s.queued_on(s.high[i], FutureType::High));
        }
        assert forall|i: int| 0 <= i < r.low.len() implies #[trigger] r.queued_on(
            r.low[i],
            FutureType::Low,
        ) by {
            assert(s.queued_on(s.low[i], FutureType::Low));
        }
        assert forall|x: u64| #[trigger] r.state_is(x, TaskState::Queued) implies r.lane(
            r.tasks[x as int].priority,
        ).contains(x) by {
            assert(s.state_is(x, TaskState::Queued));
        }
        assert forall|x: u64| r.knows(x) && (#[trigger] r.tasks[x as int]).woken implies r.tasks[x as int].state
            == TaskState::Running by {
            assert(s.tasks[x as int].woken);
        }
    }
}

} // verus!
