use vstd::prelude::*;
use crate::commons::FutureType;

verus! {

/// Where a unit of work stands in its life.
#[derive(Debug, Clone, Copy, PartialEq, Eq, Structural)]
pub enum TaskState {
    /// Registered; its first runnable has not been queued yet.
    Created,
    /// One runnable of the unit waits in the lane of its priority.
    Queued,
    /// A worker holds the runnable and polls the unit.
    Running,
    /// The last poll returned `Pending` and nobody has resumed the unit since.
    Dormant,
    /// The unit returned `Ready`.
    Completed,
    /// A poll of the unit panicked.
    Panicked,
}

/// What the scheduler keeps about one unit of work.
#[derive(Debug, Clone, Copy, PartialEq, Eq, Structural)]
pub struct TaskRecord {
    pub priority: FutureType,
    pub state: TaskState,
    /// A resumption arrived while the unit was being polled.
    pub woken: bool,
    /// The caller has given up its interest in the result.
    pub detached: bool,
}

/// Which lanes a worker drains: its primary lane first and, if `fallback` is
/// set, the other lane whenever the primary one is empty.
#[derive(Debug, Clone, Copy, PartialEq, Eq, Structural)]
pub struct WorkerPolicy {
    pub primary: FutureType,
    pub fallback: bool,
}

/// How one poll of a unit ended.
#[derive(Debug, Clone, Copy, PartialEq, Eq, Structural)]
pub enum PollOutcome {
    Ready,
    Pending,
    Panicked,
}

/// How long a worker is to back off, in milliseconds, after a turn in which
/// every lane that it serves was empty.
pub const IDLE_BACKOFF_MS: u64 = 100;

/// The other priority.
pub open spec fn other_lane(p: FutureType) -> FutureType {
    match p {
        FutureType::High => FutureType::Low,
        FutureType::Low => FutureType::High,
    }
}

/// The scheduler as a mathematical value: both lanes, oldest runnable first,
/// and the record of every unit ever registered, indexed by task id.
pub struct SchedState {
    pub high: Seq<u64>,
    pub low: Seq<u64>,
    pub tasks: Seq<TaskRecord>,
}

impl SchedState {
    pub open spec fn empty() -> SchedState {
        SchedState { high: Seq::empty(), low: Seq::empty(), tasks: Seq::empty() }
    }

    pub open spec fn lane(self, p: FutureType) -> Seq<u64> {
        match p {
            FutureType::High => self.high,
            FutureType::Low => self.low,
        }
    }

    pub open spec fn with_lane(self, p: FutureType, items: Seq<u64>) -> SchedState {
        match p {
            FutureType::High => SchedState { high: items, ..self },
            FutureType::Low => SchedState { low: items, ..self },
        }
    }

    pub open spec fn with_task(self, id: u64, record: TaskRecord) -> SchedState {
        SchedState { tasks: self.tasks.update(id as int, record), ..self }
    }

    /// Whether `id` names a registered unit.
    pub open spec fn knows(self, id: u64) -> bool {
        (id as int) < self.tasks.len()
    }

    pub open spec fn state_is(self, id: u64, state: TaskState) -> bool {
        self.knows(id) && self.tasks[id as int].state == state
    }

    pub open spec fn queued_on(self, id: u64, p: FutureType) -> bool {
        self.state_is(id, TaskState::Queued) && self.tasks[id as int].priority == p
    }

    /// The invariant of the scheduler: a lane holds exactly the queued units
    /// of its priority, each of them once, and a resumption is only ever
    /// remembered for a unit that is being polled.
    pub open spec fn wf(self) -> bool {
        &&& self.tasks.len() <= u64::MAX
        &&& self.high.no_duplicates()
        &&& self.low.no_duplicates()
        &&& forall|i: int|
            0 <= i < self.high.len() ==> #[trigger] self.queued_on(self.high[i], FutureType::High)
        &&& forall|i: int|
            0 <= i < self.low.len() ==> #[trigger] self.queued_on(self.low[i], FutureType::Low)
        &&& forall|id: u64| #[trigger]
            self.state_is(id, TaskState::Queued) ==> self.lane(
                self.tasks[id as int].priority,
            ).contains(id)
        &&& forall|id: u64|
            self.knows(id) && (#[trigger] self.tasks[id as int]).woken ==> self.tasks[id as int].state
                == TaskState::Running
    }

    /// A new unit of priority `p`, not yet queued.
    pub open spec fn register(self, p: FutureType) -> SchedState {
        SchedState {
            tasks: self.tasks.push(
                TaskRecord { priority: p, state: TaskState::Created, woken: false, detached: false },
            ),
            ..self
        }
    }

    /// The resumption handle of `id` is invoked: a unit that is new or
    /// dormant gets a runnable at the back of its lane; for a unit that is
    /// being polled the resumption is remembered; anything else is left alone.
    pub open spec fn wake(self, id: u64) -> SchedState {
        if !self.knows(id) {
            self
        } else {
            let t = self.tasks[id as int];
            match t.state {
                TaskState::Created | TaskState::Dormant => self.with_task(
                    id,
                    TaskRecord { state: TaskState::Queued, ..t },
                ).with_lane(t.priority, self.lane(t.priority).push(id)),
                TaskState::Running => self.with_task(id, TaskRecord { woken: true, ..t }),
                _ => self,
            }
        }
    }

    /// Registration followed by the first scheduling.
    pub open spec fn spawn(self, p: FutureType) -> SchedState {
        self.register(p).wake(self.tasks.len() as u64)
    }

    /// The lane from which a worker of policy `w` takes its next runnable.
    pub open spec fn source(self, w: WorkerPolicy) -> Option<FutureType> {
        if self.lane(w.primary).len() > 0 {
            Some(w.primary)
        } else if w.fallback && self.lane(other_lane(w.primary)).len() > 0 {
            Some(other_lane(w.primary))
        } else {
            None
        }
    }

    /// The unit that a worker of policy `w` polls next, if any.
    pub open spec fn picked(self, w: WorkerPolicy) -> Option<u64> {
        match self.source(w) {
            Some(p) => Some(self.lane(p)[0]),
            None => None,
        }
    }

    /// The scheduler after a worker of policy `w` has taken its next runnable.
    pub open spec fn pick(self, w: WorkerPolicy) -> SchedState {
        match self.source(w) {
            Some(p) => {
                let id = self.lane(p)[0];
                self.with_lane(p, self.lane(p).drop_first()).with_task(
                    id,
                    TaskRecord { state: TaskState::Running, ..self.tasks[id as int] },
                )
            },
            None => self,
        }
    }

    /// The poll of the running unit `id` has ended with `outcome`.
    pub open spec fn settle(self, id: u64, outcome: PollOutcome) -> SchedState {
        if !self.state_is(id, TaskState::Running) {
            self
        } else {
            let t = self.tasks[id as int];
            match outcome {
                PollOutcome::Ready => self.with_task(
                    id,
                    TaskRecord { state: TaskState::Completed, woken: false, ..t },
                ),
                PollOutcome::Panicked => self.with_task(
                    id,
                    TaskRecord { state: TaskState::Panicked, woken: false, ..t },
                ),
                PollOutcome::Pending => if t.woken {
                    self.with_task(
                        id,
                        TaskRecord { state: TaskState::Queued, woken: false, ..t },
                    ).with_lane(t.priority, self.lane(t.priority).push(id))
                } else {
                    self.with_task(id, TaskRecord { state: TaskState::Dormant, ..t })
                },
            }
        }
    }

    /// The caller of `id` gives up its interest in the result.
    pub open spec fn detach(self, id: u64) -> SchedState {
        if !self.knows(id) {
            self
        } else {
            self.with_task(id, TaskRecord { detached: true, ..self.tasks[id as int] })
        }
    }
}

pub proof fn lemma_push_contains(s: Seq<u64>, x: u64)
    ensures
        s.push(x).contains(x),
        forall|y: u64| s.contains(y) ==> #[trigger] s.push(x).contains(y),
        forall|y: u64| #[trigger] s.push(x).contains(y) ==> s.contains(y) || y == x,
{
    assert(s.push(x)[s.len() as int] == x);
    assert forall|y: u64| s.contains(y) implies #[trigger] s.push(x).contains(y) by {
        let i = choose|i: int| 0 <= i < s.len() && s[i] == y;
        assert(s.push(x)[i] == y);
    }
    assert forall|y: u64| #[trigger] s.push(x).contains(y) implies s.contains(y) || y == x by {
        let i = choose|i: int| 0 <= i < s.push(x).len() && s.push(x)[i] == y;
        if i < s.len() {
            assert(s[i] == y);
        }
    }
}

pub proof fn lemma_push_fresh(s: Seq<u64>, x: u64)
    requires
        s.no_duplicates(),
        !s.contains(x),
    ensures
        s.push(x).no_duplicates(),
{
    assert forall|i: int, j: int|
        0 <= i < s.push(x).len() && 0 <= j < s.push(x).len() && i != j implies s.push(x)[i]
        != s.push(x)[j] by {
        if i < s.len() {
            assert(s.contains(s[i]));
        }
        if j < s.len() {
            assert(s.contains(s[j]));
        }
    }
}

pub proof fn lemma_drop_first(s: Seq<u64>)
    requires
        s.no_duplicates(),
        s.len() > 0,
    ensures
        s.drop_first().no_duplicates(),
        !s.drop_first().contains(s[0]),
        forall|y: u64| #[trigger] s.drop_first().contains(y) ==> s.contains(y),
        forall|y: u64| s.contains(y) && y != s[0] ==> #[trigger] s.drop_first().contains(y),
{
    let d = s.drop_first();
    assert forall|i: int| 0 <= i < d.len() implies d[i] == s[i + 1] by {}
    assert forall|y: u64| #[trigger] d.contains(y) implies s.contains(y) by {
        let i = choose|i: int| 0 <= i < d.len() && d[i] == y;
        assert(s[i + 1] == y);
    }
    assert forall|y: u64| s.contains(y) && y != s[0] implies #[trigger] d.contains(y) by {
        let i = choose|i: int| 0 <= i < s.len() && s[i] == y;
        assert(d[i - 1] == y);
    }
    if d.contains(s[0]) {
        let i = choose|i: int| 0 <= i < d.len() && d[i] == s[0];
        assert(s[i + 1] == s[0]);
    }
}

} // verus!
