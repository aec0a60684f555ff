use vstd::prelude::*;
use crate::commons::FutureType;
use crate::lane::Lane;
use crate::model::{PollOutcome, SchedState, TaskRecord, TaskState, WorkerPolicy};
use crate::preserve::{
    lemma_detach_wf, lemma_empty_wf, lemma_pick_wf, lemma_register_wf, lemma_settle_wf,
    lemma_wake_wf,
};

verus! {

/// The scheduler: one lane per priority and the record of every unit of work.
///
/// It decides which unit is polled next and keeps track of where each unit
/// stands; it never polls anything itself. Every method is one atomic step of
/// the state machine that `SchedState` describes.
pub struct Scheduler {
    high: Lane,
    low: Lane,
    tasks: Vec<TaskRecord>,
}

impl WorkerPolicy {
    /// A worker that prefers the high lane and falls back to the low one.
    pub fn high() -> (w: WorkerPolicy)
        ensures
            w == (WorkerPolicy { primary: FutureType::High, fallback: true }),
    {
        WorkerPolicy { primary: FutureType::High, fallback: true }
    }

    /// A worker that serves the low lane and nothing else.
    pub fn low() -> (w: WorkerPolicy)
        ensures
            w == (WorkerPolicy { primary: FutureType::Low, fallback: false }),
    {
        WorkerPolicy { primary: FutureType::Low, fallback: false }
    }

    /// A worker that serves the lane of priority `p` and nothing else.
    pub fn only(p: FutureType) -> (w: WorkerPolicy)
        ensures
            w == (WorkerPolicy { primary: p, fallback: false }),
    {
        WorkerPolicy { primary: p, fallback: false }
    }
}

/// The other priority.
pub fn other(p: FutureType) -> (o: FutureType)
    ensures
        o == crate::model::other_lane(p),
{
    match p {
        FutureType::High => FutureType::Low,
        FutureType::Low => FutureType::High,
    }
}

impl Scheduler {
    pub closed spec fn view(&self) -> SchedState {
        SchedState { high: self.high@, low: self.low@, tasks: self.tasks@ }
    }

    pub closed spec fn lanes_open(&self) -> bool {
        self.high.wf() && self.low.wf()
    }

    /// Both lanes are usable and the state satisfies the scheduler's invariant.
    pub open spec fn wf(&self) -> bool {
        self.lanes_open() && self@.wf()
    }

    /// A scheduler with empty lanes and no unit.
    pub fn new() -> (s: Scheduler)
        ensures
            s.wf(),
            s@ == SchedState::empty(),
    {
        proof {
            lemma_empty_wf();
        }
        Scheduler { high: Lane::new(), low: Lane::new(), tasks: Vec::new() }
    }

    /// The number of units registered so far; task ids are the numbers below it.
    pub fn task_count(&self) -> (n: usize)
        ensures
            n == self@.tasks.len(),
    {
        self.tasks.len()
    }

    /// The record of unit `id`, if there is such a unit.
    pub fn record(&self, id: u64) -> (r: Option<TaskRecord>)
        ensures
            r == if self@.knows(id) {
                Some(self@.tasks[id as int])
            } else {
                None
            },
    {
        if id < self.tasks.len() as u64 {
            Some(self.tasks[id as usize])
        } else {
            None
        }
    }

    /// The number of runnables that wait in the lane of priority `p`.
    pub fn queued(&self, p: FutureType) -> (n: usize)
        ensures
            n == self@.lane(p).len(),
    {
        match p {
            FutureType::High => self.high.len(),
            FutureType::Low => self.low.len(),
        }
    }

    fn push_lane(&mut self, p: FutureType, id: u64)
        requires
            old(self).lanes_open(),
        ensures
            final(self).lanes_open(),
            final(self)@ == old(self)@.with_lane(p, old(self)@.lane(p).push(id)),
    {
        match p {
            FutureType::High => self.high.push(id),
            FutureType::Low => self.low.push(id),
        }
    }

    fn pop_lane(&mut self, p: FutureType) -> (got: Option<u64>)
        requires
            old(self).lanes_open(),
        ensures
            final(self).lanes_open(),
            old(self)@.lane(p).len() == 0 ==> got is None && final(self)@ == old(self)@,
            old(self)@.lane(p).len() > 0 ==> got == Some(old(self)@.lane(p)[0]) && final(self)@
                == old(self)@.with_lane(p, old(self)@.lane(p).drop_first()),
    {
        match p {
            FutureType::High => self.high.pop(),
            FutureType::Low => self.low.pop(),
        }
    }

    fn set_record(&mut self, id: u64, record: TaskRecord)
        requires
            old(self).lanes_open(),
            old(self)@.knows(id),
        ensures
            final(self).lanes_open(),
            final(self)@ == old(self)@.with_task(id, record),
    {
        assert(id < self.tasks.len());
        self.tasks.set(id as usize, record);
    }

    /// Registers a unit of priority `p` without queueing it: the unit is
    /// `Created` until its resumption handle is first invoked.
    pub fn register(&mut self, p: FutureType) -> (id: u64)
        requires
            old(self).wf(),
        ensures
            final(self).wf(),
            id == old(self)@.tasks.len(),
            final(self)@ == old(self)@.register(p),
    {
        let id = self.tasks.len() as u64;
        self.tasks.push(
            TaskRecord { priority: p, state: TaskState::Created, woken: false, detached: false },
        );
        proof {
            assert(self.tasks.len() <= usize::MAX);
            lemma_register_wf(old(self)@, p);
        }
        id
    }

    /// Invokes the resumption handle of unit `id`.
    ///
    /// A unit that is new or dormant gets a runnable at the back of the lane
    /// of its priority. If the unit is being polled, the resumption is
    /// remembered and takes effect when the poll is settled. For a unit that
    /// is queued already, has finished, or does not exist, nothing happens.
    pub fn wake(&mut self, id: u64)
        requires
            old(self).wf(),
        ensures
            final(self).wf(),
            final(self)@ == old(self)@.wake(id),
    {
        proof {
            lemma_wake_wf(self@, id);
        }
        if id < self.tasks.len() as u64 {
            let t = self.tasks[id as usize];
            match t.state {
                TaskState::Created | TaskState::Dormant => {
                    self.set_record(id, TaskRecord { state: TaskState::Queued, ..t });
                    self.push_lane(t.priority, id);
                },
                TaskState::Running => {
                    self.set_record(id, TaskRecord { woken: true, ..t });
                },
                _ => {},
            }
        }
    }

    /// Registers a unit of priority `p` and queues its first runnable at the
    /// back of the lane of that priority. Returns the id of the unit.
    pub fn spawn(&mut self, p: FutureType) -> (id: u64)
        requires
            old(self).wf(),
        ensures
            final(self).wf(),
            id == old(self)@.tasks.len(),
            final(self)@ == old(self)@.spawn(p),
    {
        let id = self.register(p);
        self.wake(id);
        id
    }

    /// One scheduling decision of a worker with policy `worker`.
    ///
    /// The worker takes the oldest runnable of its primary lane; if that lane
    /// is empty and the policy has a fallback, the oldest runnable of the
    /// other lane. The unit taken becomes `Running`. With nothing to take the
    /// result is `None` and nothing changes: the worker is to back off.
    pub fn next_runnable(&mut self, worker: WorkerPolicy) -> (got: Option<u64>)
        requires
            old(self).wf(),
        ensures
            final(self).wf(),
            got == old(self)@.picked(worker),
            final(self)@ == old(self)@.pick(worker),
    {
        proof {
            lemma_pick_wf(self@, worker);
        }
        let mut got = self.pop_lane(worker.primary);
        if got.is_none() && worker.fallback {
            got = self.pop_lane(other(worker.primary));
        }
        match got {
            Some(id) => {
                assert(old(self)@.source(worker) matches Some(p) && id == old(self)@.lane(p)[0]);
                assert(id < self.tasks.len());
                let t = self.tasks[id as usize];
                self.set_record(id, TaskRecord { state: TaskState::Running, ..t });
            },
            None => {},
        }
        got
    }

    /// Records how the poll of the running unit `id` ended.
    ///
    /// `Ready` completes the unit and `Panicked` fails it; both are final.
    /// After `Pending` the unit is queued again at the back of its lane if a
    /// resumption arrived during the poll, and dormant otherwise. For a unit
    /// that is not running nothing happens.
    pub fn settle(&mut self, id: u64, outcome: PollOutcome)
        requires
            old(self).wf(),
        ensures
            final(self).wf(),
            final(self)@ == old(self)@.settle(id, outcome),
    {
        proof {
            lemma_settle_wf(self@, id, outcome);
        }
        if id < self.tasks.len() as u64 {
            let t = self.tasks[id as usize];
            if t.state == TaskState::Running {
                match outcome {
                    PollOutcome::Ready => {
                        self.set_record(
                            id,
                            TaskRecord { state: TaskState::Completed, woken: false, ..t },
                        );
                    },
                    PollOutcome::Panicked => {
                        self.set_record(
                            id,
                            TaskRecord { state: TaskState::Panicked, woken: false, ..t },
                        );
                    },
                    PollOutcome::Pending => {
                        if t.woken {
                            self.set_record(
                                id,
                                TaskRecord { state: TaskState::Queued, woken: false, ..t },
                            );
                            self.push_lane(t.priority, id);
                        } else {
                            self.set_record(id, TaskRecord { state: TaskState::Dormant, ..t });
                        }
                    },
                }
            }
        }
    }

    /// Marks unit `id` as detached. Its scheduling is not affected.
    pub fn detach(&mut self, id: u64)
        requires
            old(self).wf(),
        ensures
            final(self).wf(),
            final(self)@ == old(self)@.detach(id),
    {
        proof {
            lemma_detach_wf(self@, id);
        }
        if id < self.tasks.len() as u64 {
            let t = self.tasks[id as usize];
            self.set_record(id, TaskRecord { detached: true, ..t });
        }
    }
}

} // verus!
