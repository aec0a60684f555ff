use vstd::prelude::*;
use crate::commons::{BackgroundProcess, FutureType, Progress, Resumer, Runtime, UnitOfWork};
use crate::executor::{ExecState, Executor, Task};
use crate::job::{Job, JobOutput};
use crate::model::{SchedState, TaskRecord, TaskState, WorkerPolicy};

verus! {

/// A unit that counts its polls and is ready, with the count, at the third.
#[derive(Debug)]
pub struct CounterFuture {
    pub count: u32,
}

impl UnitOfWork for CounterFuture {
    type Output = u32;

    /// The count can still grow by one.
    open spec fn pollable(&self) -> bool {
        self.count < u32::MAX
    }

    open spec fn polled(&self, after: Self, resumed: bool, p: Progress<u32>) -> bool {
        &&& after.count == self.count + 1
        &&& after.count < 3 ==> p is Pending && resumed
        &&& after.count >= 3 ==> p == Progress::Ready(after.count) && !resumed
    }

    open spec fn bounded(&self) -> bool {
        true
    }

    open spec fn resuming(&self) -> bool {
        true
    }

    open spec fn pendings_left(&self) -> nat {
        if self.count < 2 {
            (2 - self.count) as nat
        } else {
            0
        }
    }

    open spec fn outcome(&self) -> u32 {
        if self.count < 2 {
            3
        } else {
            (self.count + 1) as u32
        }
    }

    /// Counts the poll. Below three the unit resumes itself and is pending;
    /// from three on it is ready with the count.
    fn poll(&mut self, cx: &mut Resumer) -> (p: Progress<u32>)
        ensures
            final(self).count == old(self).count + 1,
            final(self).count < 3 ==> p is Pending && final(cx).is_woken(),
            final(self).count >= 3 ==> p == Progress::Ready(final(self).count),
            final(self).count >= 3 ==> final(cx).is_woken() == old(cx).is_woken(),
    {
        self.count += 1;
        if self.count < 3 {
            cx.wake_by_ref();
            Progress::Pending
        } else {
            Progress::Ready(self.count)
        }
    }
}

/// A unit of work that knows the priority it is to run with.
pub trait FutureOrderLabel: UnitOfWork {
    /// The priority that the unit asks for.
    spec fn order(&self) -> FutureType;

    fn get_order(&self) -> (order: FutureType)
        ensures
            order == self.order(),
    ;
}

/// A background process is content with the low lane.
impl FutureOrderLabel for BackgroundProcess {
    open spec fn order(&self) -> FutureType {
        FutureType::Low
    }

    fn get_order(&self) -> (order: FutureType) {
        FutureType::Low
    }
}

/// Spawns `future` with the priority that it asks for itself.
pub fn spawn_labelled<U: FutureOrderLabel>(executor: &mut Executor<U>, future: U) -> (task: Task)
    requires
        old(executor).wf(),
        future.pollable(),
    ensures
        final(executor).wf(),
        task.task() == old(executor)@.sched.tasks.len(),
        final(executor)@ == old(executor)@.spawn(future, future.order()),
{
    let order = future.get_order();
    executor.spawn(future, order)
}

/// Spawns `future` on `executor` with priority `order`: the unit is taken
/// over and its first runnable queued at the back of that lane. Nothing is
/// polled, and the handle of the new task is returned at once.
pub fn spawn_task<U: UnitOfWork>(executor: &mut Executor<U>, future: U, order: FutureType) -> (task:
    Task)
    requires
        old(executor).wf(),
        future.pollable(),
    ensures
        final(executor).wf(),
        task.task() == old(executor)@.sched.tasks.len(),
        final(executor)@ == old(executor)@.spawn(future, order),
{
    executor.spawn(future, order)
}

/// The executor that `Runtime::run` hands over: both probes have completed
/// and been joined, and nothing waits in either lane.
pub open spec fn started() -> ExecState<Job> {
    ExecState {
        sched: SchedState {
            high: Seq::empty(),
            low: Seq::empty(),
            tasks: seq![
                TaskRecord {
                    priority: FutureType::High,
                    state: TaskState::Completed,
                    woken: false,
                    detached: false,
                },
                TaskRecord {
                    priority: FutureType::Low,
                    state: TaskState::Completed,
                    woken: false,
                    detached: false,
                },
            ],
        },
        units: seq![None, None],
        results: seq![None, None],
    }
}

impl Runtime {
    /// The worker pool that the sizing asks for, as a sequence: `high_num`
    /// workers that serve the high lane first and fall back to the low lane,
    /// then `low_num` workers that serve the low lane alone.
    pub open spec fn pool(&self) -> Seq<WorkerPolicy> {
        Seq::new(
            (self.high_num + self.low_num) as nat,
            |i: int|
                if i < self.high_num {
                    WorkerPolicy { primary: FutureType::High, fallback: true }
                } else {
                    WorkerPolicy { primary: FutureType::Low, fallback: false }
                },
        )
    }

    /// The worker pool that the sizing asks for, one policy for each worker
    /// to hire.
    pub fn workers(&self) -> (pool: Vec<WorkerPolicy>)
        requires
            self.high_num + self.low_num <= usize::MAX,
        ensures
            pool@ == self.pool(),
    {
        let mut pool: Vec<WorkerPolicy> = Vec::new();
        let mut i: usize = 0;
        while i < self.high_num
            invariant
                i <= self.high_num,
                pool.len() == i,
                forall|k: int|
                    0 <= k < i ==> pool[k] == (WorkerPolicy {
                        primary: FutureType::High,
                        fallback: true,
                    }),
            decreases self.high_num - i,
        {
            pool.push(WorkerPolicy::high());
            i += 1;
        }
        let mut j: usize = 0;
        while j < self.low_num
            invariant
                j <= self.low_num,
                self.high_num + self.low_num <= usize::MAX,
                pool.len() == self.high_num + j,
                forall|k: int|
                    0 <= k < self.high_num ==> pool[k] == (WorkerPolicy {
                        primary: FutureType::High,
                        fallback: true,
                    }),
                forall|k: int|
                    self.high_num <= k < pool.len() ==> pool[k] == (WorkerPolicy {
                        primary: FutureType::Low,
                        fallback: false,
                    }),
            decreases self.low_num - j,
        {
            pool.push(WorkerPolicy::low());
            j += 1;
        }
        assert(pool@ =~= self.pool());
        pool
    }

    /// Materializes the sizing: the worker pool to hire, and with it an
    /// executor that has been started and confirmed to be live as `run` does.
    pub fn start(&self) -> (ready: (Vec<WorkerPolicy>, Executor<Job>))
        requires
            self.high_num + self.low_num <= usize::MAX,
        ensures
            ready.0@ == self.pool(),
            ready.1.wf(),
            ready.1@ == started(),
    {
        let pool = self.workers();
        let executor = self.run();
        (pool, executor)
    }

    /// Starts an executor and confirms that it is live: one unit without a
    /// suspension point is spawned on each lane, and both are joined.
    pub fn run(&self) -> (executor: Executor<Job>)
        ensures
            executor.wf(),
            executor@ == started(),
    {
        let mut executor: Executor<Job> = Executor::new();
        let high = spawn_task(&mut executor, Job::Immediate, FutureType::High);
        let low = spawn_task(&mut executor, Job::Immediate, FutureType::Low);
        let ghost spawned = executor@;
        assert(spawned.sched.tasks.len() == 2);
        assert(spawned.certain(0) && spawned.certain(1));
        assert(spawned.awaited(1) == Ok::<JobOutput, crate::executor::TaskError>(JobOutput::Done));
        let first = executor.await_result(&high);
        let second = executor.await_result(&low);
        proof {
            let end = executor@;
            assert(first == Ok::<JobOutput, crate::executor::TaskError>(JobOutput::Done));
            assert(second == Ok::<JobOutput, crate::executor::TaskError>(JobOutput::Done));
            assert(end.slot_ok(0));
            assert(end.slot_ok(1));
            assert(end.sched.tasks[0].state == TaskState::Completed);
            assert(end.sched.tasks[1].state == TaskState::Completed);
            assert(end.sched.high =~= Seq::<u64>::empty()) by {
                if end.sched.high.len() > 0 {
                    assert(end.sched.queued_on(end.sched.high[0], FutureType::High));
                }
            }
            assert(end.sched.low =~= Seq::<u64>::empty()) by {
                if end.sched.low.len() > 0 {
                    assert(end.sched.queued_on(end.sched.low[0], FutureType::Low));
                }
            }
            assert(end.sched.tasks =~= started().sched.tasks);
            assert(end.units =~= started().units);
            assert(end.results =~= started().results);
        }
        executor
    }
}

} // verus!
