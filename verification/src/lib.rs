pub mod clock;
pub mod commons;
pub mod driver;
pub mod executor;
pub mod job;
pub mod join;
pub mod lane;
pub mod laws;
pub mod model;
pub mod multi_worker_queue;
pub mod preserve;
pub mod scheduler;
pub mod single_worker_queue;

use vstd::prelude::*;
use crate::commons::{BackgroundProcess, FutureType, Runtime};
use crate::executor::{ExecState, Executor, TaskError};
use crate::model::{PollOutcome, WorkerPolicy};
use crate::job::{Job, JobOutput};
use crate::join::{join_future, try_join};
use crate::multi_worker_queue::{started, CounterFuture};

verus! {

/// Three units on the one queue of the single-queue setup, all of them
/// joined: two counters, and one computation without a suspension point.
/// Each counter yields three.
pub fn sing_task() -> (out: Vec<JobOutput>)
    ensures
        out@ == seq![JobOutput::Count(3), JobOutput::Count(3), JobOutput::Done],
{
    let mut executor: Executor<Job> = Executor::new();
    let one = Job::Counter(CounterFuture { count: 0 });
    let two = Job::Counter(CounterFuture { count: 0 });
    let task1 = single_worker_queue::spawn_task(&mut executor, one);
    let task2 = single_worker_queue::spawn_task(&mut executor, two);
    let task3 = single_worker_queue::spawn_task(&mut executor, Job::Immediate);
    let tasks = vec![task1, task2, task3];
    proof {
        assert(executor@.sched.tasks.len() == 3);
        assert(executor@.certain(0) && executor@.certain(1) && executor@.certain(2));
    }
    let out = join_future(&mut executor, tasks);
    proof {
        assert(out@ =~= seq![JobOutput::Count(3), JobOutput::Count(3), JobOutput::Done]);
    }
    out
}

/// Four units on the two lanes, joined in the order in which they were
/// spawned: a counter on the high lane, a counter on the low lane, and a
/// computation without a suspension point on each. Every one of them yields
/// its value, whatever the lane.
pub fn multi_task() -> (out: Vec<Result<JobOutput, TaskError>>)
    ensures
        out@ == seq![
            Ok::<JobOutput, TaskError>(JobOutput::Count(3)),
            Ok::<JobOutput, TaskError>(JobOutput::Count(3)),
            Ok::<JobOutput, TaskError>(JobOutput::Done),
            Ok::<JobOutput, TaskError>(JobOutput::Done),
        ],
{
    let mut executor: Executor<Job> = Executor::new();
    let high_counter = Job::Counter(CounterFuture { count: 0 });
    let low_counter = Job::Counter(CounterFuture { count: 0 });
    let task1 = multi_worker_queue::spawn_task(&mut executor, high_counter, FutureType::High);
    let task2 = multi_worker_queue::spawn_task(&mut executor, low_counter, FutureType::Low);
    let task3 = multi_worker_queue::spawn_task(&mut executor, Job::Immediate, FutureType::Low);
    let task4 = multi_worker_queue::spawn_task(&mut executor, Job::Immediate, FutureType::High);
    let tasks = vec![task1, task2, task3, task4];
    proof {
        assert(executor@.sched.tasks.len() == 4);
        assert(executor@.certain(0) && executor@.certain(1) && executor@.certain(2)
            && executor@.certain(3));
    }
    let out = try_join(&mut executor, tasks);
    proof {
        assert(out@ =~= seq![
            Ok::<JobOutput, TaskError>(JobOutput::Count(3)),
            Ok::<JobOutput, TaskError>(JobOutput::Count(3)),
            Ok::<JobOutput, TaskError>(JobOutput::Done),
            Ok::<JobOutput, TaskError>(JobOutput::Done),
        ]);
    }
    out
}

/// The executor that `multi_task_runtime` hands over: the started runtime
/// with one background process queued on the low lane, detached.
pub open spec fn left_running() -> ExecState<Job> {
    started().spawn(Job::Background(BackgroundProcess), FutureType::Low).detach(2)
}

/// Starts the default runtime of a machine with `core_num` units of
/// parallelism and leaves one background process running on the low lane,
/// detached: it is queued behind nothing, and it will be polled for as long
/// as a worker serves that lane.
pub fn multi_task_runtime(core_num: usize) -> (executor: Executor<Job>)
    requires
        core_num >= 2,
    ensures
        executor.wf(),
        executor@ == left_running(),
{
    let mut executor = Runtime::new(core_num).run();
    let task = multi_worker_queue::spawn_task(
        &mut executor,
        Job::Background(BackgroundProcess {  }),
        FutureType::Low,
    );
    executor.detach(task);
    executor
}

/// The background process runs on. Whenever a worker that serves the low
/// lane takes a turn on the executor that `multi_task_runtime` has handed
/// over, it polls the background process, which is pending and asks for its
/// resumption; and the turn leaves the executor exactly as it found it, so
/// that the next turn does the same, without end.
pub proof fn lemma_background_runs_on(
    after: ExecState<Job>,
    w: WorkerPolicy,
    id: u64,
    outcome: PollOutcome,
    resumed: bool,
)
    requires
        w.primary == FutureType::Low || w.fallback,
        left_running().sched.picked(w) == Some(id),
        left_running().stepped(after, w, id, outcome, resumed),
    ensures
        id == 2,
        outcome == PollOutcome::Pending,
        resumed,
        after == left_running(),
{
    let before = left_running();
    assert(before.sched.high =~= Seq::<u64>::empty());
    assert(before.sched.low =~= seq![2u64]);
    assert(before.units[2] == Some(Job::Background(BackgroundProcess)));
    assert(id == 2);
    let unit = before.units[2]->0;
    assert(outcome == PollOutcome::Pending);
    assert(resumed);
    assert(after.units[2] == Some(Job::Background(BackgroundProcess)));
    assert(after.sched.low =~= before.sched.low);
    assert(after.sched.high =~= before.sched.high);
    assert(after.sched.tasks =~= before.sched.tasks);
    assert(after.units =~= before.units);
    assert(after.results =~= before.results);
}

} // verus!
