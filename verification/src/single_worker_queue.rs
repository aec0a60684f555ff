use vstd::prelude::*;
use crate::commons::{FutureType, UnitOfWork};
use crate::executor::{Executor, Task};
use crate::model::WorkerPolicy;

pub use crate::multi_worker_queue::CounterFuture;

verus! {

/// The one lane of the single-queue setup.
pub open spec fn queue() -> FutureType {
    FutureType::Low
}

/// The one worker of the single-queue setup: it serves the queue and
/// nothing else.
pub fn worker() -> (w: WorkerPolicy)
    ensures
        w == (WorkerPolicy { primary: queue(), fallback: false }),
{
    WorkerPolicy::only(FutureType::Low)
}

/// Spawns `future` on the one queue: the unit is taken over and its first
/// runnable queued behind everything that waits there. Nothing is polled, and
/// the handle of the new task is returned at once.
pub fn spawn_task<U: UnitOfWork>(executor: &mut Executor<U>, future: U) -> (task: Task)
    requires
        old(executor).wf(),
        future.pollable(),
    ensures
        final(executor).wf(),
        task.task() == old(executor)@.sched.tasks.len(),
        final(executor)@ == old(executor)@.spawn(future, queue()),
{
    executor.spawn(future, FutureType::Low)
}

} // verus!
