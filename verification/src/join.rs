use vstd::prelude::*;
use crate::commons::UnitOfWork;
use crate::executor::{Executor, Task, TaskError};

verus! {

/// No two of the handles stand for the same task.
pub open spec fn distinct(tasks: Seq<Task>) -> bool {
    forall|i: int, j: int|
        0 <= i < j < tasks.len() ==> (#[trigger] tasks[i]).task() != (#[trigger] tasks[j]).task()
}

/// Awaits the handles in order and collects what each yields, value or
/// failure. It is for tasks of which that is settled. Each entry is what
/// `await_result` would have yielded for that handle before any of them was
/// awaited: the work done for one handle does not change what another yields.
pub fn try_join<U: UnitOfWork>(executor: &mut Executor<U>, tasks: Vec<Task>) -> (out: Vec<
    Result<U::Output, TaskError>,
>)
    requires
        old(executor).wf(),
        distinct(tasks@),
        forall|i: int| 0 <= i < tasks.len() ==> old(executor)@.certain(#[trigger] tasks[i].task()),
    ensures
        final(executor).wf(),
        out.len() == tasks.len(),
        forall|i: int|
            0 <= i < tasks.len() ==> #[trigger] out[i] == old(executor)@.awaited(tasks[i].task()),
{
    let ghost all = tasks@;
    let mut rest = tasks;
    let mut out: Vec<Result<U::Output, TaskError>> = Vec::new();
    while rest.len() > 0
        invariant
            executor.wf(),
            distinct(all),
            out.len() + rest.len() == all.len(),
            rest@ == all.skip(out.len() as int),
            forall|i: int|
                0 <= i < out.len() ==> #[trigger] out[i] == old(executor)@.awaited(all[i].task()),
            forall|i: int|
                out.len() <= i < all.len() ==> executor@.certain(#[trigger] all[i].task())
                    && executor@.awaited(all[i].task()) == old(executor)@.awaited(all[i].task()),
        decreases rest.len(),
    {
        let ghost done = out.len() as int;
        let ghost before = executor@;
        let task = rest.remove(0);
        assert(task == all[done]);
        assert(before.certain(all[done].task()));
        let r = executor.await_result(&task);
        out.push(r);
        proof {
            assert(rest@ =~= all.skip(done + 1));
            assert forall|i: int| out.len() <= i < all.len() implies executor@.certain(
                #[trigger] all[i].task(),
            ) && executor@.awaited(all[i].task()) == old(executor)@.awaited(all[i].task()) by {
                assert(all[done].task() != all[i].task());
                assert(before.certain(all[i].task()));
            }
        }
    }
    out
}

/// Awaits the handles in order and collects their values. It is for handles
/// that are certain to yield one.
pub fn join_future<U: UnitOfWork>(executor: &mut Executor<U>, tasks: Vec<Task>) -> (out: Vec<
    U::Output,
>)
    requires
        old(executor).wf(),
        distinct(tasks@),
        forall|i: int|
            0 <= i < tasks.len() ==> old(executor)@.certain(#[trigger] tasks[i].task()) && old(executor)@.awaited(tasks[i].task()) is Ok,
    ensures
        final(executor).wf(),
        out.len() == tasks.len(),
        forall|i: int|
            0 <= i < tasks.len() ==> Ok::<U::Output, TaskError>(#[trigger] out[i]) == old(executor)@.awaited(tasks[i].task()),
{
    let ghost all = tasks@;
    let mut rest = tasks;
    let mut out: Vec<U::Output> = Vec::new();
    while rest.len() > 0
        invariant
            executor.wf(),
            distinct(all),
            out.len() + rest.len() == all.len(),
            rest@ == all.skip(out.len() as int),
            forall|i: int|
                0 <= i < out.len() ==> Ok::<U::Output, TaskError>(#[trigger] out[i]) == old(executor)@.awaited(all[i].task()),
            forall|i: int|
                out.len() <= i < all.len() ==> executor@.certain(#[trigger] all[i].task())
                    && executor@.awaited(all[i].task()) == old(executor)@.awaited(all[i].task())
                    && executor@.awaited(all[i].task()) is Ok,
        decreases rest.len(),
    {
        let ghost done = out.len() as int;
        let ghost before = executor@;
        let task = rest.remove(0);
        assert(task == all[done]);
        assert(before.certain(all[done].task()));
        let r = executor.await_result(&task);
        match r {
            Ok(v) => {
                out.push(v);
            },
            Err(_) => {
                assert(false);
            },
        }
        proof {
            assert(rest@ =~= all.skip(done + 1));
            assert forall|i: int| out.len() <= i < all.len() implies executor@.certain(
                #[trigger] all[i].task(),
            ) && executor@.awaited(all[i].task()) == old(executor)@.awaited(all[i].task())
                && executor@.awaited(all[i].task()) is Ok by {
                assert(all[done].task() != all[i].task());
                assert(before.certain(all[i].task()));
            }
        }
    }
    out
}

} // verus!
