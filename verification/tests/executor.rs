use rustom_runtime::commons::{
    BackgroundProcess, FutureType, Progress, ResumptionHandle, Resumer, UnitOfWork,
};
use rustom_runtime::executor::{Executor, Step, TaskError};
use rustom_runtime::job::{Job, JobOutput};
use rustom_runtime::model::{PollOutcome, TaskState, WorkerPolicy};
use rustom_runtime::multi_worker_queue::{spawn_labelled, spawn_task, CounterFuture};
use std::cell::{Cell, RefCell};
use std::rc::Rc;

/// Counts its polls in a place that the test can see and is ready at `until`.
struct Tally {
    polls: Rc<Cell<u32>>,
    until: u32,
}

impl UnitOfWork for Tally {
    type Output = u32;

    fn poll(&mut self, cx: &mut Resumer) -> Progress<u32> {
        self.polls.set(self.polls.get() + 1);
        if self.polls.get() < self.until {
            cx.wake_by_ref();
            Progress::Pending
        } else {
            Progress::Ready(self.polls.get())
        }
    }
}

/// Waits for a payload that somebody else delivers, and keeps its
/// resumption handle where that somebody can find it.
struct Mailbox {
    payload: Rc<RefCell<Option<String>>>,
    waker: Rc<Cell<Option<ResumptionHandle>>>,
}

impl UnitOfWork for Mailbox {
    type Output = String;

    fn poll(&mut self, cx: &mut Resumer) -> Progress<String> {
        match self.payload.borrow_mut().take() {
            Some(text) => Progress::Ready(text),
            None => {
                self.waker.set(Some(cx.handle()));
                Progress::Pending
            }
        }
    }
}

fn state<U: UnitOfWork>(executor: &Executor<U>, id: u64) -> TaskState {
    executor.record(id).unwrap().state
}

#[test]
fn counter_is_ready_at_third_poll() {
    let mut executor: Executor<CounterFuture> = Executor::new();
    let task = spawn_task(&mut executor, CounterFuture { count: 0 }, FutureType::High);
    assert_eq!(executor.await_result(&task), Ok(3));
}

#[test]
fn counter_steps_are_pending_pending_ready() {
    let mut executor: Executor<CounterFuture> = Executor::new();
    let task = spawn_task(&mut executor, CounterFuture { count: 0 }, FutureType::Low);
    let id = task.id();
    let w = WorkerPolicy::low();
    let pending = Step::Polled { id, outcome: PollOutcome::Pending, resumed: true };
    assert_eq!(executor.step(w), pending);
    assert_eq!(state(&executor, id), TaskState::Queued);
    assert_eq!(executor.step(w), pending);
    assert_eq!(
        executor.step(w),
        Step::Polled { id, outcome: PollOutcome::Ready, resumed: false }
    );
    assert_eq!(state(&executor, id), TaskState::Completed);
    assert_eq!(executor.step(w), Step::Idle);
    assert_eq!(executor.await_result(&task), Ok(3));
}

#[test]
fn counter_that_starts_late_yields_its_own_count() {
    let mut executor: Executor<CounterFuture> = Executor::new();
    let a = spawn_task(&mut executor, CounterFuture { count: 1 }, FutureType::Low);
    let b = spawn_task(&mut executor, CounterFuture { count: 2 }, FutureType::Low);
    let c = spawn_task(&mut executor, CounterFuture { count: 41 }, FutureType::Low);
    assert_eq!(executor.await_result(&c), Ok(42));
    assert_eq!(executor.await_result(&a), Ok(3));
    assert_eq!(executor.await_result(&b), Ok(3));
}

#[test]
fn spawning_polls_nothing() {
    let polls = Rc::new(Cell::new(0));
    let mut executor: Executor<Tally> = Executor::new();
    let task = spawn_task(&mut executor, Tally { polls: polls.clone(), until: 1 }, FutureType::High);
    assert_eq!(polls.get(), 0);
    assert_eq!(state(&executor, task.id()), TaskState::Queued);
    assert_eq!(executor.queued(FutureType::High), 1);
}

#[test]
fn handle_yields_the_value_of_the_first_ready() {
    let polls = Rc::new(Cell::new(0));
    let mut executor: Executor<Tally> = Executor::new();
    let task = spawn_task(&mut executor, Tally { polls: polls.clone(), until: 5 }, FutureType::High);
    while state(&executor, task.id()) != TaskState::Completed {
        executor.step(WorkerPolicy::high());
    }
    assert_eq!(polls.get(), 5);
    assert_eq!(executor.step(WorkerPolicy::high()), Step::Idle);
    assert_eq!(polls.get(), 5);
    assert_eq!(executor.await_result(&task), Ok(5));
}

#[test]
fn self_resuming_unit_is_not_starved_by_its_neighbours() {
    let mut executor: Executor<Job> = Executor::new();
    let noise1 = spawn_task(&mut executor, Job::Background(BackgroundProcess), FutureType::Low);
    let counter = spawn_task(
        &mut executor,
        Job::Counter(CounterFuture { count: 0 }),
        FutureType::Low,
    );
    let noise2 = spawn_task(&mut executor, Job::Background(BackgroundProcess), FutureType::Low);
    assert_eq!(executor.await_result(&counter), Ok(JobOutput::Count(3)));
    assert_eq!(state(&executor, noise1.id()), TaskState::Queued);
    assert_eq!(state(&executor, noise2.id()), TaskState::Queued);
    assert_eq!(executor.queued(FutureType::Low), 2);
}

#[test]
fn lane_is_served_round_robin() {
    let mut executor: Executor<Job> = Executor::new();
    let a = spawn_task(&mut executor, Job::Background(BackgroundProcess), FutureType::High).id();
    let b = spawn_task(&mut executor, Job::Background(BackgroundProcess), FutureType::High).id();
    let c = spawn_task(&mut executor, Job::Background(BackgroundProcess), FutureType::High).id();
    let mut order = Vec::new();
    for _ in 0..7 {
        match executor.step(WorkerPolicy::high()) {
            Step::Polled { id, outcome, resumed } => {
                assert_eq!(outcome, PollOutcome::Pending);
                assert!(resumed);
                order.push(id);
            }
            Step::Idle => panic!("the lane cannot be empty"),
        }
    }
    assert_eq!(order, vec![a, b, c, a, b, c, a]);
}

#[test]
fn busy_high_lane_keeps_a_high_worker_from_the_low_lane() {
    let mut executor: Executor<Job> = Executor::new();
    let low = spawn_task(&mut executor, Job::Immediate, FutureType::Low);
    let high = spawn_task(&mut executor, Job::Background(BackgroundProcess), FutureType::High);
    for _ in 0..10 {
        assert_eq!(
            executor.step(WorkerPolicy::high()),
            Step::Polled { id: high.id(), outcome: PollOutcome::Pending, resumed: true }
        );
    }
    assert_eq!(state(&executor, low.id()), TaskState::Queued);
    assert_eq!(
        executor.step(WorkerPolicy::low()),
        Step::Polled { id: low.id(), outcome: PollOutcome::Ready, resumed: false }
    );
    assert_eq!(executor.await_result(&low), Ok(JobOutput::Done));
}

#[test]
fn a_runnable_is_the_only_way_to_the_unit() {
    let polls = Rc::new(Cell::new(0));
    let mut executor: Executor<Tally> = Executor::new();
    let task = spawn_task(&mut executor, Tally { polls: polls.clone(), until: 3 }, FutureType::Low);
    let id = task.id();
    let first = executor.next_runnable(WorkerPolicy::low()).unwrap();
    assert_eq!(first.id(), id);
    assert!(executor.next_runnable(WorkerPolicy::low()).is_none());
    executor.wake(task.resumption_handle());
    executor.wake(task.resumption_handle());
    assert!(executor.next_runnable(WorkerPolicy::low()).is_none());
    assert!(executor.next_runnable(WorkerPolicy::high()).is_none());
    assert_eq!(polls.get(), 0);
    let polled = first.run();
    assert_eq!(polls.get(), 1);
    assert_eq!(polled.id(), id);
    assert_eq!(polled.summary(), (PollOutcome::Pending, true));
    assert!(executor.next_runnable(WorkerPolicy::low()).is_none());
    executor.settle(polled);
    assert_eq!(executor.queued(FutureType::Low), 1);
    let second = executor.next_runnable(WorkerPolicy::low()).unwrap();
    assert!(executor.next_runnable(WorkerPolicy::low()).is_none());
    executor.settle(second.run());
    assert_eq!(polls.get(), 2);
}

#[test]
fn resumption_from_outside_completes_a_dormant_task() {
    let payload = Rc::new(RefCell::new(None));
    let waker = Rc::new(Cell::new(None));
    let mut executor: Executor<Mailbox> = Executor::new();
    let task = spawn_task(
        &mut executor,
        Mailbox { payload: payload.clone(), waker: waker.clone() },
        FutureType::High,
    );
    let id = task.id();
    assert_eq!(
        executor.step(WorkerPolicy::high()),
        Step::Polled { id, outcome: PollOutcome::Pending, resumed: false }
    );
    assert_eq!(state(&executor, id), TaskState::Dormant);
    assert_eq!(executor.step(WorkerPolicy::high()), Step::Idle);
    assert_eq!(executor.step(WorkerPolicy::low()), Step::Idle);

    *payload.borrow_mut() = Some(String::from("Hello from outside"));
    let handle = waker.take().expect("the unit has stored its handle");
    assert_eq!(handle, task.resumption_handle());
    executor.wake(handle);
    assert_eq!(state(&executor, id), TaskState::Queued);
    assert_eq!(executor.queued(FutureType::High), 1);
    assert_eq!(executor.queued(FutureType::Low), 0);

    assert_eq!(
        executor.step(WorkerPolicy::high()),
        Step::Polled { id, outcome: PollOutcome::Ready, resumed: false }
    );
    assert_eq!(executor.await_result(&task), Ok(String::from("Hello from outside")));
    executor.wake(handle);
    assert_eq!(state(&executor, id), TaskState::Completed);
    assert_eq!(executor.step(WorkerPolicy::high()), Step::Idle);
}

#[test]
fn dormant_task_is_reported_as_stalled_until_it_is_resumed() {
    let payload = Rc::new(RefCell::new(None));
    let waker = Rc::new(Cell::new(None));
    let mut executor: Executor<Mailbox> = Executor::new();
    let task = spawn_task(
        &mut executor,
        Mailbox { payload: payload.clone(), waker: waker.clone() },
        FutureType::Low,
    );
    executor.step(WorkerPolicy::low());
    assert_eq!(executor.await_result(&task), Err(TaskError::Stalled));
    assert_eq!(executor.await_within(&task, 5), Some(Err(TaskError::Stalled)));
    assert_eq!(state(&executor, task.id()), TaskState::Dormant);

    *payload.borrow_mut() = Some(String::from("late"));
    executor.wake(waker.take().unwrap());
    assert_eq!(executor.await_within(&task, 5), Some(Ok(String::from("late"))));
    assert_eq!(executor.await_result(&task), Err(TaskError::Lost));
}

#[test]
fn await_within_stops_when_the_turns_are_used_up() {
    let polls = Rc::new(Cell::new(0));
    let mut executor: Executor<Tally> = Executor::new();
    let task = spawn_task(&mut executor, Tally { polls: polls.clone(), until: 5 }, FutureType::High);
    assert_eq!(executor.await_within(&task, 0), None);
    assert_eq!(polls.get(), 0);
    assert_eq!(executor.await_within(&task, 2), None);
    assert_eq!(polls.get(), 2);
    assert_eq!(state(&executor, task.id()), TaskState::Queued);
    assert_eq!(executor.await_within(&task, 10), Some(Ok(5)));
    assert_eq!(polls.get(), 5);
    assert_eq!(executor.await_within(&task, 10), Some(Err(TaskError::Lost)));
    assert_eq!(polls.get(), 5);
}

#[test]
fn await_within_goes_dormant_with_the_unit() {
    let payload = Rc::new(RefCell::new(None));
    let waker = Rc::new(Cell::new(None));
    let mut executor: Executor<Mailbox> = Executor::new();
    let task = spawn_task(&mut executor, Mailbox { payload, waker }, FutureType::High);
    assert_eq!(executor.await_within(&task, 7), Some(Err(TaskError::Stalled)));
    assert_eq!(state(&executor, task.id()), TaskState::Dormant);
}

#[test]
fn await_within_never_ends_a_background_process() {
    let mut executor: Executor<Job> = Executor::new();
    let background = spawn_task(&mut executor, Job::Background(BackgroundProcess), FutureType::Low);
    let counter = spawn_task(
        &mut executor,
        Job::Counter(CounterFuture { count: 0 }),
        FutureType::Low,
    );
    assert_eq!(executor.await_within(&background, 4), None);
    assert_eq!(executor.record(counter.id()).unwrap().state, TaskState::Queued);
    assert_eq!(executor.await_within(&background, 4), None);
    assert_eq!(executor.await_result(&counter), Ok(JobOutput::Count(3)));
    assert!(executor.waiting(background.id()));
    assert!(!executor.waiting(counter.id()));
    assert!(!executor.waiting(9));
}

#[test]
fn completed_unit_is_never_polled_again() {
    let polls = Rc::new(Cell::new(0));
    let mut executor: Executor<Tally> = Executor::new();
    let task = spawn_task(&mut executor, Tally { polls: polls.clone(), until: 2 }, FutureType::Low);
    assert_eq!(executor.await_within(&task, 100), Some(Ok(2)));
    executor.wake(task.resumption_handle());
    for _ in 0..5 {
        assert_eq!(executor.step(WorkerPolicy::low()), Step::Idle);
        assert_eq!(executor.step(WorkerPolicy::high()), Step::Idle);
    }
    assert_eq!(polls.get(), 2);
}

#[test]
fn running_task_is_reported_as_stalled() {
    let mut executor: Executor<CounterFuture> = Executor::new();
    let task = spawn_task(&mut executor, CounterFuture { count: 0 }, FutureType::Low);
    let runnable = executor.next_runnable(WorkerPolicy::low()).unwrap();
    assert_eq!(runnable.id(), task.id());
    assert_eq!(executor.await_result(&task), Err(TaskError::Stalled));
}

#[test]
fn detached_unit_runs_to_completion() {
    let polls = Rc::new(Cell::new(0));
    let mut executor: Executor<Tally> = Executor::new();
    let task = spawn_task(&mut executor, Tally { polls: polls.clone(), until: 3 }, FutureType::Low);
    let id = task.id();
    executor.detach(task);
    assert_eq!(polls.get(), 0);
    assert_eq!(executor.queued(FutureType::Low), 1);
    let mut turns = 0;
    while executor.step(WorkerPolicy::low()) != Step::Idle {
        turns += 1;
    }
    assert_eq!(turns, 3);
    assert_eq!(polls.get(), 3);
    let record = executor.record(id).unwrap();
    assert_eq!(record.state, TaskState::Completed);
    assert!(record.detached);
}

#[test]
fn panicked_unit_fails_alone() {
    let mut executor: Executor<CounterFuture> = Executor::new();
    let bad = spawn_task(&mut executor, CounterFuture { count: 0 }, FutureType::Low);
    let good = spawn_task(&mut executor, CounterFuture { count: 0 }, FutureType::Low);
    let runnable = executor.next_runnable(WorkerPolicy::low()).unwrap();
    assert_eq!(runnable.id(), bad.id());
    drop(runnable);
    executor.abandon(bad.id());
    assert_eq!(state(&executor, bad.id()), TaskState::Panicked);
    assert_eq!(state(&executor, good.id()), TaskState::Queued);
    assert_eq!(executor.await_result(&good), Ok(3));
    assert_eq!(executor.await_result(&bad), Err(TaskError::Panicked));
    assert_eq!(executor.step(WorkerPolicy::low()), Step::Idle);
}

#[test]
fn abandoning_a_task_that_is_not_running_changes_nothing() {
    let mut executor: Executor<CounterFuture> = Executor::new();
    let task = spawn_task(&mut executor, CounterFuture { count: 0 }, FutureType::Low);
    executor.abandon(task.id());
    executor.abandon(8);
    assert_eq!(state(&executor, task.id()), TaskState::Queued);
    assert_eq!(executor.await_result(&task), Ok(3));
}

#[test]
fn handle_of_another_executor_is_lost() {
    let mut one: Executor<CounterFuture> = Executor::new();
    let mut two: Executor<CounterFuture> = Executor::new();
    spawn_task(&mut one, CounterFuture { count: 0 }, FutureType::Low);
    let stranger = spawn_task(&mut one, CounterFuture { count: 0 }, FutureType::Low);
    spawn_task(&mut two, CounterFuture { count: 0 }, FutureType::Low);
    assert_eq!(two.await_result(&stranger), Err(TaskError::Lost));
    assert!(two.record(1).is_none());
}

#[test]
fn label_chooses_the_lane() {
    let mut executor: Executor<BackgroundProcess> = Executor::new();
    let task = spawn_labelled(&mut executor, BackgroundProcess);
    assert_eq!(executor.record(task.id()).unwrap().priority, FutureType::Low);
    assert_eq!(executor.queued(FutureType::Low), 1);
    assert_eq!(executor.queued(FutureType::High), 0);
}

#[test]
fn background_process_never_finishes() {
    let mut executor: Executor<BackgroundProcess> = Executor::new();
    let task = spawn_task(&mut executor, BackgroundProcess, FutureType::Low);
    for _ in 0..100 {
        assert_eq!(
            executor.step(WorkerPolicy::low()),
            Step::Polled { id: task.id(), outcome: PollOutcome::Pending, resumed: true }
        );
    }
    assert_eq!(state(&executor, task.id()), TaskState::Queued);
}
