use rustom_runtime::commons::FutureType;
use rustom_runtime::lane::Lane;
use rustom_runtime::model::{PollOutcome, TaskRecord, TaskState, WorkerPolicy};
use rustom_runtime::scheduler::{other, Scheduler};

fn record(priority: FutureType, state: TaskState) -> TaskRecord {
    TaskRecord { priority, state, woken: false, detached: false }
}

#[test]
fn lane_is_first_in_first_out() {
    let mut lane = Lane::new();
    assert_eq!(lane.len(), 0);
    assert_eq!(lane.pop(), None);
    lane.push(7);
    lane.push(3);
    lane.push(9);
    assert_eq!(lane.len(), 3);
    assert_eq!(lane.pop(), Some(7));
    lane.push(1);
    assert_eq!(lane.pop(), Some(3));
    assert_eq!(lane.pop(), Some(9));
    assert_eq!(lane.pop(), Some(1));
    assert_eq!(lane.pop(), None);
    assert_eq!(lane.len(), 0);
}

#[test]
fn lanes_do_not_share_their_contents() {
    let mut a = Lane::new();
    let mut b = Lane::new();
    a.push(1);
    assert_eq!(b.pop(), None);
    b.push(2);
    assert_eq!(a.pop(), Some(1));
    assert_eq!(a.pop(), None);
    assert_eq!(b.pop(), Some(2));
}

#[test]
fn other_priority() {
    assert_eq!(other(FutureType::High), FutureType::Low);
    assert_eq!(other(FutureType::Low), FutureType::High);
}

#[test]
fn spawn_queues_on_the_lane_of_the_priority() {
    let mut s = Scheduler::new();
    assert_eq!(s.task_count(), 0);
    let a = s.spawn(FutureType::High);
    let b = s.spawn(FutureType::Low);
    let c = s.spawn(FutureType::Low);
    assert_eq!((a, b, c), (0, 1, 2));
    assert_eq!(s.task_count(), 3);
    assert_eq!(s.queued(FutureType::High), 1);
    assert_eq!(s.queued(FutureType::Low), 2);
    assert_eq!(s.record(a), Some(record(FutureType::High, TaskState::Queued)));
    assert_eq!(s.record(c), Some(record(FutureType::Low, TaskState::Queued)));
    assert_eq!(s.record(3), None);
}

#[test]
fn register_alone_queues_nothing() {
    let mut s = Scheduler::new();
    let a = s.register(FutureType::High);
    assert_eq!(s.record(a), Some(record(FutureType::High, TaskState::Created)));
    assert_eq!(s.queued(FutureType::High), 0);
    assert_eq!(s.next_runnable(WorkerPolicy::high()), None);
    s.wake(a);
    assert_eq!(s.record(a), Some(record(FutureType::High, TaskState::Queued)));
    assert_eq!(s.next_runnable(WorkerPolicy::high()), Some(a));
}

#[test]
fn high_lane_is_drained_before_low_lane() {
    let mut s = Scheduler::new();
    let l0 = s.spawn(FutureType::Low);
    let h0 = s.spawn(FutureType::High);
    let l1 = s.spawn(FutureType::Low);
    let h1 = s.spawn(FutureType::High);
    let h2 = s.spawn(FutureType::High);
    let w = WorkerPolicy::high();
    assert_eq!(s.next_runnable(w), Some(h0));
    assert_eq!(s.queued(FutureType::Low), 2);
    assert_eq!(s.next_runnable(w), Some(h1));
    assert_eq!(s.next_runnable(w), Some(h2));
    assert_eq!(s.queued(FutureType::Low), 2);
    assert_eq!(s.next_runnable(w), Some(l0));
    assert_eq!(s.next_runnable(w), Some(l1));
    assert_eq!(s.next_runnable(w), None);
}

#[test]
fn high_arrival_overtakes_waiting_low_runnables() {
    let mut s = Scheduler::new();
    let l0 = s.spawn(FutureType::Low);
    let l1 = s.spawn(FutureType::Low);
    let w = WorkerPolicy::high();
    assert_eq!(s.next_runnable(w), Some(l0));
    let h0 = s.spawn(FutureType::High);
    assert_eq!(s.next_runnable(w), Some(h0));
    assert_eq!(s.next_runnable(w), Some(l1));
}

#[test]
fn low_worker_never_touches_the_high_lane() {
    let mut s = Scheduler::new();
    let h0 = s.spawn(FutureType::High);
    let l0 = s.spawn(FutureType::Low);
    let w = WorkerPolicy::low();
    assert_eq!(s.next_runnable(w), Some(l0));
    assert_eq!(s.next_runnable(w), None);
    assert_eq!(s.queued(FutureType::High), 1);
    assert_eq!(s.record(h0), Some(record(FutureType::High, TaskState::Queued)));
}

#[test]
fn fallback_can_be_configured_for_a_low_worker() {
    let mut s = Scheduler::new();
    let h0 = s.spawn(FutureType::High);
    let l0 = s.spawn(FutureType::Low);
    let w = WorkerPolicy { primary: FutureType::Low, fallback: true };
    assert_eq!(s.next_runnable(w), Some(l0));
    assert_eq!(s.next_runnable(w), Some(h0));
    assert_eq!(s.next_runnable(w), None);
}

#[test]
fn taken_unit_is_running_and_in_no_lane() {
    let mut s = Scheduler::new();
    let a = s.spawn(FutureType::High);
    assert_eq!(s.next_runnable(WorkerPolicy::high()), Some(a));
    assert_eq!(s.record(a), Some(record(FutureType::High, TaskState::Running)));
    assert_eq!(s.queued(FutureType::High), 0);
    assert_eq!(s.next_runnable(WorkerPolicy::high()), None);
}

#[test]
fn pending_without_resumption_goes_dormant() {
    let mut s = Scheduler::new();
    let a = s.spawn(FutureType::Low);
    s.next_runnable(WorkerPolicy::low());
    s.settle(a, PollOutcome::Pending);
    assert_eq!(s.record(a), Some(record(FutureType::Low, TaskState::Dormant)));
    assert_eq!(s.queued(FutureType::Low), 0);
    assert_eq!(s.next_runnable(WorkerPolicy::low()), None);
}

#[test]
fn resumption_queues_a_dormant_unit_on_its_own_lane() {
    let mut s = Scheduler::new();
    let a = s.spawn(FutureType::High);
    let b = s.spawn(FutureType::High);
    assert_eq!(s.next_runnable(WorkerPolicy::high()), Some(a));
    s.settle(a, PollOutcome::Pending);
    s.wake(a);
    assert_eq!(s.record(a), Some(record(FutureType::High, TaskState::Queued)));
    assert_eq!(s.queued(FutureType::High), 2);
    assert_eq!(s.queued(FutureType::Low), 0);
    assert_eq!(s.next_runnable(WorkerPolicy::high()), Some(b));
    assert_eq!(s.next_runnable(WorkerPolicy::high()), Some(a));
}

#[test]
fn resumption_during_a_poll_takes_effect_when_the_poll_is_settled() {
    let mut s = Scheduler::new();
    let a = s.spawn(FutureType::Low);
    s.next_runnable(WorkerPolicy::low());
    s.wake(a);
    assert_eq!(
        s.record(a),
        Some(TaskRecord {
            priority: FutureType::Low,
            state: TaskState::Running,
            woken: true,
            detached: false
        })
    );
    assert_eq!(s.queued(FutureType::Low), 0);
    assert_eq!(s.next_runnable(WorkerPolicy::low()), None);
    s.settle(a, PollOutcome::Pending);
    assert_eq!(s.record(a), Some(record(FutureType::Low, TaskState::Queued)));
    assert_eq!(s.next_runnable(WorkerPolicy::low()), Some(a));
}

#[test]
fn repeated_resumption_queues_one_runnable_only() {
    let mut s = Scheduler::new();
    let a = s.spawn(FutureType::Low);
    s.wake(a);
    s.wake(a);
    assert_eq!(s.queued(FutureType::Low), 1);
    s.next_runnable(WorkerPolicy::low());
    s.wake(a);
    s.wake(a);
    s.settle(a, PollOutcome::Pending);
    s.wake(a);
    assert_eq!(s.queued(FutureType::Low), 1);
    assert_eq!(s.next_runnable(WorkerPolicy::low()), Some(a));
    assert_eq!(s.next_runnable(WorkerPolicy::low()), None);
}

#[test]
fn resumption_after_completion_is_a_no_op() {
    let mut s = Scheduler::new();
    let a = s.spawn(FutureType::High);
    s.next_runnable(WorkerPolicy::high());
    s.settle(a, PollOutcome::Ready);
    assert_eq!(s.record(a), Some(record(FutureType::High, TaskState::Completed)));
    s.wake(a);
    assert_eq!(s.record(a), Some(record(FutureType::High, TaskState::Completed)));
    assert_eq!(s.queued(FutureType::High), 0);
    s.wake(99);
    assert_eq!(s.task_count(), 1);
}

#[test]
fn ready_with_a_resumption_still_completes() {
    let mut s = Scheduler::new();
    let a = s.spawn(FutureType::High);
    s.next_runnable(WorkerPolicy::high());
    s.wake(a);
    s.settle(a, PollOutcome::Ready);
    assert_eq!(s.record(a), Some(record(FutureType::High, TaskState::Completed)));
    assert_eq!(s.queued(FutureType::High), 0);
}

#[test]
fn panicked_poll_fails_the_unit_and_nothing_else() {
    let mut s = Scheduler::new();
    let a = s.spawn(FutureType::Low);
    let b = s.spawn(FutureType::Low);
    assert_eq!(s.next_runnable(WorkerPolicy::low()), Some(a));
    s.settle(a, PollOutcome::Panicked);
    assert_eq!(s.record(a), Some(record(FutureType::Low, TaskState::Panicked)));
    assert_eq!(s.record(b), Some(record(FutureType::Low, TaskState::Queued)));
    assert_eq!(s.next_runnable(WorkerPolicy::low()), Some(b));
    s.wake(a);
    s.settle(a, PollOutcome::Ready);
    assert_eq!(s.record(a), Some(record(FutureType::Low, TaskState::Panicked)));
}

#[test]
fn report_for_a_unit_that_is_not_running_is_dropped() {
    let mut s = Scheduler::new();
    let a = s.spawn(FutureType::Low);
    s.settle(a, PollOutcome::Ready);
    assert_eq!(s.record(a), Some(record(FutureType::Low, TaskState::Queued)));
    s.settle(5, PollOutcome::Ready);
    assert_eq!(s.queued(FutureType::Low), 1);
}

#[test]
fn detaching_marks_the_unit_and_keeps_its_place() {
    let mut s = Scheduler::new();
    let a = s.spawn(FutureType::Low);
    let b = s.spawn(FutureType::Low);
    s.detach(b);
    assert_eq!(
        s.record(b),
        Some(TaskRecord {
            priority: FutureType::Low,
            state: TaskState::Queued,
            woken: false,
            detached: true
        })
    );
    assert_eq!(s.queued(FutureType::Low), 2);
    assert_eq!(s.next_runnable(WorkerPolicy::low()), Some(a));
    assert_eq!(s.next_runnable(WorkerPolicy::low()), Some(b));
    s.detach(17);
    assert_eq!(s.task_count(), 2);
}
