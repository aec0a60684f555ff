use rustom_runtime::commons::{FutureType, Runtime};
use rustom_runtime::model::{WorkerPolicy, IDLE_BACKOFF_MS};

#[test]
fn default_sizing_leaves_two_cores_out() {
    let rt = Runtime::new(8);
    assert_eq!(rt.high_num, 6);
    assert_eq!(rt.low_num, 1);
}

#[test]
fn default_sizing_on_two_cores_has_no_high_worker() {
    let rt = Runtime::new(2);
    assert_eq!(rt.high_num, 0);
    assert_eq!(rt.low_num, 1);
}

#[test]
fn builders_override_one_count_each() {
    let rt = Runtime::new(8).with_high_num(4);
    assert_eq!((rt.high_num, rt.low_num), (4, 1));
    let rt = rt.with_low_num(2);
    assert_eq!((rt.high_num, rt.low_num), (4, 2));
    let rt = Runtime::new(16).with_low_num(3).with_high_num(5);
    assert_eq!((rt.high_num, rt.low_num), (5, 3));
}

#[test]
fn worker_pool_lists_high_workers_first() {
    let pool = Runtime::new(4).with_high_num(2).with_low_num(3).workers();
    assert_eq!(pool.len(), 5);
    for w in &pool[..2] {
        assert_eq!(*w, WorkerPolicy { primary: FutureType::High, fallback: true });
    }
    for w in &pool[2..] {
        assert_eq!(*w, WorkerPolicy { primary: FutureType::Low, fallback: false });
    }
}

#[test]
fn worker_pool_can_be_empty() {
    let pool = Runtime::new(2).with_low_num(0).workers();
    assert!(pool.is_empty());
}

#[test]
fn named_policies() {
    assert_eq!(WorkerPolicy::high(), WorkerPolicy { primary: FutureType::High, fallback: true });
    assert_eq!(WorkerPolicy::low(), WorkerPolicy { primary: FutureType::Low, fallback: false });
    assert_eq!(
        WorkerPolicy::only(FutureType::High),
        WorkerPolicy { primary: FutureType::High, fallback: false }
    );
}

#[test]
fn idle_backoff_is_a_tenth_of_a_second() {
    assert_eq!(IDLE_BACKOFF_MS, 100);
}
