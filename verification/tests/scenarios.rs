use pool::ThreadPool;

// A pool of two workers, three tasks that each record their own index:
// after teardown the log holds each index exactly once, and teardown has
// returned only after all three are visible.
#[test]
fn two_workers_three_tasks_all_recorded_once() {
    let mut p = ThreadPool::new(2).unwrap();
    for t in 0..3u64 {
        p.execute(t).unwrap();
    }
    p.shutdown();
    let log = p.executed_log();
    assert_eq!(log.len(), 3);
    for t in 0..3u64 {
        assert_eq!(log.iter().filter(|&&x| x == t).count(), 1);
    }
    assert!(p.all_stopped());
}

// A single worker serializes its tasks: a slow task holds the only worker,
// so a task submitted after it runs strictly after it.
#[test]
fn one_worker_serializes_tasks_in_submission_order() {
    let mut p = ThreadPool::new(1).unwrap();
    p.execute(100).unwrap();
    p.execute(200).unwrap();
    assert_eq!(p.step(0), Some(100));
    assert!(!p.executed_log().contains(&200));
    assert_eq!(p.step(0), Some(200));
    p.shutdown();
    assert_eq!(p.executed_log(), &vec![100, 200]);
}

// Two tasks that each bump a shared counter: the final count equals the
// number of submitted increments, however delivery is interleaved.
#[test]
fn two_increments_count_twice() {
    let mut counter: u64 = 0;
    let mut p = ThreadPool::new(2).unwrap();
    p.execute(1).unwrap();
    p.execute(1).unwrap();
    p.shutdown();
    for _ in p.executed_log() {
        counter += 1;
    }
    assert_eq!(counter, 2);
}

// Tasks submitted before shutdown all run even when no worker has taken a
// turn yet: nothing is dropped on teardown.
#[test]
fn no_task_is_dropped_on_teardown() {
    let mut p = ThreadPool::new(4).unwrap();
    for t in [9u64, 3, 9, 7] {
        p.execute(t).unwrap();
    }
    p.shutdown();
    assert_eq!(p.executed_log(), &vec![9, 3, 9, 7]);
}
