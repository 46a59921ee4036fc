use pool::channel::Channel;
use pool::message::Message;
use pool::message::WorkerAction;
use pool::message::worker_step;
use pool::validate_size;
use pool::worker::Worker;
use pool::worker::WorkerState;
use pool::PoolError;
use pool::ThreadPool;

#[test]
fn pool_of_each_size_starts_that_many_workers() {
    for n in 1..6usize {
        let p = ThreadPool::new(n).unwrap();
        assert_eq!(p.size(), n);
        assert_eq!(p.queue_len(), 0);
        assert!(p.executed_log().is_empty());
        assert!(!p.is_shut_down());
        assert!(!p.all_stopped());
    }
}

#[test]
fn zero_size_pool_is_a_configuration_error() {
    let r = ThreadPool::new(0);
    assert!(matches!(r, Err(PoolError::ZeroSize)));
}

#[test]
fn size_rule_rejects_only_zero() {
    assert_eq!(validate_size(0), Err(PoolError::ZeroSize));
    assert_eq!(validate_size(1), Ok(()));
    assert_eq!(validate_size(64), Ok(()));
}

#[test]
fn submitted_tasks_queue_in_order() {
    let mut p = ThreadPool::new(2).unwrap();
    assert_eq!(p.execute(10), Ok(()));
    assert_eq!(p.execute(11), Ok(()));
    assert_eq!(p.execute(12), Ok(()));
    assert_eq!(p.queue_len(), 3);
    assert!(p.executed_log().is_empty());
}

#[test]
fn each_task_is_delivered_exactly_once() {
    let mut p = ThreadPool::new(1).unwrap();
    p.execute(5).unwrap();
    p.execute(6).unwrap();
    p.execute(7).unwrap();
    assert_eq!(p.step(0), Some(5));
    assert_eq!(p.step(0), Some(6));
    assert_eq!(p.step(0), Some(7));
    assert_eq!(p.step(0), None);
    assert_eq!(p.executed_log(), &vec![5, 6, 7]);
}

#[test]
fn a_step_on_an_empty_queue_delivers_nothing() {
    let mut p = ThreadPool::new(3).unwrap();
    assert_eq!(p.step(2), None);
    assert_eq!(p.queue_len(), 0);
    assert!(p.executed_log().is_empty());
}

#[test]
fn any_worker_may_claim_the_next_task() {
    let mut p = ThreadPool::new(2).unwrap();
    p.execute(1).unwrap();
    p.execute(2).unwrap();
    assert_eq!(p.step(1), Some(1));
    assert_eq!(p.step(0), Some(2));
    assert_eq!(p.executed_log(), &vec![1, 2]);
}

#[test]
fn shutdown_runs_every_queued_task_before_returning() {
    let mut p = ThreadPool::new(2).unwrap();
    for t in 0..5u64 {
        p.execute(t).unwrap();
    }
    p.shutdown();
    assert_eq!(p.executed_log(), &vec![0, 1, 2, 3, 4]);
    assert_eq!(p.queue_len(), 0);
    assert!(p.all_stopped());
}

#[test]
fn begin_shutdown_sends_one_signal_per_worker() {
    let mut p = ThreadPool::new(3).unwrap();
    p.execute(8).unwrap();
    p.execute(9).unwrap();
    assert_eq!(p.queue_len(), 2);
    p.begin_shutdown();
    assert!(p.is_shut_down());
    assert_eq!(p.queue_len(), 2 + 3);
    for w in 0..3usize {
        p.join_worker(w);
    }
    assert!(p.all_stopped());
    assert_eq!(p.queue_len(), 0);
    assert_eq!(p.executed_log(), &vec![8, 9]);
}

#[test]
fn submission_after_shutdown_is_refused() {
    let mut p = ThreadPool::new(2).unwrap();
    p.execute(1).unwrap();
    p.shutdown();
    let r = p.execute(2);
    assert_eq!(r, Err(PoolError::QueueClosed));
    assert_eq!(p.executed_log(), &vec![1]);
    assert_eq!(p.queue_len(), 0);
}

#[test]
fn joining_a_joined_worker_is_a_no_op() {
    let mut p = ThreadPool::new(2).unwrap();
    p.execute(3).unwrap();
    p.shutdown();
    assert!(p.all_stopped());
    p.join_worker(0);
    p.join_worker(0);
    assert!(p.all_stopped());
    assert_eq!(p.executed_log(), &vec![3]);
}

#[test]
fn channel_delivers_in_fifo_order() {
    let mut c = Channel::new();
    assert_eq!(c.recv(), None);
    c.send(Message::Execute(1));
    c.send(Message::Shutdown);
    c.send(Message::Execute(2));
    assert_eq!(c.len(), 3);
    assert_eq!(c.recv(), Some(Message::Execute(1)));
    assert_eq!(c.recv(), Some(Message::Shutdown));
    assert_eq!(c.recv(), Some(Message::Execute(2)));
    assert_eq!(c.recv(), None);
    assert_eq!(c.len(), 0);
}

#[test]
fn a_worker_runs_work_and_stops_on_a_signal() {
    assert_eq!(worker_step(&Message::Execute(3)), WorkerAction::Run(3));
    assert_eq!(worker_step(&Message::Shutdown), WorkerAction::Stop);
}

#[test]
fn a_fresh_worker_runs_until_terminated_then_joins_once() {
    let mut w = Worker::new(4);
    assert_eq!(w.id, 4);
    assert!(w.is_running());
    assert!(!w.joined);
    w.terminate();
    assert!(!w.is_running());
    assert!(matches!(w.state, WorkerState::Terminated));
    w.join();
    assert!(w.joined);
    w.join();
    assert!(w.joined);
    assert_eq!(w.id, 4);
}
