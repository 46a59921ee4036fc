//! The message protocol of the task queue.
//!
//! A single conduit carries both work and termination signals, so ordering
//! between them is exactly the order in which they were placed on the queue.

use vstd::prelude::*;

verus! {

/// One entry of the task queue: either a unit of work, carried as an opaque
/// task token, or a termination signal for exactly one worker.
#[derive(Clone, Copy, Debug, PartialEq, Eq, Structural)]
pub enum Message {
    /// Run the task identified by this token.
    Execute(u64),
    /// Stop: the worker that receives this signal terminates.
    Shutdown,
}

/// What a worker does with a received message.
#[derive(Clone, Copy, Debug, PartialEq, Eq, Structural)]
pub enum WorkerAction {
    /// Invoke the task synchronously on this worker's thread.
    Run(u64),
    /// Leave the receive loop; the worker performs no further dequeues.
    Stop,
}

/// The decision a worker takes on each received message: work is run,
/// a shutdown signal ends the loop.  A worker never drops a task and never
/// keeps running past a shutdown signal.
pub fn worker_step(m: &Message) -> (a: WorkerAction)
    ensures
        forall|t: u64| m == Message::Execute(t) ==> a == WorkerAction::Run(t),
        m is Shutdown ==> a == WorkerAction::Stop,
{
    match m {
        Message::Execute(t) => WorkerAction::Run(*t),
        Message::Shutdown => WorkerAction::Stop,
    }
}

/// The task tokens carried by a sequence of messages, in queue order;
/// shutdown signals carry no task.
pub open spec fn task_ids(q: Seq<Message>) -> Seq<u64>
    decreases q.len(),
{
    if q.len() == 0 {
        Seq::empty()
    } else {
        match q[0] {
            Message::Execute(t) => seq![t] + task_ids(q.drop_first()),
            Message::Shutdown => task_ids(q.drop_first()),
        }
    }
}

/// How many shutdown signals a sequence of messages holds.
pub open spec fn shutdown_count(q: Seq<Message>) -> nat
    decreases q.len(),
{
    if q.len() == 0 {
        0
    } else {
        match q[0] {
            Message::Execute(_) => shutdown_count(q.drop_first()),
            Message::Shutdown => shutdown_count(q.drop_first()) + 1,
        }
    }
}

/// Whether every shutdown signal sits behind every task in the queue.
/// This holds throughout teardown, because the shutdown signals are sent
/// only after submission has been closed: FIFO order then guarantees that
/// queued tasks are delivered before any worker is told to stop.
pub open spec fn shutdowns_at_back(q: Seq<Message>) -> bool {
    forall|i: int, j: int|
        #![trigger q[i], q[j]]
        0 <= i <= j < q.len() && q[i] is Shutdown ==> q[j] is Shutdown
}

/// A queue without shutdown signals consists of tasks alone.
pub proof fn lemma_no_shutdowns(q: Seq<Message>)
    requires
        shutdown_count(q) == 0,
    ensures
        forall|i: int| 0 <= i < q.len() ==> (#[trigger] q[i]) is Execute,
    decreases q.len(),
{
    if q.len() > 0 {
        lemma_no_shutdowns(q.drop_first());
        assert(forall|i: int| 1 <= i < q.len() ==> (#[trigger] q[i]) == q.drop_first()[i - 1]);
    }
}

/// A queue of shutdown signals alone carries no task.
pub proof fn lemma_task_ids_all_shutdown(q: Seq<Message>)
    requires
        forall|i: int| 0 <= i < q.len() ==> (#[trigger] q[i]) is Shutdown,
    ensures
        task_ids(q) == Seq::<u64>::empty(),
    decreases q.len(),
{
    if q.len() > 0 {
        assert(forall|i: int|
            0 <= i < q.drop_first().len() ==> (#[trigger] q.drop_first()[i]) == q[i + 1]);
        lemma_task_ids_all_shutdown(q.drop_first());
    }
}

/// Every queued message is a task or a shutdown signal, so the tasks and
/// the signals together account for the whole queue.
pub proof fn lemma_queue_accounted(q: Seq<Message>)
    ensures
        task_ids(q).len() + shutdown_count(q) == q.len(),
    decreases q.len(),
{
    if q.len() > 0 {
        lemma_queue_accounted(q.drop_first());
    }
}

/// Appending a message on the producer side leaves the tasks already queued
/// where they are: a new task goes to the back, a shutdown signal adds none.
pub proof fn lemma_task_ids_push(q: Seq<Message>, m: Message)
    ensures
        m is Execute ==> task_ids(q.push(m)) == task_ids(q).push(m->Execute_0),
        m is Shutdown ==> task_ids(q.push(m)) == task_ids(q),
    decreases q.len(),
{
    let p = q.push(m);
    assert(p.len() == q.len() + 1);
    if q.len() == 0 {
        assert(p[0] == m);
        assert(p.drop_first() =~= Seq::<Message>::empty());
        if m is Execute {
            assert(task_ids(p) == seq![m->Execute_0] + task_ids(p.drop_first()));
            assert(task_ids(p) =~= task_ids(q).push(m->Execute_0));
        } else {
            assert(task_ids(p) == task_ids(p.drop_first()));
            assert(task_ids(p) =~= task_ids(q));
        }
    } else {
        assert(p[0] == q[0]);
        assert(p.drop_first() =~= q.drop_first().push(m));
        lemma_task_ids_push(q.drop_first(), m);
        if m is Execute {
            assert(task_ids(p) =~= task_ids(q).push(m->Execute_0));
        } else {
            assert(task_ids(p) =~= task_ids(q));
        }
    }
}

/// Appending a message changes the number of queued shutdown signals by one
/// exactly when the message is a shutdown signal.
pub proof fn lemma_shutdown_count_push(q: Seq<Message>, m: Message)
    ensures
        m is Execute ==> shutdown_count(q.push(m)) == shutdown_count(q),
        m is Shutdown ==> shutdown_count(q.push(m)) == shutdown_count(q) + 1,
    decreases q.len(),
{
    let p = q.push(m);
    assert(p.len() == q.len() + 1);
    if q.len() == 0 {
        assert(p[0] == m);
        assert(p.drop_first() =~= Seq::<Message>::empty());
        assert(shutdown_count(p.drop_first()) == 0);
        assert(shutdown_count(q) == 0);
    } else {
        assert(p[0] == q[0]);
        assert(p.drop_first() =~= q.drop_first().push(m));
        lemma_shutdown_count_push(q.drop_first(), m);
        assert(shutdown_count(p) == shutdown_count(p.drop_first()) + (
        if p[0] is Shutdown {
            1nat
        } else {
            0nat
        }));
        assert(shutdown_count(q) == shutdown_count(q.drop_first()) + (
        if q[0] is Shutdown {
            1nat
        } else {
            0nat
        }));
    }
}

} // verus!
