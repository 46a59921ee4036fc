//! The pool engine: a fixed set of workers around one shared FIFO queue.
//!
//! The pool owns the submission side of the queue and the workers.  Tasks
//! are carried as opaque tokens; running a task is recorded by appending
//! its token to the execution log.  The central invariant is conservation:
//! every submitted task is either already executed or still queued, in
//! submission order, so no task is lost and none runs twice.

use vstd::prelude::*;
use crate::PoolError;
use crate::channel::Channel;
use crate::message::Message;
use crate::message::task_ids;
use crate::message::shutdown_count;
use crate::message::shutdowns_at_back;
use crate::message::lemma_task_ids_push;
use crate::message::lemma_shutdown_count_push;
use crate::message::lemma_no_shutdowns;
use crate::message::lemma_task_ids_all_shutdown;
use crate::message::lemma_queue_accounted;
use crate::worker::Worker;
use crate::worker::WorkerState;

verus! {

/// How many of the workers are still running.
pub open spec fn running_count(ws: Seq<Worker>) -> nat
    decreases ws.len(),
{
    if ws.len() == 0 {
        0
    } else {
        (if ws[0].state == WorkerState::Running { 1nat } else { 0nat }) + running_count(
            ws.drop_first(),
        )
    }
}

/// A worker set in which every worker runs has as many running workers as
/// members.
pub proof fn lemma_running_count_all(ws: Seq<Worker>)
    requires
        forall|i: int| 0 <= i < ws.len() ==> (#[trigger] ws[i]).state == WorkerState::Running,
    ensures
        running_count(ws) == ws.len(),
    decreases ws.len(),
{
    if ws.len() > 0 {
        lemma_running_count_all(ws.drop_first());
    }
}

/// A worker set with one running member has a positive running count.
pub proof fn lemma_running_count_pos(ws: Seq<Worker>, i: int)
    requires
        0 <= i < ws.len(),
        ws[i].state == WorkerState::Running,
    ensures
        running_count(ws) >= 1,
    decreases ws.len(),
{
    if i > 0 {
        lemma_running_count_pos(ws.drop_first(), i - 1);
    }
}

/// Replacing one worker changes the running count exactly by the change at
/// that position.
pub proof fn lemma_running_count_update(ws: Seq<Worker>, i: int, w: Worker)
    requires
        0 <= i < ws.len(),
    ensures
        running_count(ws.update(i, w)) == running_count(ws) - (
        if ws[i].state == WorkerState::Running {
            1int
        } else {
            0int
        }) + (
        if w.state == WorkerState::Running {
            1int
        } else {
            0int
        }),
    decreases ws.len(),
{
    if i == 0 {
        assert(ws.update(0, w).drop_first() =~= ws.drop_first());
    } else {
        assert(ws.update(i, w).drop_first() =~= ws.drop_first().update(i - 1, w));
        lemma_running_count_update(ws.drop_first(), i - 1, w);
    }
}

/// The worker pool: `N` workers fixed at construction, one shared queue,
/// and the log of executed tasks.
pub struct ThreadPool {
    workers: Vec<Worker>,
    queue: Channel,
    log: Vec<u64>,
    submitted: Ghost<Seq<u64>>,
    shut_down: bool,
}

impl ThreadPool {
    /// How many workers the pool was built with.
    pub closed spec fn num_workers(&self) -> nat {
        self.workers@.len()
    }

    /// The pool's workers, in id order.
    pub closed spec fn worker_seq(&self) -> Seq<Worker> {
        self.workers@
    }

    /// The messages still queued, front first.
    pub closed spec fn queued(&self) -> Seq<Message> {
        self.queue@
    }

    /// Every task token ever submitted, in submission order.
    pub closed spec fn all_submitted(&self) -> Seq<u64> {
        self.submitted@
    }

    /// The tokens of the tasks that have run, in execution order.
    pub closed spec fn executed(&self) -> Seq<u64> {
        self.log@
    }

    /// The tokens of the tasks still queued, in delivery order.
    pub closed spec fn pending(&self) -> Seq<u64> {
        task_ids(self.queue@)
    }

    /// Whether shutdown has begun; afterwards submission is refused.
    pub closed spec fn is_closed(&self) -> bool {
        self.shut_down
    }

    /// Well-formedness of the pool.  Conservation is its heart: the
    /// submitted tasks are exactly the executed ones followed by the
    /// pending ones, in order.
    pub closed spec fn wf(&self) -> bool {
        &&& self.workers@.len() >= 1
        &&& forall|i: int|
            0 <= i < self.workers@.len() ==> (#[trigger] self.workers@[i]).id == i
        &&& self.submitted@ == self.log@ + task_ids(self.queue@)
        &&& !self.shut_down ==> {
            &&& shutdown_count(self.queue@) == 0
            &&& forall|i: int|
                0 <= i < self.workers@.len() ==> (#[trigger] self.workers@[i]).state
                    == WorkerState::Running && !self.workers@[i].joined
        }
        &&& self.shut_down ==> {
            &&& shutdown_count(self.queue@) == running_count(self.workers@)
            &&& shutdowns_at_back(self.queue@)
        }
    }

    /// Create a pool of `size` workers around one fresh queue.
    ///
    /// A size of zero is rejected with a configuration error before any
    /// worker is created; otherwise exactly `size` workers are started, with
    /// ids `0..size`, the queue is empty, and nothing has been submitted
    /// or executed yet.
    pub fn new(size: usize) -> (r: Result<ThreadPool, PoolError>)
        ensures
            size == 0 ==> r == Result::<ThreadPool, PoolError>::Err(PoolError::ZeroSize),
            size >= 1 ==> r is Ok && {
                let p = r->Ok_0;
                &&& p.wf()
                &&& p.num_workers() == size
                &&& forall|i: int|
                    0 <= i < size ==> (#[trigger] p.worker_seq()[i]).state
                        == WorkerState::Running && p.worker_seq()[i].id == i
                        && !p.worker_seq()[i].joined
                &&& p.queued() == Seq::<Message>::empty()
                &&& p.all_submitted() == Seq::<u64>::empty()
                &&& p.executed() == Seq::<u64>::empty()
                &&& !p.is_closed()
            },
    {
        if size == 0 {
            return Err(PoolError::ZeroSize);
        }
        let mut workers: Vec<Worker> = Vec::new();
        for id in 0..size
            invariant
                workers@.len() == id,
                forall|i: int|
                    0 <= i < id ==> (#[trigger] workers@[i]).id == i && workers@[i].state
                        == WorkerState::Running && !workers@[i].joined,
        {
            workers.push(Worker::new(id));
        }
        let pool = ThreadPool {
            workers,
            queue: Channel::new(),
            log: Vec::new(),
            submitted: Ghost(Seq::empty()),
            shut_down: false,
        };
        Ok(pool)
    }

    /// How many workers the pool has.
    pub fn size(&self) -> (n: usize)
        ensures
            n == self.num_workers(),
    {
        self.workers.len()
    }

    /// How many messages are still queued.
    pub fn queue_len(&self) -> (n: usize)
        ensures
            n == self.queued().len(),
    {
        self.queue.len()
    }

    /// The log of executed task tokens, in execution order.
    pub fn executed_log(&self) -> (r: &Vec<u64>)
        ensures
            r@ == self.executed(),
    {
        &self.log
    }

    /// Whether shutdown has begun.
    pub fn is_shut_down(&self) -> (r: bool)
        ensures
            r == self.is_closed(),
    {
        self.shut_down
    }

    /// Submit one task to the pool: place it at the back of the queue.
    ///
    /// Succeeds exactly as long as shutdown has not begun; afterwards the
    /// consumer side is gone and the submission is refused unchanged.  On
    /// success the task joins the queue behind everything already queued
    /// and nothing else moves.
    pub fn execute(&mut self, task: u64) -> (r: Result<(), PoolError>)
        requires
            old(self).wf(),
        ensures
            final(self).wf(),
            r is Ok <==> !old(self).is_closed(),
            old(self).is_closed() ==> r == Result::<(), PoolError>::Err(PoolError::QueueClosed)
                && *final(self) == *old(self),
            !old(self).is_closed() ==> {
                &&& final(self).queued() == old(self).queued().push(Message::Execute(task))
                &&& final(self).pending() == old(self).pending().push(task)
                &&& final(self).all_submitted() == old(self).all_submitted().push(task)
                &&& final(self).executed() == old(self).executed()
                &&& final(self).worker_seq() == old(self).worker_seq()
                &&& final(self).num_workers() == old(self).num_workers()
                &&& !final(self).is_closed()
            },
    {
        if self.shut_down {
            return Err(PoolError::QueueClosed);
        }
        proof {
            lemma_task_ids_push(self.queue@, Message::Execute(task));
            lemma_shutdown_count_push(self.queue@, Message::Execute(task));
        }
        self.queue.send(Message::Execute(task));
        proof {
            assert(self.submitted@.push(task) =~= self.log@ + task_ids(self.queue@));
        }
        self.submitted = Ghost(self.submitted@.push(task));
        Ok(())
    }

    /// One consumer turn, taken by one worker while the pool is live: the
    /// front message leaves the queue — delivered to that worker alone, never
    /// duplicated — and the task it carries runs.  Which worker takes the
    /// turn does not affect what is delivered; an empty queue delivers
    /// nothing and changes nothing.
    pub fn step(&mut self, worker: usize) -> (r: Option<u64>)
        requires
            old(self).wf(),
            !old(self).is_closed(),
            worker < old(self).num_workers(),
        ensures
            final(self).wf(),
            !final(self).is_closed(),
            old(self).queued().len() == 0 ==> {
                &&& r is None
                &&& final(self).queued() == old(self).queued()
                &&& final(self).executed() == old(self).executed()
                &&& final(self).all_submitted() == old(self).all_submitted()
                &&& final(self).worker_seq() == old(self).worker_seq()
            },
            old(self).queued().len() > 0 ==> {
                &&& r == Some(old(self).pending()[0])
                &&& final(self).executed() == old(self).executed().push(old(self).pending()[0])
                &&& final(self).pending() == old(self).pending().drop_first()
                &&& final(self).queued() == old(self).queued().drop_first()
                &&& final(self).all_submitted() == old(self).all_submitted()
                &&& final(self).worker_seq() == old(self).worker_seq()
            },
    {
        proof {
            lemma_no_shutdowns(self.queue@);
        }
        let m = self.queue.recv();
        match m {
            None => None,
            Some(Message::Execute(t)) => {
                proof {
                    assert(task_ids(old(self).queue@) == seq![t] + task_ids(self.queue@));
                    assert(shutdown_count(old(self).queue@) == shutdown_count(self.queue@));
                    assert(self.log@.push(t) + task_ids(self.queue@) =~= self.log@ + task_ids(
                        old(self).queue@,
                    ));
                    assert(task_ids(old(self).queue@)[0] == t);
                    assert(task_ids(old(self).queue@).drop_first() =~= task_ids(self.queue@));
                }
                self.log.push(t);
                Some(t)
            },
            Some(Message::Shutdown) => {
                proof {
                    assert(false);
                }
                None
            },
        }
    }

    /// Close submission and send exactly one shutdown signal per worker.
    ///
    /// The signals join the queue behind everything already queued, so FIFO
    /// delivery hands every previously submitted task to a worker before
    /// any worker is told to stop.  Nothing runs and no worker stops here:
    /// the queue simply grows by one signal per worker.
    pub fn begin_shutdown(&mut self)
        requires
            old(self).wf(),
            !old(self).is_closed(),
        ensures
            final(self).wf(),
            final(self).is_closed(),
            final(self).queued() == old(self).queued() + Seq::new(
                old(self).num_workers(),
                |i: int| Message::Shutdown,
            ),
            final(self).queued().len() == old(self).queued().len() + old(self).num_workers(),
            final(self).pending() == old(self).pending(),
            final(self).all_submitted() == old(self).all_submitted(),
            final(self).executed() == old(self).executed(),
            final(self).worker_seq() == old(self).worker_seq(),
            final(self).num_workers() == old(self).num_workers(),
    {
        let n = self.workers.len();
        for k in 0..n
            invariant
                n == self.workers@.len(),
                self.workers@ == old(self).workers@,
                self.log@ == old(self).log@,
                self.submitted@ == old(self).submitted@,
                self.shut_down == old(self).shut_down,
                self.queue@ == old(self).queue@ + Seq::new(
                    k as nat,
                    |i: int| Message::Shutdown,
                ),
                task_ids(self.queue@) == task_ids(old(self).queue@),
                shutdown_count(self.queue@) == k,
        {
            proof {
                lemma_task_ids_push(self.queue@, Message::Shutdown);
                lemma_shutdown_count_push(self.queue@, Message::Shutdown);
                assert(self.queue@.push(Message::Shutdown) =~= old(self).queue@ + Seq::new(
                    (k + 1) as nat,
                    |i: int| Message::Shutdown,
                ));
            }
            self.queue.send(Message::Shutdown);
        }
        self.shut_down = true;
        proof {
            lemma_running_count_all(self.workers@);
            lemma_no_shutdowns(old(self).queue@);
            let q = self.queue@;
            assert forall|i: int, j: int|
                0 <= i <= j < q.len() && (#[trigger] q[i]) is Shutdown implies (
            #[trigger] q[j]) is Shutdown by {
                if i < old(self).queue@.len() {
                    assert(q[i] == old(self).queue@[i]);
                } else {
                    assert(q[j] == Seq::new(
                        old(self).num_workers(),
                        |i: int| Message::Shutdown,
                    )[j - old(self).queue@.len()]);
                }
            }
            assert(shutdowns_at_back(q));
        }
    }

    /// Join one worker after shutdown has begun: wait until its loop exits,
    /// then consume its thread handle.
    ///
    /// A worker still running keeps taking messages from the front of the
    /// queue: it runs every task ahead of the first shutdown signal — all
    /// pending tasks, since every signal sits behind every task — then takes
    /// exactly one signal and terminates.  A worker that has already
    /// terminated is only joined, and joining twice changes nothing.
    pub fn join_worker(&mut self, w: usize)
        requires
            old(self).wf(),
            old(self).is_closed(),
            w < old(self).num_workers(),
        ensures
            final(self).wf(),
            final(self).is_closed(),
            final(self).num_workers() == old(self).num_workers(),
            final(self).all_submitted() == old(self).all_submitted(),
            final(self).worker_seq()[w as int].state == WorkerState::Terminated,
            final(self).worker_seq()[w as int].joined,
            forall|k: int|
                0 <= k < old(self).num_workers() && k != w
                    ==> final(self).worker_seq()[k] == old(self).worker_seq()[k],
            old(self).worker_seq()[w as int].state == WorkerState::Running ==> {
                &&& final(self).executed() == old(self).executed() + old(self).pending()
                &&& final(self).pending() == Seq::<u64>::empty()
            },
            old(self).worker_seq()[w as int].state == WorkerState::Terminated ==> {
                &&& final(self).executed() == old(self).executed()
                &&& final(self).queued() == old(self).queued()
            },
    {
        if !self.workers[w].is_running() {
            let ghost ws0 = self.workers@;
            let mut wk = self.workers[w];
            wk.join();
            proof {
                lemma_running_count_update(self.workers@, w as int, wk);
            }
            self.workers[w] = wk;
            proof {
                assert(forall|k: int| 0 <= k < ws0.len() && k != w ==> self.workers@[k] == ws0[k]);
            }
            return ;
        }
        let mut done = false;
        while !done
            invariant
                self.shut_down,
                w < self.workers@.len(),
                self.submitted@ == old(self).submitted@,
                self.submitted@ == self.log@ + task_ids(self.queue@),
                shutdown_count(self.queue@) == running_count(self.workers@),
                shutdowns_at_back(self.queue@),
                forall|i: int|
                    0 <= i < self.workers@.len() ==> (#[trigger] self.workers@[i]).id == i,
                !done ==> self.workers@ == old(self).workers@ && self.workers@[w as int].state
                    == WorkerState::Running,
                done ==> self.workers@ == old(self).workers@.update(
                    w as int,
                    (Worker {
                        id: w,
                        state: WorkerState::Terminated,
                        joined: old(self).workers@[w as int].joined,
                    }),
                ),
                done ==> task_ids(self.queue@) == Seq::<u64>::empty(),
            decreases self.queue@.len() + (if done { 0int } else { 1int }),
        {
            proof {
                if self.queue@.len() == 0 {
                    assert(shutdown_count(self.queue@) == 0);
                    lemma_running_count_pos(self.workers@, w as int);
                }
            }
            let ghost q0 = self.queue@;
            let m = self.queue.recv();
            match m {
                Some(Message::Execute(t)) => {
                    proof {
                        assert(task_ids(q0) == seq![t] + task_ids(self.queue@));
                        assert(shutdown_count(q0) == shutdown_count(self.queue@));
                        assert(self.log@.push(t) + task_ids(self.queue@) =~= self.log@
                            + task_ids(q0));
                        assert forall|i: int, j: int|
                            0 <= i <= j < self.queue@.len() && (#[trigger] self.queue@[i])
                                is Shutdown implies (#[trigger] self.queue@[j]) is Shutdown by {
                            assert(self.queue@[i] == q0[i + 1]);
                            assert(self.queue@[j] == q0[j + 1]);
                        }
                    }
                    self.log.push(t);
                },
                Some(Message::Shutdown) => {
                    proof {
                        assert(q0[0] is Shutdown);
                        assert forall|i: int|
                            0 <= i < self.queue@.len() implies (#[trigger] self.queue@[i])
                            is Shutdown by {
                            assert(self.queue@[i] == q0[i + 1]);
                        }
                        lemma_task_ids_all_shutdown(self.queue@);
                        assert(task_ids(q0) == task_ids(self.queue@));
                        assert(shutdown_count(q0) == shutdown_count(self.queue@) + 1);
                        assert forall|i: int, j: int|
                            0 <= i <= j < self.queue@.len() && (#[trigger] self.queue@[i])
                                is Shutdown implies (#[trigger] self.queue@[j]) is Shutdown by {
                            assert(self.queue@[j] == q0[j + 1]);
                        }
                    }
                    let mut wk = self.workers[w];
                    wk.terminate();
                    proof {
                        lemma_running_count_update(self.workers@, w as int, wk);
                    }
                    self.workers[w] = wk;
                    done = true;
                },
                None => {
                    proof {
                        assert(false);
                    }
                },
            }
        }
        let ghost ws0 = self.workers@;
        let mut wk = self.workers[w];
        wk.join();
        proof {
            lemma_running_count_update(self.workers@, w as int, wk);
        }
        self.workers[w] = wk;
        proof {
            assert(self.log@ + Seq::<u64>::empty() =~= self.log@);
            assert(self.log@ == old(self).log@ + task_ids(old(self).queue@));
            assert(forall|k: int|
                0 <= k < ws0.len() && k != w ==> self.workers@[k] == ws0[k]);
        }
    }

    /// Tear the pool down: close submission, send one shutdown signal per
    /// worker, then join every worker in id order.
    ///
    /// When this returns, every task submitted before the call has run,
    /// in submission order, the queue is empty, and every one of the pool's
    /// workers has terminated and been joined: teardown blocks until the
    /// last worker has exited, and no submitted task is dropped on the way.
    pub fn shutdown(&mut self)
        requires
            old(self).wf(),
            !old(self).is_closed(),
        ensures
            final(self).wf(),
            final(self).is_closed(),
            final(self).num_workers() == old(self).num_workers(),
            final(self).all_submitted() == old(self).all_submitted(),
            final(self).executed() == old(self).all_submitted(),
            final(self).pending() == Seq::<u64>::empty(),
            final(self).queued() == Seq::<Message>::empty(),
            forall|k: int|
                0 <= k < final(self).num_workers()
                    ==> (#[trigger] final(self).worker_seq()[k]).state == WorkerState::Terminated
                    && final(self).worker_seq()[k].joined,
    {
        self.begin_shutdown();
        let n = self.workers.len();
        for w in 0..n
            invariant
                n == self.workers@.len(),
                self.wf(),
                self.is_closed(),
                self.all_submitted() == old(self).all_submitted(),
                self.num_workers() == old(self).num_workers(),
                forall|k: int|
                    0 <= k < w ==> (#[trigger] self.worker_seq()[k]).state
                        == WorkerState::Terminated && self.worker_seq()[k].joined,
                w == 0 ==> self.worker_seq()[0].state == WorkerState::Running,
                w >= 1 ==> self.pending() == Seq::<u64>::empty(),
                w >= 1 ==> self.executed() == old(self).all_submitted(),
        {
            let ghost pre = *self;
            self.join_worker(w);
            proof {
                if pre.worker_seq()[w as int].state == WorkerState::Running {
                    assert(self.executed() == pre.executed() + pre.pending());
                    assert(pre.executed() + pre.pending() == pre.all_submitted());
                } else {
                    assert(self.pending() == pre.pending());
                }
            }
        }
        proof {
            lemma_queue_accounted(self.queue@);
            lemma_all_terminated_running_count(self.workers@);
            assert(self.queue@ =~= Seq::<Message>::empty());
        }
    }

    /// Whether every worker has terminated and had its thread joined.
    pub fn all_stopped(&self) -> (r: bool)
        ensures
            r <==> (forall|i: int|
                0 <= i < self.num_workers() ==> (#[trigger] self.worker_seq()[i]).state
                    == WorkerState::Terminated && self.worker_seq()[i].joined),
    {
        let n = self.workers.len();
        let mut i: usize = 0;
        while i < n
            invariant
                i <= n,
                n == self.workers@.len(),
                forall|k: int|
                    0 <= k < i ==> (#[trigger] self.workers@[k]).state == WorkerState::Terminated
                        && self.workers@[k].joined,
            decreases n - i,
        {
            let wk = self.workers[i];
            if wk.is_running() || !wk.joined {
                return false;
            }
            i = i + 1;
        }
        true
    }
}

/// A worker set in which every worker has terminated has no running member.
pub proof fn lemma_all_terminated_running_count(ws: Seq<Worker>)
    requires
        forall|i: int|
            0 <= i < ws.len() ==> (#[trigger] ws[i]).state == WorkerState::Terminated,
    ensures
        running_count(ws) == 0,
    decreases ws.len(),
{
    if ws.len() > 0 {
        lemma_all_terminated_running_count(ws.drop_first());
    }
}

/// Conservation of tasks: at every well-formed state, the tasks ever
/// submitted are exactly the executed ones followed by the pending ones,
/// in order.  No task is lost, none is duplicated, and delivery keeps
/// submission order.
pub proof fn lemma_tasks_conserved(p: &ThreadPool)
    requires
        p.wf(),
    ensures
        p.all_submitted() == p.executed() + p.pending(),
{
}

/// A drained pool has run every task ever submitted to it, exactly once
/// each, in submission order.
pub proof fn lemma_drained_pool_ran_all(p: &ThreadPool)
    requires
        p.wf(),
        p.pending() == Seq::<u64>::empty(),
    ensures
        p.executed() == p.all_submitted(),
{
    assert(p.executed() + Seq::<u64>::empty() =~= p.executed());
}

} // verus!
