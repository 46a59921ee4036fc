//! A worker: a long-lived execution unit of the pool.
//!
//! Each worker has a stable id, assigned at construction and never reused,
//! runs until it receives a shutdown signal, and owns a handle to its
//! execution thread that is consumed once joined: joining an already-joined
//! worker is a no-op, not an error.

use vstd::prelude::*;

verus! {

/// The lifecycle of a worker: it starts running and terminates exactly when
/// it receives a shutdown signal.  `Terminated` is terminal.
#[derive(Clone, Copy, Debug, PartialEq, Eq, Structural)]
pub enum WorkerState {
    Running,
    Terminated,
}

/// One worker of the pool.
#[derive(Clone, Copy, Debug)]
pub struct Worker {
    /// Stable id, `0..N-1` within a pool of size `N`.
    pub id: usize,
    /// Where the worker stands in its lifecycle.
    pub state: WorkerState,
    /// Whether the worker's thread handle has been consumed by a join.
    pub joined: bool,
}

impl Worker {
    /// A fresh worker: running, with its thread handle still owned.
    pub fn new(id: usize) -> (w: Worker)
        ensures
            w.id == id,
            w.state == WorkerState::Running,
            !w.joined,
    {
        Worker { id, state: WorkerState::Running, joined: false }
    }

    /// The worker receives its shutdown signal: it transitions to
    /// `Terminated` and will perform no further dequeues.
    pub fn terminate(&mut self)
        ensures
            final(self).id == old(self).id,
            final(self).state == WorkerState::Terminated,
            final(self).joined == old(self).joined,
    {
        self.state = WorkerState::Terminated;
    }

    /// Join the worker's thread: consume the handle.  A worker can be
    /// joined at most once; joining an already-joined worker changes
    /// nothing and is not an error.
    pub fn join(&mut self)
        requires
            old(self).state == WorkerState::Terminated,
        ensures
            final(self).id == old(self).id,
            final(self).state == old(self).state,
            final(self).joined,
    {
        if !self.joined {
            self.joined = true;
        }
    }

    /// Whether the worker is still running.
    pub fn is_running(&self) -> (r: bool)
        ensures
            r <==> self.state == WorkerState::Running,
    {
        matches!(self.state, WorkerState::Running)
    }
}

} // verus!
