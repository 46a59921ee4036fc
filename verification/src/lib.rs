//! A fixed-size worker-pool engine, modelled and verified.
//!
//! Callers enqueue parameterless units of work; a bounded set of long-lived
//! workers pull them from a single FIFO conduit and run them, so the number
//! of concurrently running tasks never exceeds the pool size.  This crate
//! verifies the engine's protocol: construction, submission, the shared
//! queue, the worker lifecycle, and coordinated shutdown.  Tasks are carried
//! as opaque tokens; a thin host layer runs the same protocol on real
//! threads and hands each token's work to a worker thread.

use vstd::prelude::*;

pub mod message;
pub mod channel;
pub mod worker;
pub mod thread_pool;

pub use message::Message;
pub use message::WorkerAction;
pub use message::worker_step;
pub use worker::Worker;
pub use worker::WorkerState;
pub use thread_pool::ThreadPool;

verus! {

/// Errors of the pool engine.
#[derive(Clone, Copy, Debug, PartialEq, Eq, Structural)]
pub enum PoolError {
    /// The pool was asked for zero workers: rejected before anything starts.
    ZeroSize,
    /// A task was submitted after shutdown began: the consumer side is gone.
    QueueClosed,
}

/// The configuration rule for a pool: a pool must have at least one worker.
/// A zero-size pool is rejected before any worker is created.
pub fn validate_size(size: usize) -> (r: Result<(), PoolError>)
    ensures
        r is Ok <==> size >= 1,
        r is Err ==> r == Result::<(), PoolError>::Err(PoolError::ZeroSize),
{
    if size == 0 {
        Err(PoolError::ZeroSize)
    } else {
        Ok(())
    }
}

} // verus!
