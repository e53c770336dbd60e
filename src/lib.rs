//! A fixed-size worker pool, modelled as a state machine.
//!
//! The library decides: which message a worker takes next, how a worker's
//! state moves, and what shutdown sends. The threads, the lock and the
//! waiting around it belong to the program that drives the pool.
pub mod message;
pub mod queue;
pub mod pool;

pub use message::{Action, Message, WorkerState};
pub use pool::{ThreadPool, Worker};
pub use queue::JobQueue;
