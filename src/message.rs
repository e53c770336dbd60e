use vstd::prelude::*;

verus! {

/// An item of the job queue: a job to run, or the signal that stops one worker.
pub enum Message<J> {
    NewJob(J),
    Terminate,
}

/// Where a worker stands in its life.
#[derive(PartialEq, Eq, Structural, Clone, Copy, Debug)]
pub enum WorkerState {
    /// Waiting for the next message.
    Idle,
    /// Running the one job it took.
    Busy,
    /// Took a terminate message and left its loop.
    Terminated,
    /// Its job faulted; the worker is gone and never comes back.
    Faulted,
}

/// What a worker does after asking the queue for its next message.
pub enum Action<J> {
    /// Run this job to completion, then ask again.
    Run(J),
    /// Nothing is pending: block until something is sent, then ask again.
    Wait,
    /// Leave the loop: the worker is done.
    Exit,
}

} // verus!
