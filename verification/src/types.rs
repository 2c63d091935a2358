//! Identifiers, wakers and poll results shared by executors, reactors and tasks.
use vstd::prelude::*;

verus! {

/// Identifies an executor in an [`crate::executor::ExecutorRegistry`].
pub type ExecutorId = usize;

/// Names a kind of reactor, such as `"network"`, `"file"` or `"timer"`.
pub type ReactorType = &'static str;

/// Identifies a task within the executor that spawned it.
pub type TaskId = usize;

/// Wakes one task of one executor: it names the task and the executor that owns it.
#[derive(Clone, Copy, PartialEq, Eq, Structural, Debug)]
pub struct Waker {
    pub task_id: TaskId,
    pub executor_id: ExecutorId,
}

impl Waker {
    /// The task this waker wakes.
    pub fn task_id(&self) -> (r: TaskId)
        ensures
            r == self.task_id,
    {
        self.task_id
    }

    /// The executor that owns the task.
    pub fn executor_id(&self) -> (r: ExecutorId)
        ensures
            r == self.executor_id,
    {
        self.executor_id
    }
}

/// What a poll of a future gives: its output, or that it must be polled again.
#[derive(Debug)]
pub enum PollState<T> {
    Ready(T),
    NotReady,
}

}
