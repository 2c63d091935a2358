//! A multi-executor, multi-reactor task runtime, and values that stay put once pinned.
//!
//! Executors own tasks and poll the ones that have been woken; a task that cannot
//! finish registers the waker its executor gave it with the reactor of its kind;
//! an event of that reactor wakes every registered waker, and a waker puts its task
//! back on the ready queue of exactly the executor it names.
pub mod keyed;
pub mod text;
pub mod types;
pub mod reactor;
pub mod task;
pub mod executor;
pub mod pinning;
pub mod laws;

pub use executor::{Executor, ExecutorRegistry, RunStep, SpawnRefused, TaskExecutor, init_advanced_runtime};
pub use pinning::{AsyncStateMachine, MyFuture, NotUnpinType, SelfLink, SelfReferential, SimpleFuture, UnpinType};
pub use reactor::{AnyReactor, FileReactor, NetworkReactor, Reactor, ReactorManager, TimerReactor};
pub use task::{AnyTask, FileTask, Future, NetworkTask, TimerTask};
pub use types::{ExecutorId, PollState, ReactorType, TaskId, Waker};
