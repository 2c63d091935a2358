//! Futures: the trait that tasks implement, and the three tasks of this library,
//! each of which waits for one event of its reactor and then completes.
use vstd::prelude::*;
use crate::reactor::{Reactor, ReactorManager, ReactorState, with_waker};
use crate::text::{format_with_number, with_number};
use crate::types::{PollState, TaskId, Waker};

verus! {

/// A computation that an executor drives to completion by polling it. Each future
/// carries its own task identifier, under which executors keep, wake and report it.
pub trait Future: Sized {
    type Output;

    /// The future's own task identifier.
    spec fn spec_task_id(&self) -> TaskId;

    /// Whether the next poll answers `Ready`.
    spec fn is_ready(&self) -> bool;

    /// Whether `out` is an output that a poll of this future may answer.
    spec fn ready_output(&self, out: Self::Output) -> bool;

    /// Whether a poll with `waker` may turn this future into `post` and reactors
    /// described by `pre_r` into ones described by `post_r`.
    spec fn polled(&self, waker: Waker, pre_r: Map<Seq<char>, ReactorState>, post: Self, post_r: Map<Seq<char>, ReactorState>) -> bool;

    fn task_id(&self) -> (r: TaskId)
        ensures
            r == self.spec_task_id(),
    ;

    /// Advances the computation. A future that cannot finish yet registers
    /// `waker` with a reactor of `reactors` and answers `NotReady`. A poll never
    /// changes the future's task identifier.
    fn poll<R: Reactor>(&mut self, waker: &Waker, reactors: &mut ReactorManager<R>) -> (r: PollState<Self::Output>)
        requires
            old(reactors).wf(),
        ensures
            final(reactors).wf(),
            final(self).spec_task_id() == old(self).spec_task_id(),
            (r is Ready) == old(self).is_ready(),
            r matches PollState::Ready(out) ==> old(self).ready_output(out),
            old(self).polled(*waker, old(reactors).reactor_map(), *final(self), final(reactors).reactor_map()),
    ;
}

/// The text a task of the given kind reports when it completes.
pub open spec fn completion_text(kind_label: Seq<char>, task_id: TaskId) -> Seq<char> {
    with_number(kind_label, task_id as nat, " 已完成"@)
}


/// A task that waits for one network event, on the reactor of type `"network"`.
pub struct NetworkTask {
    task_id: TaskId,
    completed: bool,
}

impl NetworkTask {
    /// The type of the reactor every such task waits on.
    pub open spec fn spec_reactor_type(&self) -> Seq<char> {
        "network"@
    }

    /// Whether the task has seen its event, so that its next poll completes it.
    pub closed spec fn completed(&self) -> bool {
        self.completed
    }

    /// A task that has not yet waited.
    pub fn new(task_id: TaskId) -> (r: Self)
        ensures
            r.spec_task_id() == task_id,
            !r.completed(),
    {
        NetworkTask { task_id, completed: false }
    }
}

impl Future for NetworkTask {
    type Output = String;

    closed spec fn spec_task_id(&self) -> TaskId {
        self.task_id
    }

    open spec fn is_ready(&self) -> bool {
        self.completed()
    }

    open spec fn ready_output(&self, out: String) -> bool {
        out@ == completion_text("网络任务 "@, self.spec_task_id())
    }

    open spec fn polled(&self, waker: Waker, pre_r: Map<Seq<char>, ReactorState>, post: Self, post_r: Map<Seq<char>, ReactorState>) -> bool {
        if self.completed() {
            post == *self && post_r == pre_r
        } else {
            &&& post.completed()
            &&& post.spec_task_id() == self.spec_task_id()
            &&& post_r == with_waker(pre_r, self.spec_reactor_type(), self.spec_task_id(), waker)
        }
    }

    fn task_id(&self) -> (r: TaskId) {
        self.task_id
    }

    /// The first poll registers `waker` with the `"network"` reactor, if one is
    /// registered, and answers `NotReady`; every later poll answers the completion text.
    fn poll<R: Reactor>(&mut self, waker: &Waker, reactors: &mut ReactorManager<R>) -> (r: PollState<String>)
        ensures
            old(self).completed() ==> {
                &&& r matches PollState::Ready(s) && s@ == completion_text("网络任务 "@, old(self).spec_task_id())
                &&& *final(self) == *old(self)
                &&& final(reactors).reactor_map() == old(reactors).reactor_map()
            },
            !old(self).completed() ==> {
                &&& r is NotReady
                &&& final(self).completed()
                &&& final(reactors).reactor_map() == with_waker(
                    old(reactors).reactor_map(),
                    "network"@,
                    old(self).spec_task_id(),
                    *waker,
                )
            },
    {
        if self.completed {
            PollState::Ready(format_with_number("网络任务 ", self.task_id, " 已完成"))
        } else {
            reactors.register_waker("network", self.task_id, *waker);
            self.completed = true;
            PollState::NotReady
        }
    }
}

/// A task that waits for one file event, on the reactor of type `"file"`.
pub struct FileTask {
    task_id: TaskId,
    completed: bool,
}

impl FileTask {
    /// The type of the reactor every such task waits on.
    pub open spec fn spec_reactor_type(&self) -> Seq<char> {
        "file"@
    }

    /// Whether the task has seen its event, so that its next poll completes it.
    pub closed spec fn completed(&self) -> bool {
        self.completed
    }

    /// A task that has not yet waited.
    pub fn new(task_id: TaskId) -> (r: Self)
        ensures
            r.spec_task_id() == task_id,
            !r.completed(),
    {
        FileTask { task_id, completed: false }
    }
}

impl Future for FileTask {
    type Output = String;

    closed spec fn spec_task_id(&self) -> TaskId {
        self.task_id
    }

    open spec fn is_ready(&self) -> bool {
        self.completed()
    }

    open spec fn ready_output(&self, out: String) -> bool {
        out@ == completion_text("文件任务 "@, self.spec_task_id())
    }

    open spec fn polled(&self, waker: Waker, pre_r: Map<Seq<char>, ReactorState>, post: Self, post_r: Map<Seq<char>, ReactorState>) -> bool {
        if self.completed() {
            post == *self && post_r == pre_r
        } else {
            &&& post.completed()
            &&& post.spec_task_id() == self.spec_task_id()
            &&& post_r == with_waker(pre_r, self.spec_reactor_type(), self.spec_task_id(), waker)
        }
    }

    fn task_id(&self) -> (r: TaskId) {
        self.task_id
    }

    /// The first poll registers `waker` with the `"file"` reactor, if one is
    /// registered, and answers `NotReady`; every later poll answers the completion text.
    fn poll<R: Reactor>(&mut self, waker: &Waker, reactors: &mut ReactorManager<R>) -> (r: PollState<String>)
        ensures
            old(self).completed() ==> {
                &&& r matches PollState::Ready(s) && s@ == completion_text("文件任务 "@, old(self).spec_task_id())
                &&& *final(self) == *old(self)
                &&& final(reactors).reactor_map() == old(reactors).reactor_map()
            },
            !old(self).completed() ==> {
                &&& r is NotReady
                &&& final(self).completed()
                &&& final(reactors).reactor_map() == with_waker(
                    old(reactors).reactor_map(),
                    "file"@,
                    old(self).spec_task_id(),
                    *waker,
                )
            },
    {
        if self.completed {
            PollState::Ready(format_with_number("文件任务 ", self.task_id, " 已完成"))
        } else {
            reactors.register_waker("file", self.task_id, *waker);
            self.completed = true;
            PollState::NotReady
        }
    }
}

/// A task that waits for one timer event, on the reactor of type `"timer"`.
pub struct TimerTask {
    task_id: TaskId,
    completed: bool,
}

impl TimerTask {
    /// The type of the reactor every such task waits on.
    pub open spec fn spec_reactor_type(&self) -> Seq<char> {
        "timer"@
    }

    /// Whether the task has seen its event, so that its next poll completes it.
    pub closed spec fn completed(&self) -> bool {
        self.completed
    }

    /// A task that has not yet waited.
    pub fn new(task_id: TaskId) -> (r: Self)
        ensures
            r.spec_task_id() == task_id,
            !r.completed(),
    {
        TimerTask { task_id, completed: false }
    }
}

impl Future for TimerTask {
    type Output = String;

    closed spec fn spec_task_id(&self) -> TaskId {
        self.task_id
    }

    open spec fn is_ready(&self) -> bool {
        self.completed()
    }

    open spec fn ready_output(&self, out: String) -> bool {
        out@ == completion_text("定时器任务 "@, self.spec_task_id())
    }

    open spec fn polled(&self, waker: Waker, pre_r: Map<Seq<char>, ReactorState>, post: Self, post_r: Map<Seq<char>, ReactorState>) -> bool {
        if self.completed() {
            post == *self && post_r == pre_r
        } else {
            &&& post.completed()
            &&& post.spec_task_id() == self.spec_task_id()
            &&& post_r == with_waker(pre_r, self.spec_reactor_type(), self.spec_task_id(), waker)
        }
    }

    fn task_id(&self) -> (r: TaskId) {
        self.task_id
    }

    /// The first poll registers `waker` with the `"timer"` reactor, if one is
    /// registered, and answers `NotReady`; every later poll answers the completion text.
    fn poll<R: Reactor>(&mut self, waker: &Waker, reactors: &mut ReactorManager<R>) -> (r: PollState<String>)
        ensures
            old(self).completed() ==> {
                &&& r matches PollState::Ready(s) && s@ == completion_text("定时器任务 "@, old(self).spec_task_id())
                &&& *final(self) == *old(self)
                &&& final(reactors).reactor_map() == old(reactors).reactor_map()
            },
            !old(self).completed() ==> {
                &&& r is NotReady
                &&& final(self).completed()
                &&& final(reactors).reactor_map() == with_waker(
                    old(reactors).reactor_map(),
                    "timer"@,
                    old(self).spec_task_id(),
                    *waker,
                )
            },
    {
        if self.completed {
            PollState::Ready(format_with_number("定时器任务 ", self.task_id, " 已完成"))
        } else {
            reactors.register_waker("timer", self.task_id, *waker);
            self.completed = true;
            PollState::NotReady
        }
    }
}

}

verus! {

/// Any one of the tasks of this library, so that one executor can run all three kinds.
pub enum AnyTask {
    Network(NetworkTask),
    File(FileTask),
    Timer(TimerTask),
}

impl AnyTask {
    pub open spec fn spec_reactor_type(&self) -> Seq<char> {
        match self {
            AnyTask::Network(t) => t.spec_reactor_type(),
            AnyTask::File(t) => t.spec_reactor_type(),
            AnyTask::Timer(t) => t.spec_reactor_type(),
        }
    }

    pub open spec fn completed(&self) -> bool {
        match self {
            AnyTask::Network(t) => t.completed(),
            AnyTask::File(t) => t.completed(),
            AnyTask::Timer(t) => t.completed(),
        }
    }

    /// The words before the number in the task's completion text.
    pub open spec fn label(&self) -> Seq<char> {
        match self {
            AnyTask::Network(_) => "网络任务 "@,
            AnyTask::File(_) => "文件任务 "@,
            AnyTask::Timer(_) => "定时器任务 "@,
        }
    }
}

impl Future for AnyTask {
    type Output = String;

    open spec fn spec_task_id(&self) -> TaskId {
        match self {
            AnyTask::Network(t) => t.spec_task_id(),
            AnyTask::File(t) => t.spec_task_id(),
            AnyTask::Timer(t) => t.spec_task_id(),
        }
    }

    fn task_id(&self) -> (r: TaskId) {
        match self {
            AnyTask::Network(t) => t.task_id(),
            AnyTask::File(t) => t.task_id(),
            AnyTask::Timer(t) => t.task_id(),
        }
    }

    open spec fn is_ready(&self) -> bool {
        self.completed()
    }

    open spec fn ready_output(&self, out: String) -> bool {
        out@ == completion_text(self.label(), self.spec_task_id())
    }

    open spec fn polled(&self, waker: Waker, pre_r: Map<Seq<char>, ReactorState>, post: Self, post_r: Map<Seq<char>, ReactorState>) -> bool {
        if self.completed() {
            post == *self && post_r == pre_r
        } else {
            &&& post.completed()
            &&& post.spec_task_id() == self.spec_task_id()
            &&& post.spec_reactor_type() == self.spec_reactor_type()
            &&& post.label() == self.label()
            &&& post_r == with_waker(pre_r, self.spec_reactor_type(), self.spec_task_id(), waker)
        }
    }

    fn poll<R: Reactor>(&mut self, waker: &Waker, reactors: &mut ReactorManager<R>) -> (r: PollState<String>)
        ensures
            old(self).completed() ==> {
                &&& r matches PollState::Ready(s) && s@ == completion_text(old(self).label(), old(self).spec_task_id())
                &&& *final(self) == *old(self)
                &&& final(reactors).reactor_map() == old(reactors).reactor_map()
            },
            !old(self).completed() ==> {
                &&& r is NotReady
                &&& final(self).completed()
                &&& final(self).spec_reactor_type() == old(self).spec_reactor_type()
                &&& final(self).label() == old(self).label()
                &&& final(reactors).reactor_map() == with_waker(
                    old(reactors).reactor_map(),
                    old(self).spec_reactor_type(),
                    old(self).spec_task_id(),
                    *waker,
                )
            },
    {
        match self {
            AnyTask::Network(t) => t.poll(waker, reactors),
            AnyTask::File(t) => t.poll(waker, reactors),
            AnyTask::Timer(t) => t.poll(waker, reactors),
        }
    }
}

}
