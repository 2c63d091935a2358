//! Executors run tasks: they keep the tasks that are not finished, each under its
//! own task identifier, and poll the tasks that have been woken, in the order they
//! were woken.
use vstd::prelude::*;
use std::collections::{HashMap, VecDeque};
use crate::reactor::{Reactor, ReactorManager, ReactorState, lists_exactly};
use crate::types::ReactorType;
use crate::task::Future;
use crate::types::{ExecutorId, PollState, TaskId, Waker};

verus! {

broadcast use vstd::std_specs::hash::group_hash_axioms;

/// Something that can be told to run a task again, and that has a name.
pub trait TaskExecutor {
    spec fn spec_name(&self) -> Seq<char>;

    /// The identifiers of the tasks waiting to be polled, the next one first.
    spec fn ready_queue(&self) -> Seq<TaskId>;

    /// Puts `task_id` on the ready queue.
    fn wake_task(&mut self, task_id: TaskId)
        ensures
            final(self).ready_queue() == old(self).ready_queue().push(task_id),
            final(self).spec_name() == old(self).spec_name(),
    ;

    fn get_name(&self) -> (r: String)
        ensures
            r@ == self.spec_name(),
    ;
}

/// What one step of an executor did.
pub enum RunStep {
    /// The task was polled and finished with this output; it is gone from the executor.
    Completed { task_id: TaskId, output: String },
    /// The task was polled and is not finished; it stays, to be woken again.
    Pending { task_id: TaskId },
    /// The woken identifier names no task of this executor (the task had finished).
    Skipped { task_id: TaskId },
    /// Nothing is ready, and this many tasks wait to be woken.
    Waiting { pending: usize },
    /// Nothing is ready and no task is left.
    Finished,
}

/// The identifiers of the tasks that the wakers listed in `ws`, woken in that order, put
/// on the ready queue of executor `k`: those of the wakers that name `k`, in order.
pub open spec fn queued_for(ws: Seq<(TaskId, Waker)>, k: ExecutorId) -> Seq<TaskId>
    decreases ws.len(),
{
    if ws.len() == 0 {
        Seq::empty()
    } else {
        let rest = queued_for(ws.drop_last(), k);
        if ws.last().1.executor_id == k {
            rest.push(ws.last().1.task_id)
        } else {
            rest
        }
    }
}

/// Each waker of `ws` that names `k` has its task among those it queues for `k`.
pub proof fn lemma_queued_for_contains(ws: Seq<(TaskId, Waker)>, i: int)
    requires
        0 <= i < ws.len(),
    ensures
        queued_for(ws, ws[i].1.executor_id).contains(ws[i].1.task_id),
    decreases ws.len(),
{
    let k = ws[i].1.executor_id;
    if i == ws.len() - 1 {
        let q = queued_for(ws, k);
        assert(q[q.len() - 1] == ws[i].1.task_id);
    } else {
        lemma_queued_for_contains(ws.drop_last(), i);
        let rest = queued_for(ws.drop_last(), k);
        let j = choose|j: int| 0 <= j < rest.len() && rest[j] == ws[i].1.task_id;
        assert(queued_for(ws, k)[j] == ws[i].1.task_id);
    }
}

/// Why a task was not spawned; the task itself is handed back.
pub enum SpawnRefused<F> {
    /// No executor is registered under the identifier asked for.
    UnknownExecutor(F),
    /// The executor already keeps a task under the task's identifier.
    TaskIdInUse(F),
}

/// The waker that executor `e` hands to its task `t` when polling it.
pub open spec fn waker_for<F: Future<Output = String>>(e: Executor<F>, t: TaskId) -> Waker {
    Waker { task_id: t, executor_id: e.spec_id() }
}

/// What one step of running does, from executor `pre` and reactors `pre_r` to executor
/// `post` and reactors `post_r`, reporting `r`.
///
/// With nothing ready, nothing changes and the step reports `Finished` when no task is
/// left, else `Waiting` with the number of tasks left. Otherwise the identifier `t` woken
/// earliest leaves the front of the ready queue: if no task has it the step reports
/// `Skipped`; if the task is ready it is polled to completion and removed (`Completed`);
/// else it is polled and kept under the same identifier (`Pending`). Identity and name
/// never change.
pub open spec fn step_taken<F: Future<Output = String>>(
    pre: Executor<F>,
    post: Executor<F>,
    pre_r: Map<Seq<char>, ReactorState>,
    post_r: Map<Seq<char>, ReactorState>,
    r: RunStep,
) -> bool {
    &&& post.spec_id() == pre.spec_id()
    &&& post.spec_name() == pre.spec_name()
    &&& pre.ready_queue().len() == 0 ==> {
        &&& post.ready_queue() == pre.ready_queue()
        &&& post.tasks() == pre.tasks()
        &&& post_r == pre_r
        &&& if pre.tasks().len() == 0 {
            r is Finished
        } else {
            r == RunStep::Waiting { pending: pre.tasks().len() as usize }
        }
    }
    &&& pre.ready_queue().len() > 0 ==> {
        let t = pre.ready_queue().first();
        &&& post.ready_queue() == pre.ready_queue().drop_first()
        &&& !pre.tasks().contains_key(t) ==> {
            &&& r == RunStep::Skipped { task_id: t }
            &&& post.tasks() == pre.tasks()
            &&& post_r == pre_r
        }
        &&& pre.tasks().contains_key(t) && pre.tasks()[t].is_ready() ==> {
            &&& r matches RunStep::Completed { task_id, output } && task_id == t
                && pre.tasks()[t].ready_output(output)
            &&& post.tasks() == pre.tasks().remove(t)
            &&& exists|f: F| #[trigger] pre.tasks()[t].polled(waker_for(pre, t), pre_r, f, post_r)
        }
        &&& pre.tasks().contains_key(t) && !pre.tasks()[t].is_ready() ==> {
            &&& r == RunStep::Pending { task_id: t }
            &&& pre.tasks()[t].polled(waker_for(pre, t), pre_r, post.tasks()[t], post_r)
            &&& post.tasks().dom() == pre.tasks().dom()
            &&& forall|k: TaskId| k != t && #[trigger] pre.tasks().contains_key(k) ==> post.tasks()[k] == pre.tasks()[k]
        }
    }
}

/// Runs the tasks spawned on it, each kept under its own task identifier.
pub struct Executor<F> {
    id: ExecutorId,
    name: String,
    ready_queue: VecDeque<TaskId>,
    tasks: HashMap<TaskId, F>,
}

impl<F: Future<Output = String>> Executor<F> {
    pub closed spec fn spec_id(&self) -> ExecutorId {
        self.id
    }

    /// The tasks not yet finished, by identifier.
    pub closed spec fn tasks(&self) -> Map<TaskId, F> {
        self.tasks@
    }

    /// An executor holds finitely many tasks.
    pub proof fn lemma_tasks_finite(&self)
        ensures
            self.tasks().dom().finite(),
    {
        vstd::std_specs::hash::axiom_hashmap_view_finite_dom(self.tasks);
    }

    /// Every task is kept under its own identifier.
    pub closed spec fn wf(&self) -> bool {
        forall|k: TaskId| #[trigger] self.tasks@.contains_key(k) ==> self.tasks@[k].spec_task_id() == k
    }

    /// In a well-formed executor every task is kept under its own identifier.
    pub proof fn lemma_keyed_by_own_id(&self)
        requires
            self.wf(),
        ensures
            forall|k: TaskId| #[trigger] self.tasks().contains_key(k) ==> self.tasks()[k].spec_task_id() == k,
    {
    }

    /// An executor with no task, named `name`.
    pub fn new(id: ExecutorId, name: String) -> (r: Self)
        ensures
            r.wf(),
            r.spec_id() == id,
            r.spec_name() == name@,
            r.ready_queue() == Seq::<TaskId>::empty(),
            r.tasks() == Map::<TaskId, F>::empty(),
    {
        Executor { id, name, ready_queue: VecDeque::new(), tasks: HashMap::new() }
    }

    /// Adds `future` as a task, under its own identifier, puts that identifier at the
    /// back of the ready queue and returns it. A task is never dropped: when a task is
    /// already kept under that identifier, both stay as they are and `future` is handed
    /// back in `Err`.
    pub fn spawn(&mut self, future: F) -> (r: Result<TaskId, F>)
        requires
            old(self).wf(),
        ensures
            final(self).wf(),
            final(self).spec_id() == old(self).spec_id(),
            final(self).spec_name() == old(self).spec_name(),
            old(self).tasks().contains_key(future.spec_task_id()) ==> {
                &&& r == Err::<TaskId, F>(future)
                &&& *final(self) == *old(self)
            },
            !old(self).tasks().contains_key(future.spec_task_id()) ==> {
                &&& r == Ok::<TaskId, F>(future.spec_task_id())
                &&& final(self).tasks() == old(self).tasks().insert(future.spec_task_id(), future)
                &&& final(self).ready_queue() == old(self).ready_queue().push(future.spec_task_id())
            },
    {
        let task_id = future.task_id();
        if self.tasks.contains_key(&task_id) {
            return Err(future);
        }
        self.tasks.insert(task_id, future);
        self.ready_queue.push_back(task_id);
        Ok(task_id)
    }

    /// Takes the earliest woken task identifier off the front of the ready queue.
    fn pop_ready(&mut self) -> (r: Option<TaskId>)
        ensures
            old(self).ready_queue().len() == 0 ==> r is None && final(self).ready_queue() == old(self).ready_queue(),
            old(self).ready_queue().len() > 0 ==> r == Some(old(self).ready_queue().first())
                && final(self).ready_queue() == old(self).ready_queue().drop_first(),
            final(self).tasks() == old(self).tasks(),
            final(self).id == old(self).id,
            final(self).name == old(self).name,
    {
        let r = self.ready_queue.pop_front();
        proof {
            if old(self).ready_queue@.len() > 0 {
                assert(self.ready_queue@ =~= old(self).ready_queue@.drop_first());
            }
        }
        r
    }

    /// Takes the task `task_id` out of the executor, if it is there.
    fn get_future(&mut self, task_id: TaskId) -> (r: Option<F>)
        ensures
            r is Some == old(self).tasks().contains_key(task_id),
            r matches Some(f) ==> f == old(self).tasks()[task_id],
            final(self).tasks() == old(self).tasks().remove(task_id),
            final(self).ready_queue == old(self).ready_queue,
            final(self).id == old(self).id,
            final(self).name == old(self).name,
    {
        self.tasks.remove(&task_id)
    }

    /// The waker that puts `task_id` back on this executor's ready queue.
    fn create_waker(&self, task_id: TaskId) -> (w: Waker)
        ensures
            w == (Waker { task_id, executor_id: self.spec_id() }),
    {
        Waker { task_id, executor_id: self.id }
    }

    /// One step of running: polls the task woken earliest, or, when no task
    /// is ready, reports whether tasks are left to wait for.
    pub fn run_step<R: Reactor>(&mut self, reactors: &mut ReactorManager<R>) -> (r: RunStep)
        requires
            old(self).wf(),
            old(reactors).wf(),
        ensures
            final(self).wf(),
            final(reactors).wf(),
            final(self).spec_id() == old(self).spec_id(),
            final(self).spec_name() == old(self).spec_name(),
            step_taken(*old(self), *final(self), old(reactors).reactor_map(), final(reactors).reactor_map(), r),
    {
        match self.pop_ready() {
            Some(task_id) => {
                match self.get_future(task_id) {
                    Some(mut future) => {
                        let waker = self.create_waker(task_id);
                        match future.poll(&waker, reactors) {
                            PollState::Ready(output) => {
                                assert(waker == waker_for(*old(self), task_id));
                                assert(old(self).tasks()[task_id].polled(waker_for(*old(self), task_id), old(reactors).reactor_map(), future, reactors.reactor_map()));
                                RunStep::Completed { task_id, output }
                            },
                            PollState::NotReady => {
                                self.tasks.insert(task_id, future);
                                RunStep::Pending { task_id }
                            },
                        }
                    },
                    None => {
                        assert(self.tasks@ =~= old(self).tasks@);
                        RunStep::Skipped { task_id }
                    },
                }
            },
            None => {
                let pending = self.tasks.len();
                if pending > 0 {
                    RunStep::Waiting { pending }
                } else {
                    RunStep::Finished
                }
            },
        }
    }
}

impl<F: Future<Output = String>> TaskExecutor for Executor<F> {
    closed spec fn spec_name(&self) -> Seq<char> {
        self.name@
    }

    closed spec fn ready_queue(&self) -> Seq<TaskId> {
        self.ready_queue@
    }

    fn wake_task(&mut self, task_id: TaskId)
        ensures
            final(self).tasks() == old(self).tasks(),
            final(self).spec_id() == old(self).spec_id(),
            final(self).wf() == old(self).wf(),
    {
        self.ready_queue.push_back(task_id);
    }

    fn get_name(&self) -> (r: String) {
        self.name.clone()
    }
}

}

verus! {

/// Finds executors by their identifier, through a hash map. Each identifier names at
/// most one executor. A list beside the map keeps the identifiers in the order in which
/// they were first registered, which is the order in which they are listed.
pub struct ExecutorRegistry<F> {
    executors: HashMap<ExecutorId, Executor<F>>,
    order: Vec<ExecutorId>,
}

impl<F: Future<Output = String>> ExecutorRegistry<F> {
    /// The list holds each identifier of the map once and nothing else, and each
    /// executor is well formed.
    pub closed spec fn wf(&self) -> bool {
        &&& self.order@.no_duplicates()
        &&& forall|k: ExecutorId|
            #![trigger self.executors@.contains_key(k)]
            #![trigger self.order@.contains(k)]
            self.executors@.contains_key(k) <==> self.order@.contains(k)
        &&& forall|k: ExecutorId| #[trigger] self.executors@.contains_key(k) ==> self.executors@[k].wf()
    }

    /// The registered executors, by identifier.
    pub closed spec fn executor_map(&self) -> Map<ExecutorId, Executor<F>> {
        self.executors@
    }

    /// The registered identifiers, in the order they were first registered.
    pub closed spec fn ids(&self) -> Seq<ExecutorId> {
        self.order@
    }

    /// The registered identifiers are those of the map, each once.
    pub proof fn lemma_ids(&self)
        requires
            self.wf(),
        ensures
            self.ids().no_duplicates(),
            forall|k: ExecutorId| #[trigger] self.ids().contains(k) <==> self.executor_map().contains_key(k),
    {
    }

    /// Where `id` stands in the list of identifiers, if it is there.
    fn position(&self, id: ExecutorId) -> (r: Option<usize>)
        ensures
            match r {
                Some(i) => i < self.order@.len() && self.order@[i as int] == id,
                None => !self.order@.contains(id),
            },
    {
        let mut i: usize = 0;
        while i < self.order.len()
            invariant
                0 <= i <= self.order@.len(),
                forall|j: int| 0 <= j < i ==> self.order@[j] != id,
            decreases self.order@.len() - i,
        {
            if self.order[i] == id {
                return Some(i);
            }
            i = i + 1;
        }
        None
    }

    /// An empty registry.
    pub fn new() -> (r: Self)
        ensures
            r.wf(),
            r.executor_map() == Map::<ExecutorId, Executor<F>>::empty(),
            r.ids() == Seq::<ExecutorId>::empty(),
    {
        ExecutorRegistry { executors: HashMap::new(), order: Vec::new() }
    }

    /// Registers `executor` under `id`, replacing the executor registered under it before.
    /// A new identifier goes to the end of the order; a known one keeps its place.
    pub fn register_executor(&mut self, id: ExecutorId, executor: Executor<F>)
        requires
            old(self).wf(),
            executor.wf(),
        ensures
            final(self).wf(),
            final(self).executor_map() == old(self).executor_map().insert(id, executor),
            old(self).executor_map().contains_key(id) ==> final(self).ids() == old(self).ids(),
            !old(self).executor_map().contains_key(id) ==> final(self).ids() == old(self).ids().push(id),
    {
        let known = self.executors.contains_key(&id);
        self.executors.insert(id, executor);
        if !known {
            self.order.push(id);
            proof {
                assert forall|k: ExecutorId| #[trigger] self.order@.contains(k) <==> old(self).order@.contains(k) || k == id by {
                    if self.order@.contains(k) {
                        let j = choose|j: int| 0 <= j < self.order@.len() && self.order@[j] == k;
                        if j < old(self).order@.len() {
                            assert(old(self).order@[j] == k);
                        }
                    }
                    if old(self).order@.contains(k) {
                        let j = choose|j: int| 0 <= j < old(self).order@.len() && old(self).order@[j] == k;
                        assert(self.order@[j] == k);
                    }
                    if k == id {
                        assert(self.order@[old(self).order@.len() as int] == id);
                    }
                }
            }
        }
    }

    /// Removes the executor registered under `id` and returns it; `None`, with nothing
    /// changed, when no executor has that identifier. The others keep their order.
    pub fn remove_executor(&mut self, id: ExecutorId) -> (r: Option<Executor<F>>)
        requires
            old(self).wf(),
        ensures
            final(self).wf(),
            r is Some == old(self).executor_map().contains_key(id),
            r matches Some(e) ==> e == old(self).executor_map()[id],
            final(self).executor_map() == old(self).executor_map().remove(id),
            !old(self).executor_map().contains_key(id) ==> final(self).ids() == old(self).ids(),
            old(self).executor_map().contains_key(id) ==> exists|i: int|
                0 <= i < old(self).ids().len() && old(self).ids()[i] == id && final(self).ids() == old(self).ids().remove(i),
    {
        let r = self.executors.remove(&id);
        match r {
            Some(e) => {
                match self.position(id) {
                    Some(i) => {
                        let ghost pre = self.order@;
                        self.order.remove(i);
                        proof {
                            assert forall|k: ExecutorId| #[trigger] self.order@.contains(k) <==> pre.contains(k) && k != id by {
                                if self.order@.contains(k) {
                                    let j = choose|j: int| 0 <= j < self.order@.len() && self.order@[j] == k;
                                    let pj = if j < i { j } else { j + 1 };
                                    assert(pre[pj] == k);
                                }
                                if pre.contains(k) && k != id {
                                    let j = choose|j: int| 0 <= j < pre.len() && pre[j] == k;
                                    assert(j != i);
                                    let qj = if j < i { j } else { j - 1 };
                                    assert(self.order@[qj] == k);
                                }
                            }
                            assert(pre == old(self).ids());
                            assert(old(self).ids()[i as int] == id);
                            assert(self.ids() == old(self).ids().remove(i as int));
                        }
                        Some(e)
                    },
                    None => {
                        proof { assert(false); }
                        Some(e)
                    },
                }
            },
            None => {
                proof { assert(self.executors@ =~= old(self).executors@); }
                None
            },
        }
    }

    /// The executor registered under `id`, if any.
    pub fn get_executor(&self, id: ExecutorId) -> (r: Option<&Executor<F>>)
        requires
            self.wf(),
        ensures
            r is Some == self.executor_map().contains_key(id),
            r matches Some(e) ==> *e == self.executor_map()[id],
    {
        self.executors.get(&id)
    }

    /// Puts `task_id` at the back of the ready queue of the executor registered under
    /// `executor_id`. Returns whether such an executor is registered; when none is,
    /// nothing changes.
    pub fn wake_task(&mut self, executor_id: ExecutorId, task_id: TaskId) -> (found: bool)
        requires
            old(self).wf(),
        ensures
            final(self).wf(),
            final(self).ids() == old(self).ids(),
            found == old(self).executor_map().contains_key(executor_id),
            !found ==> final(self).executor_map() == old(self).executor_map(),
            found ==> woken(old(self).executor_map(), final(self).executor_map(), executor_id, task_id),
    {
        match self.executors.remove(&executor_id) {
            Some(mut e) => {
                e.wake_task(task_id);
                self.executors.insert(executor_id, e);
                proof { assert(self.executors@.dom() =~= old(self).executors@.dom()); }
                true
            },
            None => {
                proof { assert(self.executors@ =~= old(self).executors@); }
                false
            },
        }
    }

    /// One step of running the executor registered under `executor_id` (see
    /// [`Executor::run_step`]); `None`, with nothing changed, when no executor has that identifier.
    pub fn run_executor<R: Reactor>(&mut self, executor_id: ExecutorId, reactors: &mut ReactorManager<R>) -> (r: Option<RunStep>)
        requires
            old(self).wf(),
            old(reactors).wf(),
        ensures
            final(self).wf(),
            final(reactors).wf(),
            final(self).ids() == old(self).ids(),
            r is Some == old(self).executor_map().contains_key(executor_id),
            r is None ==> final(self).executor_map() == old(self).executor_map()
                && final(reactors).reactor_map() == old(reactors).reactor_map(),
            r matches Some(step) ==> {
                &&& final(self).executor_map().dom() == old(self).executor_map().dom()
                &&& step_taken(
                    old(self).executor_map()[executor_id],
                    final(self).executor_map()[executor_id],
                    old(reactors).reactor_map(),
                    final(reactors).reactor_map(),
                    step,
                )
                &&& forall|k: ExecutorId| k != executor_id && #[trigger] old(self).executor_map().contains_key(k)
                    ==> final(self).executor_map()[k] == old(self).executor_map()[k]
            },
    {
        match self.executors.remove(&executor_id) {
            Some(mut e) => {
                let step = e.run_step(reactors);
                self.executors.insert(executor_id, e);
                proof { assert(self.executors@.dom() =~= old(self).executors@.dom()); }
                Some(step)
            },
            None => {
                proof { assert(self.executors@ =~= old(self).executors@); }
                None
            },
        }
    }

    /// Spawns `future` on the executor registered under `executor_id` (see
    /// [`Executor::spawn`]). When no executor has that identifier, or that executor
    /// already keeps a task under the future's identifier, nothing changes and `future`
    /// is handed back in the error.
    pub fn spawn_on(&mut self, executor_id: ExecutorId, future: F) -> (r: Result<TaskId, SpawnRefused<F>>)
        requires
            old(self).wf(),
        ensures
            final(self).wf(),
            final(self).ids() == old(self).ids(),
            !old(self).executor_map().contains_key(executor_id) ==> {
                &&& r == Err::<TaskId, SpawnRefused<F>>(SpawnRefused::UnknownExecutor(future))
                &&& final(self).executor_map() == old(self).executor_map()
            },
            old(self).executor_map().contains_key(executor_id)
                && old(self).executor_map()[executor_id].tasks().contains_key(future.spec_task_id()) ==> {
                &&& r == Err::<TaskId, SpawnRefused<F>>(SpawnRefused::TaskIdInUse(future))
                &&& final(self).executor_map() == old(self).executor_map()
            },
            old(self).executor_map().contains_key(executor_id)
                && !old(self).executor_map()[executor_id].tasks().contains_key(future.spec_task_id()) ==> {
                let pre = old(self).executor_map()[executor_id];
                let post = final(self).executor_map()[executor_id];
                &&& r == Ok::<TaskId, SpawnRefused<F>>(future.spec_task_id())
                &&& final(self).executor_map().dom() == old(self).executor_map().dom()
                &&& post.tasks() == pre.tasks().insert(future.spec_task_id(), future)
                &&& post.ready_queue() == pre.ready_queue().push(future.spec_task_id())
                &&& post.spec_id() == pre.spec_id()
                &&& post.spec_name() == pre.spec_name()
                &&& forall|k: ExecutorId| k != executor_id && #[trigger] old(self).executor_map().contains_key(k)
                    ==> final(self).executor_map()[k] == old(self).executor_map()[k]
            },
    {
        match self.executors.remove(&executor_id) {
            Some(mut e) => {
                let r = e.spawn(future);
                self.executors.insert(executor_id, e);
                proof { assert(self.executors@.dom() =~= old(self).executors@.dom()); }
                match r {
                    Ok(task_id) => Ok(task_id),
                    Err(f) => {
                        proof { assert(self.executors@ =~= old(self).executors@); }
                        Err(SpawnRefused::TaskIdInUse(f))
                    },
                }
            },
            None => {
                proof { assert(self.executors@ =~= old(self).executors@); }
                Err(SpawnRefused::UnknownExecutor(future))
            },
        }
    }

    /// An event of the reactor registered under `reactor_type`: every waker registered
    /// with it is woken, in the order of the returned list, which holds each of those
    /// wakers once. Each registered executor ends up with the tasks named by the wakers
    /// that name it appended to its ready queue, in that order (`queued_for`); nothing
    /// else changes. With no reactor of that type nothing is woken. The reactor keeps
    /// its wakers, so a later event wakes them again.
    pub fn fire_event<R: Reactor>(&mut self, reactors: &ReactorManager<R>, reactor_type: ReactorType) -> (r: Vec<(TaskId, Waker)>)
        requires
            old(self).wf(),
            reactors.wf(),
        ensures
            final(self).wf(),
            final(self).ids() == old(self).ids(),
            reactors.reactor_map().contains_key(reactor_type@)
                ==> lists_exactly(r@, reactors.reactor_map()[reactor_type@].wakers),
            !reactors.reactor_map().contains_key(reactor_type@) ==> r@.len() == 0,
            final(self).executor_map().dom() == old(self).executor_map().dom(),
            forall|k: ExecutorId| #[trigger] old(self).executor_map().contains_key(k) ==> {
                let pre = old(self).executor_map()[k];
                let post = final(self).executor_map()[k];
                &&& post.ready_queue() == pre.ready_queue() + queued_for(r@, k)
                &&& post.tasks() == pre.tasks()
                &&& post.spec_id() == pre.spec_id()
                &&& post.spec_name() == pre.spec_name()
            },
            forall|i: int| 0 <= i < r@.len() && #[trigger] old(self).executor_map().contains_key(r@[i].1.executor_id)
                ==> final(self).executor_map()[r@[i].1.executor_id].ready_queue().contains(r@[i].1.task_id),
            forall|k: ExecutorId| #[trigger] old(self).executor_map().contains_key(k)
                && (forall|i: int| 0 <= i < r@.len() ==> r@[i].1.executor_id != k)
                ==> final(self).executor_map()[k] == old(self).executor_map()[k],
    {
        let wakers = match reactors.get_reactor(reactor_type) {
            Some(x) => x.pending_wakers(),
            None => Vec::new(),
        };
        let mut i: usize = 0;
        while i < wakers.len()
            invariant
                self.wf(),
                0 <= i <= wakers@.len(),
                self.ids() == old(self).ids(),
                self.executor_map().dom() == old(self).executor_map().dom(),
                forall|k: ExecutorId| #[trigger] old(self).executor_map().contains_key(k) ==> {
                    let pre = old(self).executor_map()[k];
                    let cur = self.executor_map()[k];
                    &&& cur.ready_queue() == pre.ready_queue() + queued_for(wakers@.take(i as int), k)
                    &&& cur.tasks() == pre.tasks()
                    &&& cur.spec_id() == pre.spec_id()
                    &&& cur.spec_name() == pre.spec_name()
                },
                forall|k: ExecutorId| #[trigger] old(self).executor_map().contains_key(k)
                    && queued_for(wakers@.take(i as int), k).len() == 0
                    ==> self.executor_map()[k] == old(self).executor_map()[k],
            decreases wakers@.len() - i,
        {
            let ghost before = self.executor_map();
            let w = wakers[i].1;
            w.wake(self);
            proof {
                let next = wakers@.take(i + 1);
                assert(next.drop_last() =~= wakers@.take(i as int));
                assert(next.last() == wakers@[i as int]);
                assert forall|k: ExecutorId| #[trigger] old(self).executor_map().contains_key(k) implies {
                    let pre = old(self).executor_map()[k];
                    let cur = self.executor_map()[k];
                    &&& cur.ready_queue() == pre.ready_queue() + queued_for(next, k)
                    &&& cur.tasks() == pre.tasks()
                    &&& cur.spec_id() == pre.spec_id()
                    &&& cur.spec_name() == pre.spec_name()
                } by {
                    let pre = old(self).executor_map()[k];
                    let q = queued_for(wakers@.take(i as int), k);
                    assert(before.contains_key(k));
                    if k == w.executor_id {
                        assert(queued_for(next, k) == q.push(w.task_id));
                        assert(pre.ready_queue() + q.push(w.task_id) =~= (pre.ready_queue() + q).push(w.task_id));
                    } else {
                        assert(queued_for(next, k) == q);
                    }
                }
                assert forall|k: ExecutorId| #[trigger] old(self).executor_map().contains_key(k)
                    && queued_for(next, k).len() == 0
                    implies self.executor_map()[k] == old(self).executor_map()[k] by {
                    assert(before.contains_key(k));
                    if k == w.executor_id {
                        assert(queued_for(next, k) == queued_for(wakers@.take(i as int), k).push(w.task_id));
                    } else {
                        assert(queued_for(next, k) == queued_for(wakers@.take(i as int), k));
                    }
                }
            }
            i = i + 1;
        }
        proof {
            assert(wakers@.take(wakers@.len() as int) =~= wakers@);
            assert forall|k: ExecutorId| #[trigger] old(self).executor_map().contains_key(k)
                && (forall|i: int| 0 <= i < wakers@.len() ==> wakers@[i].1.executor_id != k)
                implies self.executor_map()[k] == old(self).executor_map()[k] by {
                crate::laws::event_skips_unnamed_executors(wakers@, k);
            }
            assert forall|i: int| 0 <= i < wakers@.len() && #[trigger] old(self).executor_map().contains_key(wakers@[i].1.executor_id)
                implies self.executor_map()[wakers@[i].1.executor_id].ready_queue().contains(wakers@[i].1.task_id) by {
                let k = wakers@[i].1.executor_id;
                lemma_queued_for_contains(wakers@, i);
                let pre = old(self).executor_map()[k].ready_queue();
                let q = queued_for(wakers@, k);
                let j = choose|j: int| 0 <= j < q.len() && q[j] == wakers@[i].1.task_id;
                assert((pre + q)[pre.len() + j] == wakers@[i].1.task_id);
            }
        }
        wakers
    }

    /// The identifier and name of every registered executor, in the order the identifiers
    /// were first registered.
    pub fn list_executors(&self) -> (r: Vec<(ExecutorId, String)>)
        requires
            self.wf(),
        ensures
            r@.len() == self.ids().len(),
            forall|i: int| 0 <= i < r@.len() ==> #[trigger] r@[i].0 == self.ids()[i]
                && self.executor_map().contains_key(r@[i].0)
                && r@[i].1@ == self.executor_map()[r@[i].0].spec_name(),
    {
        let mut out: Vec<(ExecutorId, String)> = Vec::new();
        let mut i: usize = 0;
        while i < self.order.len()
            invariant
                self.wf(),
                0 <= i <= self.order@.len(),
                out@.len() == i,
                forall|j: int| 0 <= j < i ==> #[trigger] out@[j].0 == self.order@[j]
                    && self.executors@.contains_key(out@[j].0)
                    && out@[j].1@ == self.executors@[out@[j].0].spec_name(),
            decreases self.order@.len() - i,
        {
            let id = self.order[i];
            assert(self.order@.contains(id));
            match self.executors.get(&id) {
                Some(e) => {
                    let name = e.get_name();
                    out.push((id, name));
                },
                None => {
                    assert(false);
                },
            }
            i = i + 1;
        }
        out
    }
}

/// `post` is `pre` after executor `executor_id` was told to run `task_id` again:
/// that executor's ready queue gained `task_id` at its end, and nothing else changed.
pub open spec fn woken<F: Future<Output = String>>(
    pre: Map<ExecutorId, Executor<F>>,
    post: Map<ExecutorId, Executor<F>>,
    executor_id: ExecutorId,
    task_id: TaskId,
) -> bool {
    &&& post.dom() == pre.dom()
    &&& post[executor_id].ready_queue() == pre[executor_id].ready_queue().push(task_id)
    &&& post[executor_id].spec_name() == pre[executor_id].spec_name()
    &&& post[executor_id].spec_id() == pre[executor_id].spec_id()
    &&& post[executor_id].tasks() == pre[executor_id].tasks()
    &&& post[executor_id].wf() == pre[executor_id].wf()
    &&& forall|k: ExecutorId| k != executor_id && #[trigger] pre.contains_key(k) ==> post[k] == pre[k]
}

impl Waker {
    /// Wakes this waker's task: puts it on the ready queue of the executor named by the
    /// waker, found in `registry`. Returns whether that executor is registered; when it
    /// is not, nothing changes.
    pub fn wake<F: Future<Output = String>>(&self, registry: &mut ExecutorRegistry<F>) -> (found: bool)
        requires
            old(registry).wf(),
        ensures
            final(registry).wf(),
            final(registry).ids() == old(registry).ids(),
            found == old(registry).executor_map().contains_key(self.executor_id),
            !found ==> final(registry).executor_map() == old(registry).executor_map(),
            found ==> woken(old(registry).executor_map(), final(registry).executor_map(), self.executor_id, self.task_id),
    {
        registry.wake_task(self.executor_id, self.task_id)
    }
}

/// A fresh executor registry and reactor manager, both empty.
pub fn init_advanced_runtime<F: Future<Output = String>, R: Reactor>() -> (r: (ExecutorRegistry<F>, ReactorManager<R>))
    ensures
        r.0.wf(),
        r.1.wf(),
        r.0.executor_map() == Map::<ExecutorId, Executor<F>>::empty(),
        r.1.reactor_map() == Map::<Seq<char>, crate::reactor::ReactorState>::empty(),
{
    (ExecutorRegistry::new(), ReactorManager::new())
}

}
