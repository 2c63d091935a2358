//! Reactors hold the wakers of the tasks waiting on one kind of event, and the
//! reactor manager finds a reactor by its type.
use vstd::prelude::*;
use std::collections::HashMap;
use crate::types::{TaskId, Waker, ReactorType};
use vstd::std_specs::iter::IteratorSpec;
use crate::keyed::{distinct_keys, entries_map, has_key, index_of, keys, lemma_append, lemma_has_key, lemma_index, lemma_keys, lemma_replace};

verus! {

broadcast use vstd::std_specs::hash::group_hash_axioms;

/// `s` lists the entries of `m`, each exactly once.
pub open spec fn lists_exactly(s: Seq<(TaskId, Waker)>, m: Map<TaskId, Waker>) -> bool {
    &&& s.len() == m.len()
    &&& forall|i: int| 0 <= i < s.len() ==> #[trigger] m.contains_key(s[i].0) && m[s[i].0] == s[i].1
    &&& forall|k: TaskId| #[trigger] m.contains_key(k) ==> exists|i: int| 0 <= i < s.len() && s[i].0 == k
    &&& forall|i: int, j: int| 0 <= i < s.len() && 0 <= j < s.len() && i != j ==> s[i].0 != s[j].0
}

/// A source of events: it keeps the wakers of the tasks that wait on it.
pub trait Reactor {
    /// The type this reactor reports for itself.
    spec fn spec_reactor_type(&self) -> Seq<char>;

    /// The registered wakers, by task.
    spec fn wakers(&self) -> Map<TaskId, Waker>;

    /// Whether the reactor has been started.
    spec fn running(&self) -> bool;

    fn reactor_type(&self) -> (r: ReactorType)
        ensures
            r@ == self.spec_reactor_type(),
    ;

    /// Marks the reactor as running; the listening itself is done by the caller.
    fn start(&mut self)
        ensures
            final(self).running(),
            final(self).wakers() == old(self).wakers(),
            final(self).spec_reactor_type() == old(self).spec_reactor_type(),
    ;

    /// Marks the reactor as stopped, so that its listening ends.
    fn stop(&mut self)
        ensures
            !final(self).running(),
            final(self).wakers() == old(self).wakers(),
            final(self).spec_reactor_type() == old(self).spec_reactor_type(),
    ;

    fn is_running(&self) -> (r: bool)
        ensures
            r == self.running(),
    ;

    /// Registers `waker` for `task_id`, replacing any waker registered for it before.
    fn register_waker(&mut self, task_id: TaskId, waker: Waker)
        ensures
            final(self).wakers() == old(self).wakers().insert(task_id, waker),
            final(self).running() == old(self).running(),
            final(self).spec_reactor_type() == old(self).spec_reactor_type(),
    ;

    /// Forgets the waker registered for `task_id`, if any.
    fn deregister_waker(&mut self, task_id: TaskId)
        ensures
            final(self).wakers() == old(self).wakers().remove(task_id),
            final(self).running() == old(self).running(),
            final(self).spec_reactor_type() == old(self).spec_reactor_type(),
    ;

    /// The wakers that an event of this reactor wakes: every registered one.
    fn pending_wakers(&self) -> (r: Vec<(TaskId, Waker)>)
        ensures
            lists_exactly(r@, self.wakers()),
    ;
}

/// Collects the entries of a waker table.
fn collect_wakers(table: &HashMap<TaskId, Waker>) -> (r: Vec<(TaskId, Waker)>)
    ensures
        lists_exactly(r@, table@),
{
    let mut out: Vec<(TaskId, Waker)> = Vec::new();
    for kv in it: table.iter()
        invariant
            out@.len() == it.index(),
            it.seq() == vstd::std_specs::hash::spec_hash_map_iter(table).remaining(),
            forall|i: int| 0 <= i < out@.len() ==> out@[i] == (*it.seq()[i].0, *it.seq()[i].1),
    {
        out.push((*kv.0, *kv.1));
    }
    proof {
        let v = vstd::std_specs::hash::spec_hash_map_iter(table).remaining();
        assert(v.no_duplicates());
        assert forall|i: int| 0 <= i < out@.len() implies #[trigger] table@.contains_key(out@[i].0)
            && table@[out@[i].0] == out@[i].1 by {
            assert(table@.contains_key(*v[i].0));
        }
        assert forall|k: TaskId| #[trigger] table@.contains_key(k) implies exists|i: int|
            0 <= i < out@.len() && out@[i].0 == k by {
            assert(v.contains((&k, &table@[k])));
            let i = choose|i: int| 0 <= i < v.len() && v[i] == (&k, &table@[k]);
            assert(out@[i].0 == k);
        }
        assert forall|i: int, j: int| 0 <= i < out@.len() && 0 <= j < out@.len() && i != j
            implies out@[i].0 != out@[j].0 by {
            assert(table@.contains_key(*v[i].0));
            assert(table@.contains_key(*v[j].0));
            if out@[i].0 == out@[j].0 {
                assert(v[i] == v[j]);
            }
        }
    }
    out
}

}

verus! {

/// The reactor for network events.
pub struct NetworkReactor {
    reactor_type: ReactorType,
    wakers: HashMap<TaskId, Waker>,
    running: bool,
}

impl NetworkReactor {
    /// A stopped network reactor with no waker registered; its type is `"network"`.
    pub fn new() -> (r: Self)
        ensures
            r.spec_reactor_type() == "network"@,
            r.wakers() == Map::<TaskId, Waker>::empty(),
            !r.running(),
    {
        NetworkReactor { reactor_type: "network", wakers: HashMap::new(), running: false }
    }
}

impl Reactor for NetworkReactor {
    closed spec fn spec_reactor_type(&self) -> Seq<char> {
        self.reactor_type@
    }

    closed spec fn wakers(&self) -> Map<TaskId, Waker> {
        self.wakers@
    }

    closed spec fn running(&self) -> bool {
        self.running
    }

    fn reactor_type(&self) -> (r: ReactorType) {
        self.reactor_type
    }

    fn start(&mut self) {
        self.running = true;
    }

    fn stop(&mut self) {
        self.running = false;
    }

    fn is_running(&self) -> (r: bool) {
        self.running
    }

    fn register_waker(&mut self, task_id: TaskId, waker: Waker) {
        self.wakers.insert(task_id, waker);
    }

    fn deregister_waker(&mut self, task_id: TaskId) {
        self.wakers.remove(&task_id);
    }

    fn pending_wakers(&self) -> (r: Vec<(TaskId, Waker)>) {
        collect_wakers(&self.wakers)
    }
}

/// The reactor for file system events.
pub struct FileReactor {
    reactor_type: ReactorType,
    wakers: HashMap<TaskId, Waker>,
    running: bool,
}

impl FileReactor {
    /// A stopped file system reactor with no waker registered; its type is `"file"`.
    pub fn new() -> (r: Self)
        ensures
            r.spec_reactor_type() == "file"@,
            r.wakers() == Map::<TaskId, Waker>::empty(),
            !r.running(),
    {
        FileReactor { reactor_type: "file", wakers: HashMap::new(), running: false }
    }
}

impl Reactor for FileReactor {
    closed spec fn spec_reactor_type(&self) -> Seq<char> {
        self.reactor_type@
    }

    closed spec fn wakers(&self) -> Map<TaskId, Waker> {
        self.wakers@
    }

    closed spec fn running(&self) -> bool {
        self.running
    }

    fn reactor_type(&self) -> (r: ReactorType) {
        self.reactor_type
    }

    fn start(&mut self) {
        self.running = true;
    }

    fn stop(&mut self) {
        self.running = false;
    }

    fn is_running(&self) -> (r: bool) {
        self.running
    }

    fn register_waker(&mut self, task_id: TaskId, waker: Waker) {
        self.wakers.insert(task_id, waker);
    }

    fn deregister_waker(&mut self, task_id: TaskId) {
        self.wakers.remove(&task_id);
    }

    fn pending_wakers(&self) -> (r: Vec<(TaskId, Waker)>) {
        collect_wakers(&self.wakers)
    }
}

/// The reactor for timer events.
pub struct TimerReactor {
    reactor_type: ReactorType,
    wakers: HashMap<TaskId, Waker>,
    running: bool,
}

impl TimerReactor {
    /// A stopped timer reactor with no waker registered; its type is `"timer"`.
    pub fn new() -> (r: Self)
        ensures
            r.spec_reactor_type() == "timer"@,
            r.wakers() == Map::<TaskId, Waker>::empty(),
            !r.running(),
    {
        TimerReactor { reactor_type: "timer", wakers: HashMap::new(), running: false }
    }
}

impl Reactor for TimerReactor {
    closed spec fn spec_reactor_type(&self) -> Seq<char> {
        self.reactor_type@
    }

    closed spec fn wakers(&self) -> Map<TaskId, Waker> {
        self.wakers@
    }

    closed spec fn running(&self) -> bool {
        self.running
    }

    fn reactor_type(&self) -> (r: ReactorType) {
        self.reactor_type
    }

    fn start(&mut self) {
        self.running = true;
    }

    fn stop(&mut self) {
        self.running = false;
    }

    fn is_running(&self) -> (r: bool) {
        self.running
    }

    fn register_waker(&mut self, task_id: TaskId, waker: Waker) {
        self.wakers.insert(task_id, waker);
    }

    fn deregister_waker(&mut self, task_id: TaskId) {
        self.wakers.remove(&task_id);
    }

    fn pending_wakers(&self) -> (r: Vec<(TaskId, Waker)>) {
        collect_wakers(&self.wakers)
    }
}

}

verus! {

/// What the contracts see of one reactor: its own type, its wakers, and whether it runs.
pub struct ReactorState {
    pub kind: Seq<char>,
    pub wakers: Map<TaskId, Waker>,
    pub running: bool,
}

/// The state of a reactor, as its trait's spec functions give it.
pub open spec fn state_of<R: Reactor>(r: R) -> ReactorState {
    ReactorState { kind: r.spec_reactor_type(), wakers: r.wakers(), running: r.running() }
}

/// `m` after registering `waker` for `task_id` with the reactor of type `kind`;
/// `m` itself when no reactor has that type.
pub open spec fn with_waker(m: Map<Seq<char>, ReactorState>, kind: Seq<char>, task_id: TaskId, waker: Waker) -> Map<
    Seq<char>,
    ReactorState,
> {
    if m.contains_key(kind) {
        m.insert(kind, ReactorState { wakers: m[kind].wakers.insert(task_id, waker), ..m[kind] })
    } else {
        m
    }
}

/// Finds reactors by their type. Each type names at most one reactor. Entries keep the
/// order in which their types were first registered, which is the order in which they
/// are listed. `&'static str` keys have no hash-map specification, so the entries are
/// a list searched by comparing the types' characters.
pub struct ReactorManager<R: Reactor> {
    reactors: Vec<(ReactorType, R)>,
}

impl<R: Reactor> ReactorManager<R> {
    /// Each type names at most one entry.
    pub closed spec fn wf(&self) -> bool {
        distinct_keys(self.reactors@)
    }

    /// The registered reactors, by type.
    pub closed spec fn reactor_map(&self) -> Map<Seq<char>, ReactorState> {
        Map::new(
            |k: Seq<char>| entries_map(self.reactors@).contains_key(k),
            |k: Seq<char>| state_of(entries_map(self.reactors@)[k]),
        )
    }

    /// The registered types, in the order they were first registered.
    pub closed spec fn types(&self) -> Seq<Seq<char>> {
        keys(self.reactors@)
    }

    /// The registered types are those of the map, each once.
    pub proof fn lemma_types(&self)
        requires
            self.wf(),
        ensures
            self.types().no_duplicates(),
            forall|k: Seq<char>| #[trigger] self.types().contains(k) <==> self.reactor_map().contains_key(k),
    {
        lemma_keys(self.reactors@);
    }

    fn find(&self, reactor_type: &str) -> (r: Option<usize>)
        ensures
            match r {
                Some(i) => i < self.reactors@.len() && self.reactors@[i as int].0@ == reactor_type@,
                None => !has_key(self.reactors@, reactor_type@),
            },
    {
        let mut i: usize = 0;
        while i < self.reactors.len()
            invariant
                0 <= i <= self.reactors@.len(),
                forall|j: int| 0 <= j < i ==> self.reactors@[j].0@ != reactor_type@,
            decreases self.reactors@.len() - i,
        {
            if crate::text::str_eq(self.reactors[i].0, reactor_type) {
                return Some(i);
            }
            i = i + 1;
        }
        None
    }

    /// An empty manager.
    pub fn new() -> (r: Self)
        ensures
            r.wf(),
            r.reactor_map() == Map::<Seq<char>, ReactorState>::empty(),
            r.types() == Seq::<Seq<char>>::empty(),
    {
        let r = ReactorManager { reactors: Vec::new() };
        assert(r.reactor_map() =~= Map::<Seq<char>, ReactorState>::empty());
        assert(r.types() =~= Seq::<Seq<char>>::empty());
        r
    }

    /// Registers `reactor` under `reactor_type`, replacing the reactor registered under it
    /// before. A new type goes to the end of the order; a known one keeps its place.
    pub fn register_reactor(&mut self, reactor_type: ReactorType, reactor: R)
        requires
            old(self).wf(),
        ensures
            final(self).wf(),
            final(self).reactor_map() == old(self).reactor_map().insert(reactor_type@, state_of(reactor)),
            old(self).reactor_map().contains_key(reactor_type@) ==> final(self).types() == old(self).types(),
            !old(self).reactor_map().contains_key(reactor_type@) ==> final(self).types() == old(self).types().push(reactor_type@),
    {
        let ghost pre = *self;
        match self.find(reactor_type) {
            Some(i) => {
                self.reactors.set(i, (reactor_type, reactor));
                proof {
                    lemma_index(pre.reactors@, i as int);
                    lemma_replace(pre.reactors@, self.reactors@, i as int);
                    assert(self.reactor_map() =~= pre.reactor_map().insert(reactor_type@, state_of(reactor)));
                }
            },
            None => {
                self.reactors.push((reactor_type, reactor));
                proof {
                    assert(self.reactors@.take(pre.reactors@.len() as int) =~= pre.reactors@);
                    lemma_append(pre.reactors@, self.reactors@);
                    assert(self.reactor_map() =~= pre.reactor_map().insert(reactor_type@, state_of(reactor)));
                }
            },
        }
    }

    /// The reactor registered under `reactor_type`, if any.
    pub fn get_reactor(&self, reactor_type: ReactorType) -> (r: Option<&R>)
        requires
            self.wf(),
        ensures
            r is Some == self.reactor_map().contains_key(reactor_type@),
            r matches Some(x) ==> state_of(*x) == self.reactor_map()[reactor_type@],
    {
        match self.find(reactor_type) {
            Some(i) => {
                proof { lemma_index(self.reactors@, i as int); }
                Some(&self.reactors[i].1)
            },
            None => None,
        }
    }

    /// Registers `waker` for `task_id` with the reactor of type `reactor_type`.
    /// Returns whether such a reactor is registered; when none is, nothing changes.
    pub fn register_waker(&mut self, reactor_type: ReactorType, task_id: TaskId, waker: Waker) -> (found: bool)
        requires
            old(self).wf(),
        ensures
            final(self).wf(),
            final(self).types() == old(self).types(),
            found == old(self).reactor_map().contains_key(reactor_type@),
            final(self).reactor_map() == with_waker(old(self).reactor_map(), reactor_type@, task_id, waker),
    {
        let ghost pre = *self;
        match self.find(reactor_type) {
            Some(i) => {
                proof { lemma_index(pre.reactors@, i as int); }
                self.reactors[i].1.register_waker(task_id, waker);
                proof {
                    lemma_replace(pre.reactors@, self.reactors@, i as int);
                    assert(self.reactor_map() =~= with_waker(pre.reactor_map(), reactor_type@, task_id, waker));
                }
                true
            },
            None => false,
        }
    }

    /// Marks every registered reactor as running when `running`, else as stopped.
    fn set_all_running(&mut self, running: bool)
        requires
            old(self).wf(),
        ensures
            final(self).wf(),
            final(self).types() == old(self).types(),
            final(self).reactor_map().dom() == old(self).reactor_map().dom(),
            forall|k: Seq<char>| #[trigger] final(self).reactor_map().contains_key(k) ==> final(self).reactor_map()[k]
                == (ReactorState { running, ..old(self).reactor_map()[k] }),
    {
        let ghost pre = *self;
        let mut i: usize = 0;
        while i < self.reactors.len()
            invariant
                distinct_keys(pre.reactors@),
                0 <= i <= self.reactors@.len(),
                self.reactors@.len() == pre.reactors@.len(),
                forall|j: int| 0 <= j < self.reactors@.len() ==> #[trigger] self.reactors@[j].0 == pre.reactors@[j].0,
                forall|j: int| 0 <= j < i ==> #[trigger] state_of(self.reactors@[j].1)
                    == (ReactorState { running, ..state_of(pre.reactors@[j].1) }),
                forall|j: int| i <= j < self.reactors@.len() ==> #[trigger] self.reactors@[j] == pre.reactors@[j],
            decreases self.reactors@.len() - i,
        {
            if running {
                self.reactors[i].1.start();
            } else {
                self.reactors[i].1.stop();
            }
            i = i + 1;
        }
        proof {
            assert(keys(self.reactors@) =~= keys(pre.reactors@));
            assert(self.wf());
            lemma_keys(self.reactors@);
            lemma_keys(pre.reactors@);
            assert forall|k: Seq<char>| self.reactor_map().dom().contains(k) == pre.reactor_map().dom().contains(k) by {
                assert(keys(self.reactors@).contains(k) == keys(pre.reactors@).contains(k));
            }
            assert(self.reactor_map().dom() =~= pre.reactor_map().dom());
            assert forall|k: Seq<char>| #[trigger] self.reactor_map().contains_key(k) implies self.reactor_map()[k]
                == (ReactorState { running, ..pre.reactor_map()[k] }) by {
                lemma_has_key(self.reactors@, k);
                let j = index_of(self.reactors@, k);
                lemma_index(self.reactors@, j);
                lemma_index(pre.reactors@, j);
            }
        }
    }

    /// Marks every registered reactor as running.
    pub fn start_all_reactors(&mut self)
        requires
            old(self).wf(),
        ensures
            final(self).wf(),
            final(self).types() == old(self).types(),
            final(self).reactor_map().dom() == old(self).reactor_map().dom(),
            forall|k: Seq<char>| #[trigger] final(self).reactor_map().contains_key(k) ==> final(self).reactor_map()[k]
                == (ReactorState { running: true, ..old(self).reactor_map()[k] }),
    {
        self.set_all_running(true);
    }

    /// Marks every registered reactor as stopped.
    pub fn stop_all_reactors(&mut self)
        requires
            old(self).wf(),
        ensures
            final(self).wf(),
            final(self).types() == old(self).types(),
            final(self).reactor_map().dom() == old(self).reactor_map().dom(),
            forall|k: Seq<char>| #[trigger] final(self).reactor_map().contains_key(k) ==> final(self).reactor_map()[k]
                == (ReactorState { running: false, ..old(self).reactor_map()[k] }),
    {
        self.set_all_running(false);
    }

    /// The types of the registered reactors, in the order they were first registered.
    pub fn list_reactors(&self) -> (r: Vec<ReactorType>)
        requires
            self.wf(),
        ensures
            r@.len() == self.types().len(),
            forall|i: int| 0 <= i < r@.len() ==> #[trigger] r@[i]@ == self.types()[i]
                && self.reactor_map().contains_key(r@[i]@),
    {
        let mut out: Vec<ReactorType> = Vec::new();
        let mut i: usize = 0;
        while i < self.reactors.len()
            invariant
                self.wf(),
                0 <= i <= self.reactors@.len(),
                out@.len() == i,
                forall|j: int| 0 <= j < i ==> #[trigger] out@[j] == self.reactors@[j].0,
            decreases self.reactors@.len() - i,
        {
            out.push(self.reactors[i].0);
            i = i + 1;
        }
        proof {
            assert forall|j: int| 0 <= j < out@.len() implies #[trigger] out@[j]@ == self.types()[j]
                && self.reactor_map().contains_key(out@[j]@) by {
                lemma_index(self.reactors@, j);
            }
        }
        out
    }
}

}

verus! {

/// Any one of the reactors of this library, so that one manager can hold all three kinds.
pub enum AnyReactor {
    Network(NetworkReactor),
    File(FileReactor),
    Timer(TimerReactor),
}

impl Reactor for AnyReactor {
    open spec fn spec_reactor_type(&self) -> Seq<char> {
        match self {
            AnyReactor::Network(r) => r.spec_reactor_type(),
            AnyReactor::File(r) => r.spec_reactor_type(),
            AnyReactor::Timer(r) => r.spec_reactor_type(),
        }
    }

    open spec fn wakers(&self) -> Map<TaskId, Waker> {
        match self {
            AnyReactor::Network(r) => r.wakers(),
            AnyReactor::File(r) => r.wakers(),
            AnyReactor::Timer(r) => r.wakers(),
        }
    }

    open spec fn running(&self) -> bool {
        match self {
            AnyReactor::Network(r) => r.running(),
            AnyReactor::File(r) => r.running(),
            AnyReactor::Timer(r) => r.running(),
        }
    }

    fn reactor_type(&self) -> (r: ReactorType) {
        match self {
            AnyReactor::Network(r) => r.reactor_type(),
            AnyReactor::File(r) => r.reactor_type(),
            AnyReactor::Timer(r) => r.reactor_type(),
        }
    }

    fn is_running(&self) -> (r: bool) {
        match self {
            AnyReactor::Network(r) => r.is_running(),
            AnyReactor::File(r) => r.is_running(),
            AnyReactor::Timer(r) => r.is_running(),
        }
    }

    fn pending_wakers(&self) -> (r: Vec<(TaskId, Waker)>) {
        match self {
            AnyReactor::Network(r) => r.pending_wakers(),
            AnyReactor::File(r) => r.pending_wakers(),
            AnyReactor::Timer(r) => r.pending_wakers(),
        }
    }

    fn start(&mut self) {
        match self {
            AnyReactor::Network(r) => r.start(),
            AnyReactor::File(r) => r.start(),
            AnyReactor::Timer(r) => r.start(),
        }
    }

    fn stop(&mut self) {
        match self {
            AnyReactor::Network(r) => r.stop(),
            AnyReactor::File(r) => r.stop(),
            AnyReactor::Timer(r) => r.stop(),
        }
    }

    fn register_waker(&mut self, task_id: TaskId, waker: Waker) {
        match self {
            AnyReactor::Network(r) => r.register_waker(task_id, waker),
            AnyReactor::File(r) => r.register_waker(task_id, waker),
            AnyReactor::Timer(r) => r.register_waker(task_id, waker),
        }
    }

    fn deregister_waker(&mut self, task_id: TaskId) {
        match self {
            AnyReactor::Network(r) => r.deregister_waker(task_id),
            AnyReactor::File(r) => r.deregister_waker(task_id),
            AnyReactor::Timer(r) => r.deregister_waker(task_id),
        }
    }
}

}
