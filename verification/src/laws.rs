//! Properties that tie executors, wakers, reactors and tasks together.
use vstd::prelude::*;
use crate::executor::{Executor, RunStep, TaskExecutor, queued_for, step_taken, woken};
use crate::reactor::{Reactor, ReactorState, with_waker};
use crate::task::{AnyTask, FileTask, Future, NetworkTask, TimerTask, completion_text};
use crate::text::{decimal, digit_char, with_number};
use crate::types::{ExecutorId, TaskId, Waker};

verus! {

/// A task of this library that is polled, then woken by the waker its poll registered
/// with its reactor, and polled again, completes with its completion text, reported
/// under its own identifier.
///
/// Step one polls the only ready task: it is not finished, so it stays, and the waker the
/// executor gave it, naming the task by its own identifier, is now registered under that
/// identifier with the reactor of its type. An event of that reactor wakes that waker,
/// which puts the identifier back on its executor's ready queue (`woken`). Step two polls
/// it again: it completes with its text, and the executor no longer holds it.
pub proof fn task_completes_after_its_event(
    e0: Executor<AnyTask>,
    e1: Executor<AnyTask>,
    r0: Map<Seq<char>, ReactorState>,
    r1: Map<Seq<char>, ReactorState>,
    s1: RunStep,
    reg1: Map<ExecutorId, Executor<AnyTask>>,
    reg2: Map<ExecutorId, Executor<AnyTask>>,
    e3: Executor<AnyTask>,
    r2: Map<Seq<char>, ReactorState>,
    s2: RunStep,
)
    requires
        e0.wf(),
        e0.ready_queue().len() == 1,
        e0.tasks().contains_key(e0.ready_queue().first()),
        !e0.tasks()[e0.ready_queue().first()].completed(),
        r0.contains_key(e0.tasks()[e0.ready_queue().first()].spec_reactor_type()),
        step_taken(e0, e1, r0, r1, s1),
        reg1.contains_key(e0.spec_id()),
        reg1[e0.spec_id()] == e1,
        woken(
            reg1,
            reg2,
            r1[e0.tasks()[e0.ready_queue().first()].spec_reactor_type()].wakers[e0.ready_queue().first()].executor_id,
            r1[e0.tasks()[e0.ready_queue().first()].spec_reactor_type()].wakers[e0.ready_queue().first()].task_id,
        ),
        step_taken(reg2[e0.spec_id()], e3, r1, r2, s2),
    ensures
        s1 == (RunStep::Pending { task_id: e0.ready_queue().first() }),
        r1[e0.tasks()[e0.ready_queue().first()].spec_reactor_type()].wakers[e0.ready_queue().first()]
            == (Waker { task_id: e0.ready_queue().first(), executor_id: e0.spec_id() }),
        s2 matches RunStep::Completed { task_id, output } && task_id == e0.ready_queue().first()
            && output@ == completion_text(e0.tasks()[e0.ready_queue().first()].label(), e0.ready_queue().first()),
        !e3.tasks().contains_key(e0.ready_queue().first()),
{
    let t = e0.ready_queue().first();
    e0.lemma_keyed_by_own_id();
    let task = e0.tasks()[t];
    assert(task.spec_task_id() == t);
    let kind = task.spec_reactor_type();
    let w = Waker { task_id: t, executor_id: e0.spec_id() };
    assert(r1 == crate::reactor::with_waker(r0, kind, t, w));
    assert(r1[kind].wakers[t] == w);
    let e2 = reg2[e0.spec_id()];
    assert(e1.ready_queue() =~= Seq::<TaskId>::empty());
    assert(e2.ready_queue() == e1.ready_queue().push(t));
    assert(e2.ready_queue().first() == t);
    assert(e2.tasks() == e1.tasks());
    assert(e1.tasks()[t].completed());
    assert(e2.tasks()[t].is_ready());
}

/// A task that has completed is not polled again: a later step that takes its identifier
/// off the ready queue, with no task spawned under that identifier in between, skips it.
pub proof fn finished_task_is_not_polled_again<F: Future<Output = String>>(
    pre: Executor<F>,
    post: Executor<F>,
    pre_r: Map<Seq<char>, ReactorState>,
    post_r: Map<Seq<char>, ReactorState>,
    r: RunStep,
    later: Executor<F>,
    later_post: Executor<F>,
    later_r: Map<Seq<char>, ReactorState>,
    later_post_r: Map<Seq<char>, ReactorState>,
    r2: RunStep,
)
    requires
        step_taken(pre, post, pre_r, post_r, r),
        r is Completed,
        later.tasks() == post.tasks(),
        later.ready_queue().len() > 0,
        later.ready_queue().first() == pre.ready_queue().first(),
        step_taken(later, later_post, later_r, later_post_r, r2),
    ensures
        r2 == (RunStep::Skipped { task_id: pre.ready_queue().first() }),
        later_post.tasks() == later.tasks(),
        later_post_r == later_r,
{
}

/// The task identifier a step took off the ready queue, if it took one.
pub open spec fn step_subject(r: RunStep) -> Option<TaskId> {
    match r {
        RunStep::Completed { task_id, .. } => Some(task_id),
        RunStep::Pending { task_id } => Some(task_id),
        RunStep::Skipped { task_id } => Some(task_id),
        _ => None,
    }
}

/// Woken tasks are served first in, first out: on an executor with nothing ready, after
/// `a` and then `b` are woken, the next step takes `a` and the step after it takes `b`.
pub proof fn wakes_are_served_in_order<F: Future<Output = String>>(
    e0: Executor<F>,
    e1: Executor<F>,
    a: TaskId,
    b: TaskId,
    e2: Executor<F>,
    r1: Map<Seq<char>, ReactorState>,
    r2: Map<Seq<char>, ReactorState>,
    s1: RunStep,
    e3: Executor<F>,
    r3: Map<Seq<char>, ReactorState>,
    s2: RunStep,
)
    requires
        e0.ready_queue().len() == 0,
        e1.ready_queue() == e0.ready_queue().push(a).push(b),
        step_taken(e1, e2, r1, r2, s1),
        step_taken(e2, e3, r2, r3, s2),
    ensures
        step_subject(s1) == Some(a),
        step_subject(s2) == Some(b),
        e3.ready_queue().len() == 0,
{
    assert(e1.ready_queue().first() == a);
    assert(e2.ready_queue() =~= seq![b]);
    assert(e3.ready_queue() =~= Seq::<TaskId>::empty());
}

/// Running never adds tasks: every task an executor holds after a step it held before.
pub proof fn running_never_adds_tasks<F: Future<Output = String>>(
    pre: Executor<F>,
    post: Executor<F>,
    pre_r: Map<Seq<char>, ReactorState>,
    post_r: Map<Seq<char>, ReactorState>,
    r: RunStep,
)
    requires
        step_taken(pre, post, pre_r, post_r, r),
    ensures
        post.tasks().dom().subset_of(pre.tasks().dom()),
        post.tasks().len() <= pre.tasks().len(),
        r is Completed ==> post.tasks().len() + 1 == pre.tasks().len(),
{
    pre.lemma_tasks_finite();
    post.lemma_tasks_finite();
    if r is Completed {
        let t = pre.ready_queue().first();
        assert(pre.tasks().contains_key(t));
    }
    vstd::set_lib::lemma_len_subset(post.tasks().dom(), pre.tasks().dom());
}

/// Registering a waker for a task no waker was registered for, then deregistering it,
/// leaves the reactor's wakers as they were.
pub proof fn register_then_deregister_restores<R: Reactor>(r0: R, r1: R, r2: R, task_id: TaskId, waker: Waker)
    requires
        !r0.wakers().contains_key(task_id),
        r1.wakers() == r0.wakers().insert(task_id, waker),
        r2.wakers() == r1.wakers().remove(task_id),
    ensures
        r2.wakers() == r0.wakers(),
{
    assert(r2.wakers() =~= r0.wakers());
}

/// Whether `c` is one of the ASCII digits `0` to `9`.
pub open spec fn is_ascii_digit(c: char) -> bool {
    48 <= (c as u32) && (c as u32) <= 57
}

/// The number that the digits `s` denote, read most significant first.
pub open spec fn digits_value(s: Seq<char>) -> int
    decreases s.len(),
{
    if s.len() == 0 {
        0
    } else {
        digits_value(s.drop_last()) * 10 + ((s.last() as u32) - 48)
    }
}

/// The character of digit `d` is the ASCII digit with value `d`.
proof fn lemma_digit_char(d: nat)
    requires
        d < 10,
    ensures
        digit_char(d) as u32 == 48 + d,
{
    let b: u8 = (48 + d) as u8;
    assert(b == 48 + d);
    assert(b as char as u32 == b as u32);
}

/// The digits that `with_number` writes for `n`: base-10 digits, at least one, no
/// leading zero unless `n` is zero, denoting `n`.
proof fn lemma_decimal_digits(n: nat)
    ensures
        decimal(n).len() >= 1,
        forall|i: int| 0 <= i < decimal(n).len() ==> is_ascii_digit(#[trigger] decimal(n)[i]),
        decimal(n)[0] != '0' || n == 0,
        digits_value(decimal(n)) == n,
    decreases n,
{
    if n < 10 {
        let d = decimal(n);
        assert(d.drop_last() =~= Seq::<char>::empty());
        assert(digits_value(d.drop_last()) == 0);
        lemma_digit_char(n);
        assert(digits_value(d) == (d.last() as u32) - 48);
    } else {
        lemma_decimal_digits(n / 10);
        let d = decimal(n);
        let c = digit_char(n % 10);
        assert(d == decimal(n / 10).push(c));
        assert(d.drop_last() =~= decimal(n / 10));
        lemma_digit_char(n % 10);
        assert(digits_value(d) == digits_value(decimal(n / 10)) * 10 + ((c as u32) - 48));
        assert(n == (n / 10) * 10 + n % 10);
        assert(d[0] == decimal(n / 10)[0]);
        assert(forall|i: int| 0 <= i < decimal(n / 10).len() ==> d[i] == decimal(n / 10)[i]);
    }
}

/// A number written into a text is written in base 10: the text is the prefix, then
/// decimal digits, then the suffix; the digits are at least one, have no leading zero
/// unless the number is zero, and, read most significant first, denote the number.
pub proof fn number_is_written_in_decimal(prefix: Seq<char>, n: nat, suffix: Seq<char>)
    ensures
        ({
            let t = with_number(prefix, n, suffix);
            let d = t.subrange(prefix.len() as int, t.len() - suffix.len());
            &&& t.len() >= prefix.len() + suffix.len() + 1
            &&& t.subrange(0, prefix.len() as int) == prefix
            &&& t.subrange(t.len() - suffix.len(), t.len() as int) == suffix
            &&& forall|i: int| 0 <= i < d.len() ==> is_ascii_digit(#[trigger] d[i])
            &&& (d[0] != '0' || n == 0)
            &&& digits_value(d) == n
        }),
{
    lemma_decimal_digits(n);
    let t = with_number(prefix, n, suffix);
    assert(t.subrange(prefix.len() as int, t.len() - suffix.len()) =~= decimal(n));
    assert(t.subrange(0, prefix.len() as int) =~= prefix);
    assert(t.subrange(t.len() - suffix.len(), t.len() as int) =~= suffix);
}

/// A task's completion text is its label, its own identifier in base 10, then " 已完成".
pub proof fn completion_text_names_the_task(label: Seq<char>, task_id: TaskId)
    ensures
        ({
            let t = completion_text(label, task_id);
            let d = t.subrange(label.len() as int, t.len() - 4);
            &&& t.len() >= label.len() + 5
            &&& t.subrange(0, label.len() as int) == label
            &&& t.subrange(t.len() - 4, t.len() as int) == " 已完成"@
            &&& forall|i: int| 0 <= i < d.len() ==> is_ascii_digit(#[trigger] d[i])
            &&& (d[0] != '0' || task_id == 0)
            &&& digits_value(d) == task_id
        }),
{
    reveal_strlit(" 已完成");
    number_is_written_in_decimal(label, task_id as nat, " 已完成"@);
}

/// An event queues, for executor `k`, exactly the tasks of the fired wakers that name
/// `k`, in the order they were fired: the wakers kept by "names `k`", each replaced by
/// its task.
pub proof fn event_queues_only_named_tasks(ws: Seq<(TaskId, Waker)>, k: ExecutorId)
    ensures
        queued_for(ws, k) == ws.filter(|p: (TaskId, Waker)| p.1.executor_id == k).map_values(
            |p: (TaskId, Waker)| p.1.task_id,
        ),
    decreases ws.len(),
{
    let pred = |p: (TaskId, Waker)| p.1.executor_id == k;
    let f = |p: (TaskId, Waker)| p.1.task_id;
    reveal(Seq::filter);
    if ws.len() == 0 {
        assert(ws.filter(pred) =~= Seq::<(TaskId, Waker)>::empty());
        assert(ws.filter(pred).map_values(f) =~= Seq::<TaskId>::empty());
    } else {
        event_queues_only_named_tasks(ws.drop_last(), k);
        let sub = ws.drop_last().filter(pred);
        if pred(ws.last()) {
            assert(ws.filter(pred) == sub.push(ws.last()));
            assert(sub.push(ws.last()).map_values(f) =~= sub.map_values(f).push(f(ws.last())));
        } else {
            assert(ws.filter(pred) == sub);
        }
    }
}

/// An executor that no fired waker names gets nothing queued by the event.
pub proof fn event_skips_unnamed_executors(ws: Seq<(TaskId, Waker)>, k: ExecutorId)
    requires
        forall|i: int| 0 <= i < ws.len() ==> #[trigger] ws[i].1.executor_id != k,
    ensures
        queued_for(ws, k) == Seq::<TaskId>::empty(),
    decreases ws.len(),
{
    if ws.len() > 0 {
        let w = ws.drop_last();
        assert forall|i: int| 0 <= i < w.len() implies #[trigger] w[i].1.executor_id != k by {
            assert(w[i] == ws[i]);
        }
        event_skips_unnamed_executors(w, k);
        assert(ws.last().1.executor_id != k);
    }
}

/// A step of an executor with nothing ready changes nothing and reports every task it
/// holds: `Finished` when it holds none, else `Waiting` with their number.
pub proof fn idle_step_reports_held_tasks<F: Future<Output = String>>(
    pre: Executor<F>,
    post: Executor<F>,
    pre_r: Map<Seq<char>, ReactorState>,
    post_r: Map<Seq<char>, ReactorState>,
    r: RunStep,
)
    requires
        step_taken(pre, post, pre_r, post_r, r),
        pre.ready_queue().len() == 0,
    ensures
        (r is Finished) <==> pre.tasks().len() == 0,
        pre.tasks().len() > 0 ==> (r matches RunStep::Waiting { pending } && pending == pre.tasks().len() as usize),
        pre.tasks().len() > 0 && pre.tasks().len() <= usize::MAX ==> (r matches RunStep::Waiting { pending }
            && pending == pre.tasks().len()),
        post.tasks() == pre.tasks(),
        post.ready_queue() == pre.ready_queue(),
        post_r == pre_r,
{
}

/// Registering a waker with the reactor of type `kind` adds it to that reactor's wakers,
/// under `task_id`, and leaves that reactor's type and running state and every other
/// reactor as they were; with no reactor of that type nothing changes.
pub proof fn registration_touches_one_reactor(
    m: Map<Seq<char>, ReactorState>,
    kind: Seq<char>,
    task_id: TaskId,
    waker: Waker,
)
    ensures
        ({
            let post = with_waker(m, kind, task_id, waker);
            &&& post.dom() == m.dom()
            &&& post.remove(kind) == m.remove(kind)
            &&& forall|k: Seq<char>| k != kind && #[trigger] m.contains_key(k) ==> post[k] == m[k]
            &&& m.contains_key(kind) ==> {
                &&& post[kind].wakers == m[kind].wakers.insert(task_id, waker)
                &&& post[kind].kind == m[kind].kind
                &&& post[kind].running == m[kind].running
            }
            &&& !m.contains_key(kind) ==> post == m
        }),
{
    let post = with_waker(m, kind, task_id, waker);
    if m.contains_key(kind) {
        assert(post.dom() =~= m.dom());
    }
    assert(post.remove(kind) =~= m.remove(kind));
}

/// Each task of this library waits on the reactor of its own kind and reports under
/// its kind's label.
pub proof fn tasks_wait_on_their_own_reactor(n: NetworkTask, f: FileTask, t: TimerTask)
    ensures
        n.spec_reactor_type() == "network"@,
        f.spec_reactor_type() == "file"@,
        t.spec_reactor_type() == "timer"@,
        AnyTask::Network(n).spec_reactor_type() == "network"@,
        AnyTask::File(f).spec_reactor_type() == "file"@,
        AnyTask::Timer(t).spec_reactor_type() == "timer"@,
        AnyTask::Network(n).label() == "网络任务 "@,
        AnyTask::File(f).label() == "文件任务 "@,
        AnyTask::Timer(t).label() == "定时器任务 "@,
        AnyTask::Network(n).spec_task_id() == n.spec_task_id(),
        AnyTask::File(f).spec_task_id() == f.spec_task_id(),
        AnyTask::Timer(t).spec_task_id() == t.spec_task_id(),
{
}

/// Polling a task through `AnyTask` does to the task and to the reactors exactly what
/// polling the task it wraps does, for each kind.
pub proof fn any_task_polls_as_the_task_it_wraps(
    w: Waker,
    pre_r: Map<Seq<char>, ReactorState>,
    post_r: Map<Seq<char>, ReactorState>,
    n: NetworkTask,
    n2: NetworkTask,
    f: FileTask,
    f2: FileTask,
    t: TimerTask,
    t2: TimerTask,
)
    ensures
        AnyTask::Network(n).polled(w, pre_r, AnyTask::Network(n2), post_r) <==> n.polled(w, pre_r, n2, post_r),
        AnyTask::File(f).polled(w, pre_r, AnyTask::File(f2), post_r) <==> f.polled(w, pre_r, f2, post_r),
        AnyTask::Timer(t).polled(w, pre_r, AnyTask::Timer(t2), post_r) <==> t.polled(w, pre_r, t2, post_r),
        AnyTask::Network(n).is_ready() == n.is_ready(),
        AnyTask::File(f).is_ready() == f.is_ready(),
        AnyTask::Timer(t).is_ready() == t.is_ready(),
{
}

}
