//! The scheduling decisions of a worker: which queue a new task joins, which
//! task a worker takes next, whether the CPU budget admits a task, and when a
//! worker may stop.

use vstd::prelude::*;
use std::collections::VecDeque;
use crate::task::{Kind, Task};

verus! {

broadcast use vstd::seq_lib::group_seq_properties;

/// Every task in the IO queue is an IO task and every task in the CPU queue
/// a CPU task.
pub open spec fn sorted_by_kind(io: Seq<Task>, cpu: Seq<Task>) -> bool {
    &&& forall|i: int| 0 <= i < io.len() ==> (#[trigger] io[i]).kind == Kind::Io
    &&& forall|i: int| 0 <= i < cpu.len() ==> (#[trigger] cpu[i]).kind == Kind::Cpu
}

/// Where a task goes: to the back of the queue of its kind.
pub open spec fn dispatch_model(task: Task, io: Seq<Task>, cpu: Seq<Task>) -> (Seq<Task>, Seq<Task>) {
    match task.kind {
        Kind::Io => (io.push(task), cpu),
        Kind::Cpu => (io, cpu.push(task)),
    }
}

/// Puts `task` at the back of the queue of its kind; the other queue is untouched.
pub fn dispatch(task: Task, io_queue: &mut VecDeque<Task>, cpu_queue: &mut VecDeque<Task>)
    ensures
        (final(io_queue)@, final(cpu_queue)@) == dispatch_model(task, old(io_queue)@, old(cpu_queue)@),
        task.kind == Kind::Io ==> final(io_queue)@ == old(io_queue)@.push(task)
            && final(cpu_queue)@ == old(cpu_queue)@,
        task.kind == Kind::Cpu ==> final(cpu_queue)@ == old(cpu_queue)@.push(task)
            && final(io_queue)@ == old(io_queue)@,
{
    match task.kind {
        Kind::Io => io_queue.push_back(task),
        Kind::Cpu => cpu_queue.push_back(task),
    }
}

/// The weighted policy: take the front of the preferred queue; when that one
/// is empty, the front of the other; when both are empty, nothing. The result
/// is the task taken, if any, and the IO and CPU queues after the pick.
pub open spec fn pick_model(io: Seq<Task>, cpu: Seq<Task>, prefer_io: bool) -> (Option<Task>, Seq<Task>, Seq<Task>) {
    if prefer_io {
        if io.len() > 0 {
            (Some(io[0]), io.drop_first(), cpu)
        } else if cpu.len() > 0 {
            (Some(cpu[0]), io, cpu.drop_first())
        } else {
            (None, io, cpu)
        }
    } else {
        if cpu.len() > 0 {
            (Some(cpu[0]), io, cpu.drop_first())
        } else if io.len() > 0 {
            (Some(io[0]), io.drop_first(), cpu)
        } else {
            (None, io, cpu)
        }
    }
}

/// The preference a worker starts with: even-numbered workers prefer IO
/// tasks first, odd-numbered ones CPU tasks, so neighbouring workers start
/// on different queues.
pub fn prefers_io_first(worker_id: usize) -> (prefer_io: bool)
    ensures
        prefer_io == (worker_id % 2 == 0),
        worker_id > 0 ==> prefer_io != (((worker_id - 1) as int) % 2 == 0),
{
    worker_id % 2 == 0
}

/// Takes the next task by the weighted policy and flips the preference, so
/// that a worker alternates between preferring IO and preferring CPU tasks.
pub fn pick_task(
    io_queue: &mut VecDeque<Task>,
    cpu_queue: &mut VecDeque<Task>,
    prefer_io: &mut bool,
) -> (task: Option<Task>)
    ensures
        task == pick_model(old(io_queue)@, old(cpu_queue)@, *old(prefer_io)).0,
        final(io_queue)@ == pick_model(old(io_queue)@, old(cpu_queue)@, *old(prefer_io)).1,
        final(cpu_queue)@ == pick_model(old(io_queue)@, old(cpu_queue)@, *old(prefer_io)).2,
        *final(prefer_io) == !*old(prefer_io),
        old(io_queue)@.len() == 0 && old(cpu_queue)@.len() == 0 ==> task is None
            && final(io_queue)@ == old(io_queue)@ && final(cpu_queue)@ == old(cpu_queue)@,
        task matches Some(t) ==> (final(io_queue)@ == old(io_queue)@.drop_first()
            && final(cpu_queue)@ == old(cpu_queue)@ && t == old(io_queue)@[0])
            || (final(cpu_queue)@ == old(cpu_queue)@.drop_first()
            && final(io_queue)@ == old(io_queue)@ && t == old(cpu_queue)@[0]),
        *old(prefer_io) && old(io_queue)@.len() > 0 ==> task == Some(old(io_queue)@[0]),
        !*old(prefer_io) && old(cpu_queue)@.len() > 0 ==> task == Some(old(cpu_queue)@[0]),
        *old(prefer_io) && old(io_queue)@.len() == 0 && old(cpu_queue)@.len() > 0 ==> task == Some(old(cpu_queue)@[0]),
        !*old(prefer_io) && old(cpu_queue)@.len() == 0 && old(io_queue)@.len() > 0 ==> task == Some(old(io_queue)@[0]),
{
    let task = if *prefer_io {
        match io_queue.pop_front() {
            Some(t) => Some(t),
            None => cpu_queue.pop_front(),
        }
    } else {
        match cpu_queue.pop_front() {
            Some(t) => Some(t),
            None => io_queue.pop_front(),
        }
    };
    *prefer_io = !*prefer_io;
    task
}

/// Dispatching appends exactly the task to the back of the queue of its kind
/// and leaves the other queue as it was: together the queues grow by one, and
/// the task is the last of its queue.
pub proof fn lemma_dispatch_appends(task: Task, io: Seq<Task>, cpu: Seq<Task>)
    ensures
        ({
            let d = dispatch_model(task, io, cpu);
            &&& task.kind == Kind::Io ==> d.0 == io.push(task) && d.1 == cpu
            &&& task.kind == Kind::Cpu ==> d.1 == cpu.push(task) && d.0 == io
            &&& d.0.len() + d.1.len() == io.len() + cpu.len() + 1
            &&& task.kind == Kind::Io ==> d.0.last() == task
            &&& task.kind == Kind::Cpu ==> d.1.last() == task
        }),
{
}

/// A pick takes the front task of the preferred queue when it has one,
/// otherwise the front of the other queue, removing just that task, and
/// takes nothing from two empty queues.
pub proof fn lemma_pick_takes_front(io: Seq<Task>, cpu: Seq<Task>, prefer_io: bool)
    ensures
        ({
            let p = pick_model(io, cpu, prefer_io);
            &&& prefer_io && io.len() > 0 ==> p.0 == Some(io[0]) && p.1 == io.subrange(1, io.len() as int) && p.2 == cpu
            &&& !prefer_io && cpu.len() > 0 ==> p.0 == Some(cpu[0]) && p.2 == cpu.subrange(1, cpu.len() as int) && p.1 == io
            &&& prefer_io && io.len() == 0 && cpu.len() > 0 ==> p.0 == Some(cpu[0]) && p.2 == cpu.subrange(1, cpu.len() as int) && p.1 == io
            &&& !prefer_io && cpu.len() == 0 && io.len() > 0 ==> p.0 == Some(io[0]) && p.1 == io.subrange(1, io.len() as int) && p.2 == cpu
            &&& io.len() == 0 && cpu.len() == 0 ==> p.0 is None && p.1 == io && p.2 == cpu
        }),
{
}

/// A pick finds nothing only when both queues are empty.
pub proof fn lemma_pick_none_iff_empty(io: Seq<Task>, cpu: Seq<Task>, prefer_io: bool)
    ensures
        pick_model(io, cpu, prefer_io).0 is None <==> (io.len() == 0 && cpu.len() == 0),
{
}

/// No task is lost or duplicated by a pick: the tasks of both queues before
/// it are those after it plus the one taken.
pub proof fn lemma_pick_conserves_tasks(io: Seq<Task>, cpu: Seq<Task>, prefer_io: bool)
    ensures
        ({
            let p = pick_model(io, cpu, prefer_io);
            match p.0 {
                Some(t) => (io + cpu).to_multiset() == (p.1 + p.2).to_multiset().insert(t),
                None => p.1 == io && p.2 == cpu,
            }
        }),
{
    let p = pick_model(io, cpu, prefer_io);
    if let Some(t) = p.0 {
        vstd::seq_lib::lemma_multiset_commutative(io, cpu);
        vstd::seq_lib::lemma_multiset_commutative(p.1, p.2);
        if p.1.len() < io.len() {
            assert(io =~= seq![t] + p.1);
            vstd::seq_lib::lemma_multiset_commutative(seq![t], p.1);
        } else {
            assert(cpu =~= seq![t] + p.2);
            vstd::seq_lib::lemma_multiset_commutative(seq![t], p.2);
        }
    }
}

/// Neither kind starves: with tasks waiting in both queues, two picks in a
/// row take the front task of each queue, the preferred one first.
pub proof fn lemma_no_starvation(io: Seq<Task>, cpu: Seq<Task>, prefer_io: bool)
    requires
        io.len() > 0,
        cpu.len() > 0,
    ensures
        ({
            let first = pick_model(io, cpu, prefer_io);
            let second = pick_model(first.1, first.2, !prefer_io);
            if prefer_io {
                first.0 == Some(io[0]) && second.0 == Some(cpu[0])
            } else {
                first.0 == Some(cpu[0]) && second.0 == Some(io[0])
            }
        }),
{
}

/// Dispatching and picking keep each queue to its own kind.
pub proof fn lemma_queues_stay_sorted(io: Seq<Task>, cpu: Seq<Task>, task: Task, prefer_io: bool)
    requires
        sorted_by_kind(io, cpu),
    ensures
        sorted_by_kind(dispatch_model(task, io, cpu).0, dispatch_model(task, io, cpu).1),
        sorted_by_kind(pick_model(io, cpu, prefer_io).1, pick_model(io, cpu, prefer_io).2),
        pick_model(io, cpu, prefer_io).0 matches Some(t) ==> (t.kind == Kind::Io
            <==> pick_model(io, cpu, prefer_io).1.len() < io.len()),
{
    let d = dispatch_model(task, io, cpu);
    assert forall|i: int| 0 <= i < d.0.len() implies (#[trigger] d.0[i]).kind == Kind::Io by {
        if i < io.len() {
            assert(d.0[i] == io[i]);
        }
    }
    assert forall|i: int| 0 <= i < d.1.len() implies (#[trigger] d.1[i]).kind == Kind::Cpu by {
        if i < cpu.len() {
            assert(d.1[i] == cpu[i]);
        }
    }
    let p = pick_model(io, cpu, prefer_io);
    assert forall|i: int| 0 <= i < p.1.len() implies (#[trigger] p.1[i]).kind == Kind::Io by {
        if p.1.len() < io.len() {
            assert(p.1[i] == io[i + 1]);
        }
    }
    assert forall|i: int| 0 <= i < p.2.len() implies (#[trigger] p.2[i]).kind == Kind::Cpu by {
        if p.2.len() < cpu.len() {
            assert(p.2[i] == cpu[i + 1]);
        }
    }
}

/// A task dispatched into empty queues is the next one a worker takes,
/// whatever its preference, and the queues are empty again; and a task
/// dispatched behind others of its kind does not overtake them.
pub proof fn lemma_dispatch_then_pick(task: Task, io: Seq<Task>, cpu: Seq<Task>, prefer_io: bool)
    ensures
        io.len() == 0 && cpu.len() == 0 ==> {
            let d = dispatch_model(task, io, cpu);
            let p = pick_model(d.0, d.1, prefer_io);
            p.0 == Some(task) && p.1.len() == 0 && p.2.len() == 0
        },
        task.kind == Kind::Io && io.len() > 0 ==> {
            let d = dispatch_model(task, io, cpu);
            pick_model(d.0, d.1, true).0 == Some(io[0])
        },
        task.kind == Kind::Cpu && cpu.len() > 0 ==> {
            let d = dispatch_model(task, io, cpu);
            pick_model(d.0, d.1, false).0 == Some(cpu[0])
        },
{
}

/// CPU admission control: a task of cost `cost` may start when the CPU in
/// use plus its cost stays within the budget.
pub fn admits(current_usage: usize, cost: usize, budget: usize) -> (ok: bool)
    ensures
        ok == (current_usage + cost <= budget),
{
    cost <= budget && current_usage <= budget - cost
}

/// A worker that found both queues empty stops once the generator is done
/// and both queues are still empty; otherwise it waits and tries again.
pub fn should_stop(generator_done: bool, io_empty: bool, cpu_empty: bool) -> (stop: bool)
    ensures
        stop == (generator_done && io_empty && cpu_empty),
{
    generator_done && io_empty && cpu_empty
}

} // verus!
