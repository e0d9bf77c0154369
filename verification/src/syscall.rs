//! The syscall surface over the task and process state. Each function is the
//! state transition a syscall performs; suspension and context switching are
//! external, so a call that parks the caller records it in the wait state and
//! hands the wake-up bookkeeping to the corresponding release call.

use vstd::prelude::*;

use crate::detect::{init_finished, lemma_rows_view_set, rows_view, safety_holds};
use crate::process::{get_cell, push_cell, set_cell, ProcessControlBlockInner};
use crate::sync::{Condvar, Mutex, Semaphore};
use crate::bytes::{counters_bytes, flat, push_u32_bytes, push_u64_bytes, u32_bytes, u64_bytes};
use crate::task::{TaskControlBlock, TaskStatus, MAX_SYSCALL_NUM};

verus! {

/// The distinguished return value of a blocking acquire rejected by the
/// deadlock-safety check.
pub const DEADLOCK_ERR: isize = -0xDEAD;

/// A freshly created mutex: free, nobody waiting, of the requested variant.
pub open spec fn fresh_mutex_slot(opt: Option<Mutex>, blocking: bool) -> bool {
    opt matches Some(m) && !m.is_locked() && m.waiters().len() == 0 && ((m is Blocking)
        == blocking)
}

/// A freshly created semaphore: the requested number of units, nobody waiting.
pub open spec fn fresh_sem_slot(opt: Option<Semaphore>, res_count: usize) -> bool {
    opt matches Some(s) && s.count == res_count as isize && s.wait_queue@.len() == 0
}

/// A freshly created condition variable: nobody waiting.
pub open spec fn fresh_condvar_slot(opt: Option<Condvar>) -> bool {
    opt matches Some(c) && c.wait_queue@.len() == 0
}

/// Create a mutex, spinning or blocking, and hand out its id: the first free
/// slot's index, an id no live resource carries, or a brand-new index when
/// every slot is occupied. One available unit and zeroed accounting columns
/// come with it.
pub fn sys_mutex_create(process_inner: &mut ProcessControlBlockInner, blocking: bool) -> (r: isize)
    requires
        old(process_inner).wf(),
        old(process_inner).mutex_list@.len() < isize::MAX,
    ensures
        final(process_inner).wf(),
        0 <= r,
        r as int <= old(process_inner).mutex_list@.len(),
        forall|j: int| 0 <= j < r as int ==> old(process_inner).mutex_live(j),
        !old(process_inner).mutex_live(r as int),
        final(process_inner).mutex_live(r as int),
        fresh_mutex_slot(final(process_inner).mutex_list@[r as int], blocking),
        final(process_inner).available_mutex@[r as int] == 1,
        forall|t: int|
            0 <= t < final(process_inner).n_tasks() ==> final(process_inner).allocation_mutex@[t]@[r as int] == 0 && final(process_inner).need_mutex@[t]@[r as int]
                == 0,
        final(process_inner).mutex_list@.len() == (if (r as int) < old(process_inner).mutex_list@.len() {
            old(process_inner).mutex_list@.len() as int
        } else {
            old(process_inner).mutex_list@.len() as int + 1
        }),
        forall|j: int|
            0 <= j < old(process_inner).mutex_list@.len() && j != r as int ==> final(process_inner).mutex_list@[j] == old(process_inner).mutex_list@[j] && final(process_inner).available_mutex@[j] == old(process_inner).available_mutex@[j],
        forall|t: int, j: int|
            0 <= t < old(process_inner).n_tasks() && 0 <= j < old(process_inner).mutex_list@.len()
                && j != r as int ==> final(process_inner).allocation_mutex@[t]@[j] == old(process_inner).allocation_mutex@[t]@[j] && final(process_inner).need_mutex@[t]@[j] == old(process_inner).need_mutex@[t]@[j],
        final(process_inner).semaphore_list@ == old(process_inner).semaphore_list@,
        final(process_inner).available_sem@ == old(process_inner).available_sem@,
        final(process_inner).allocation_sem@ == old(process_inner).allocation_sem@,
        final(process_inner).need_sem@ == old(process_inner).need_sem@,
        final(process_inner).condvar_list@ == old(process_inner).condvar_list@,
        final(process_inner).tasks_live@ == old(process_inner).tasks_live@,
        final(process_inner).deadlock_detect == old(process_inner).deadlock_detect,
{
    let n = process_inner.mutex_list.len();
    let mut id: usize = 0;
    while id < n && process_inner.mutex_list[id].is_some()
        invariant
            0 <= id <= n,
            n == process_inner.mutex_list@.len(),
            forall|j: int| 0 <= j < id ==> (#[trigger] process_inner.mutex_list@[j]) is Some,
            *process_inner == *old(process_inner),
        decreases n - id,
    {
        id = id + 1;
    }
    let rows = process_inner.allocation_mutex.len();
    if id < n {
        process_inner.mutex_list.set(id, Some(Mutex::new(blocking)));
        process_inner.available_mutex.set(id, 1);
        let ghost p_mid = *process_inner;
        let mut t: usize = 0;
        while t < rows
            invariant
                0 <= t <= rows,
                rows == old(process_inner).n_tasks(),
                id < old(process_inner).mutex_list@.len(),
                old(process_inner).wf(),
                process_inner.mutex_list@ == p_mid.mutex_list@,
                process_inner.available_mutex@ == p_mid.available_mutex@,
                process_inner.semaphore_list@ == old(process_inner).semaphore_list@,
                process_inner.available_sem@ == old(process_inner).available_sem@,
                process_inner.allocation_sem@ == old(process_inner).allocation_sem@,
                process_inner.need_sem@ == old(process_inner).need_sem@,
                process_inner.condvar_list@ == old(process_inner).condvar_list@,
                process_inner.tasks_live@ == old(process_inner).tasks_live@,
                process_inner.deadlock_detect == old(process_inner).deadlock_detect,
                process_inner.allocation_mutex@.len() == rows,
                process_inner.need_mutex@.len() == rows,
                forall|x: int|
                    0 <= x < t ==> (#[trigger] process_inner.allocation_mutex@[x])@ == old(process_inner).allocation_mutex@[x]@.update(id as int, 0usize),
                forall|x: int|
                    0 <= x < t ==> (#[trigger] process_inner.need_mutex@[x])@ == old(process_inner).need_mutex@[x]@.update(id as int, 0usize),
                forall|x: int|
                    t <= x < rows ==> (#[trigger] process_inner.allocation_mutex@[x]) == old(process_inner).allocation_mutex@[x],
                forall|x: int|
                    t <= x < rows ==> (#[trigger] process_inner.need_mutex@[x]) == old(process_inner).need_mutex@[x],
            decreases rows - t,
        {
            set_cell(&mut process_inner.allocation_mutex, t, id, 0);
            set_cell(&mut process_inner.need_mutex, t, id, 0);
            t = t + 1;
        }
        id as isize
    } else {
        process_inner.mutex_list.push(Some(Mutex::new(blocking)));
        process_inner.available_mutex.push(1);
        let ghost p_mid = *process_inner;
        let mut t: usize = 0;
        while t < rows
            invariant
                0 <= t <= rows,
                rows == old(process_inner).n_tasks(),
                id == old(process_inner).mutex_list@.len(),
                old(process_inner).wf(),
                process_inner.mutex_list@ == p_mid.mutex_list@,
                process_inner.available_mutex@ == p_mid.available_mutex@,
                process_inner.semaphore_list@ == old(process_inner).semaphore_list@,
                process_inner.available_sem@ == old(process_inner).available_sem@,
                process_inner.allocation_sem@ == old(process_inner).allocation_sem@,
                process_inner.need_sem@ == old(process_inner).need_sem@,
                process_inner.condvar_list@ == old(process_inner).condvar_list@,
                process_inner.tasks_live@ == old(process_inner).tasks_live@,
                process_inner.deadlock_detect == old(process_inner).deadlock_detect,
                process_inner.allocation_mutex@.len() == rows,
                process_inner.need_mutex@.len() == rows,
                forall|x: int|
                    0 <= x < t ==> (#[trigger] process_inner.allocation_mutex@[x])@ == old(process_inner).allocation_mutex@[x]@.push(0usize),
                forall|x: int|
                    0 <= x < t ==> (#[trigger] process_inner.need_mutex@[x])@ == old(process_inner).need_mutex@[x]@.push(0usize),
                forall|x: int|
                    t <= x < rows ==> (#[trigger] process_inner.allocation_mutex@[x]) == old(process_inner).allocation_mutex@[x],
                forall|x: int|
                    t <= x < rows ==> (#[trigger] process_inner.need_mutex@[x]) == old(process_inner).need_mutex@[x],
            decreases rows - t,
        {
            push_cell(&mut process_inner.allocation_mutex, t, 0);
            push_cell(&mut process_inner.need_mutex, t, 0);
            t = t + 1;
        }
        id as isize
    }
}

/// Create a counting semaphore with `res_count` initial units and hand out
/// its id: the first free slot's index, an id no live resource carries, or a
/// brand-new index when every slot is occupied. The availability entry and
/// zeroed accounting columns come with it.
pub fn sys_semaphore_create(process_inner: &mut ProcessControlBlockInner, res_count: usize) -> (r: isize)
    requires
        old(process_inner).wf(),
        old(process_inner).semaphore_list@.len() < isize::MAX,
        res_count <= isize::MAX,
    ensures
        final(process_inner).wf(),
        0 <= r,
        r as int <= old(process_inner).semaphore_list@.len(),
        forall|j: int| 0 <= j < r as int ==> old(process_inner).sem_live(j),
        !old(process_inner).sem_live(r as int),
        final(process_inner).sem_live(r as int),
        fresh_sem_slot(final(process_inner).semaphore_list@[r as int], res_count),
        final(process_inner).available_sem@[r as int] == res_count,
        forall|t: int|
            0 <= t < final(process_inner).n_tasks() ==> final(process_inner).allocation_sem@[t]@[r as int] == 0 && final(process_inner).need_sem@[t]@[r as int]
                == 0,
        final(process_inner).semaphore_list@.len() == (if (r as int) < old(process_inner).semaphore_list@.len() {
            old(process_inner).semaphore_list@.len() as int
        } else {
            old(process_inner).semaphore_list@.len() as int + 1
        }),
        forall|j: int|
            0 <= j < old(process_inner).semaphore_list@.len() && j != r as int ==> final(process_inner).semaphore_list@[j] == old(process_inner).semaphore_list@[j] && final(process_inner).available_sem@[j] == old(process_inner).available_sem@[j],
        forall|t: int, j: int|
            0 <= t < old(process_inner).n_tasks() && 0 <= j < old(process_inner).semaphore_list@.len()
                && j != r as int ==> final(process_inner).allocation_sem@[t]@[j] == old(process_inner).allocation_sem@[t]@[j] && final(process_inner).need_sem@[t]@[j] == old(process_inner).need_sem@[t]@[j],
        final(process_inner).mutex_list@ == old(process_inner).mutex_list@,
        final(process_inner).available_mutex@ == old(process_inner).available_mutex@,
        final(process_inner).allocation_mutex@ == old(process_inner).allocation_mutex@,
        final(process_inner).need_mutex@ == old(process_inner).need_mutex@,
        final(process_inner).condvar_list@ == old(process_inner).condvar_list@,
        final(process_inner).tasks_live@ == old(process_inner).tasks_live@,
        final(process_inner).deadlock_detect == old(process_inner).deadlock_detect,
{
    let n = process_inner.semaphore_list.len();
    let mut id: usize = 0;
    while id < n && process_inner.semaphore_list[id].is_some()
        invariant
            0 <= id <= n,
            n == process_inner.semaphore_list@.len(),
            forall|j: int| 0 <= j < id ==> (#[trigger] process_inner.semaphore_list@[j]) is Some,
            *process_inner == *old(process_inner),
        decreases n - id,
    {
        id = id + 1;
    }
    let rows = process_inner.allocation_sem.len();
    if id < n {
        process_inner.semaphore_list.set(id, Some(Semaphore::new(res_count)));
        process_inner.available_sem.set(id, res_count);
        let ghost p_mid = *process_inner;
        let mut t: usize = 0;
        while t < rows
            invariant
                0 <= t <= rows,
                rows == old(process_inner).n_tasks(),
                id < old(process_inner).semaphore_list@.len(),
                old(process_inner).wf(),
                process_inner.semaphore_list@ == p_mid.semaphore_list@,
                process_inner.available_sem@ == p_mid.available_sem@,
                process_inner.mutex_list@ == old(process_inner).mutex_list@,
                process_inner.available_mutex@ == old(process_inner).available_mutex@,
                process_inner.allocation_mutex@ == old(process_inner).allocation_mutex@,
                process_inner.need_mutex@ == old(process_inner).need_mutex@,
                process_inner.condvar_list@ == old(process_inner).condvar_list@,
                process_inner.tasks_live@ == old(process_inner).tasks_live@,
                process_inner.deadlock_detect == old(process_inner).deadlock_detect,
                process_inner.allocation_sem@.len() == rows,
                process_inner.need_sem@.len() == rows,
                forall|x: int|
                    0 <= x < t ==> (#[trigger] process_inner.allocation_sem@[x])@ == old(process_inner).allocation_sem@[x]@.update(id as int, 0usize),
                forall|x: int|
                    0 <= x < t ==> (#[trigger] process_inner.need_sem@[x])@ == old(process_inner).need_sem@[x]@.update(id as int, 0usize),
                forall|x: int|
                    t <= x < rows ==> (#[trigger] process_inner.allocation_sem@[x]) == old(process_inner).allocation_sem@[x],
                forall|x: int|
                    t <= x < rows ==> (#[trigger] process_inner.need_sem@[x]) == old(process_inner).need_sem@[x],
            decreases rows - t,
        {
            set_cell(&mut process_inner.allocation_sem, t, id, 0);
            set_cell(&mut process_inner.need_sem, t, id, 0);
            t = t + 1;
        }
        id as isize
    } else {
        process_inner.semaphore_list.push(Some(Semaphore::new(res_count)));
        process_inner.available_sem.push(res_count);
        let ghost p_mid = *process_inner;
        let mut t: usize = 0;
        while t < rows
            invariant
                0 <= t <= rows,
                rows == old(process_inner).n_tasks(),
                id == old(process_inner).semaphore_list@.len(),
                old(process_inner).wf(),
                process_inner.semaphore_list@ == p_mid.semaphore_list@,
                process_inner.available_sem@ == p_mid.available_sem@,
                process_inner.mutex_list@ == old(process_inner).mutex_list@,
                process_inner.available_mutex@ == old(process_inner).available_mutex@,
                process_inner.allocation_mutex@ == old(process_inner).allocation_mutex@,
                process_inner.need_mutex@ == old(process_inner).need_mutex@,
                process_inner.condvar_list@ == old(process_inner).condvar_list@,
                process_inner.tasks_live@ == old(process_inner).tasks_live@,
                process_inner.deadlock_detect == old(process_inner).deadlock_detect,
                process_inner.allocation_sem@.len() == rows,
                process_inner.need_sem@.len() == rows,
                forall|x: int|
                    0 <= x < t ==> (#[trigger] process_inner.allocation_sem@[x])@ == old(process_inner).allocation_sem@[x]@.push(0usize),
                forall|x: int|
                    0 <= x < t ==> (#[trigger] process_inner.need_sem@[x])@ == old(process_inner).need_sem@[x]@.push(0usize),
                forall|x: int|
                    t <= x < rows ==> (#[trigger] process_inner.allocation_sem@[x]) == old(process_inner).allocation_sem@[x],
                forall|x: int|
                    t <= x < rows ==> (#[trigger] process_inner.need_sem@[x]) == old(process_inner).need_sem@[x],
            decreases rows - t,
        {
            push_cell(&mut process_inner.allocation_sem, t, 0);
            push_cell(&mut process_inner.need_sem, t, 0);
            t = t + 1;
        }
        id as isize
    }
}

/// Take the mutex in slot `id` for `tid`, or record `tid` as waiting.
fn mutex_slot_lock(list: &mut Vec<Option<Mutex>>, id: usize, tid: usize) -> (acquired: bool)
    requires
        id < old(list)@.len(),
        old(list)@[id as int] is Some,
    ensures
        final(list)@.len() == old(list)@.len(),
        forall|j: int| 0 <= j < old(list)@.len() && j != id ==> final(list)@[j] == old(list)@[j],
        final(list)@[id as int] is Some,
        ({
            let m0 = old(list)@[id as int]->0;
            let m1 = final(list)@[id as int]->0;
            &&& m0.same_variant(m1)
            &&& acquired == !m0.is_locked()
            &&& m1.is_locked()
            &&& (acquired ==> m1.waiters() == m0.waiters())
            &&& (!acquired ==> m1.waiters() == m0.waiters().push(tid))
        }),
{
    let slot = &mut list[id];
    match slot {
        Some(m) => m.lock(tid),
        None => {
            proof {
                assert(false);
            }
            false
        },
    }
}

/// Release the mutex in slot `id`; the earliest waiter, if any, becomes the
/// holder and is returned.
fn mutex_slot_unlock(list: &mut Vec<Option<Mutex>>, id: usize) -> (woken: Option<usize>)
    requires
        id < old(list)@.len(),
        old(list)@[id as int] is Some,
        (old(list)@[id as int]->0).is_locked(),
    ensures
        final(list)@.len() == old(list)@.len(),
        forall|j: int| 0 <= j < old(list)@.len() && j != id ==> final(list)@[j] == old(list)@[j],
        final(list)@[id as int] is Some,
        ({
            let m0 = old(list)@[id as int]->0;
            let m1 = final(list)@[id as int]->0;
            &&& m0.same_variant(m1)
            &&& (m0.waiters().len() == 0 ==> woken.is_none() && !m1.is_locked() && m1.waiters()
                == m0.waiters())
            &&& (m0.waiters().len() > 0 ==> woken == Some(m0.waiters()[0]) && m1.is_locked()
                && m1.waiters() == m0.waiters().subrange(1, m0.waiters().len() as int))
        }),
{
    let slot = &mut list[id];
    match slot {
        Some(m) => m.unlock(),
        None => {
            proof {
                assert(false);
            }
            None
        },
    }
}

/// Take one unit of the semaphore in slot `id` for `tid`, or park `tid`.
fn sem_slot_down(list: &mut Vec<Option<Semaphore>>, id: usize, tid: usize) -> (acquired: bool)
    requires
        id < old(list)@.len(),
        old(list)@[id as int] is Some,
        (old(list)@[id as int]->0).wf(),
        (old(list)@[id as int]->0).count > isize::MIN,
    ensures
        final(list)@.len() == old(list)@.len(),
        forall|j: int| 0 <= j < old(list)@.len() && j != id ==> final(list)@[j] == old(list)@[j],
        final(list)@[id as int] is Some,
        ({
            let s0 = old(list)@[id as int]->0;
            let s1 = final(list)@[id as int]->0;
            &&& s1.wf()
            &&& s1.count == s0.count - 1
            &&& acquired == (s0.count > 0)
            &&& (acquired ==> s1.wait_queue@ == s0.wait_queue@)
            &&& (!acquired ==> s1.wait_queue@ == s0.wait_queue@.push(tid))
        }),
{
    let slot = &mut list[id];
    match slot {
        Some(s) => s.down(tid),
        None => {
            proof {
                assert(false);
            }
            false
        },
    }
}

/// Return one unit of the semaphore in slot `id`; the earliest parked task,
/// if any, is woken and takes the unit.
fn sem_slot_up(list: &mut Vec<Option<Semaphore>>, id: usize) -> (woken: Option<usize>)
    requires
        id < old(list)@.len(),
        old(list)@[id as int] is Some,
        (old(list)@[id as int]->0).wf(),
        (old(list)@[id as int]->0).count < isize::MAX,
    ensures
        final(list)@.len() == old(list)@.len(),
        forall|j: int| 0 <= j < old(list)@.len() && j != id ==> final(list)@[j] == old(list)@[j],
        final(list)@[id as int] is Some,
        ({
            let s0 = old(list)@[id as int]->0;
            let s1 = final(list)@[id as int]->0;
            &&& s1.wf()
            &&& s1.count == s0.count + 1
            &&& (s0.count < 0 ==> woken == Some(s0.wait_queue@[0]) && s1.wait_queue@
                == s0.wait_queue@.subrange(1, s0.wait_queue@.len() as int))
            &&& (s0.count >= 0 ==> woken.is_none() && s1.wait_queue@ == s0.wait_queue@)
        }),
{
    let slot = &mut list[id];
    match slot {
        Some(s) => s.up(),
        None => {
            proof {
                assert(false);
            }
            None
        },
    }
}

/// Park `tid` on the condition variable in slot `id`.
fn condvar_slot_add_waiter(list: &mut Vec<Option<Condvar>>, id: usize, tid: usize)
    requires
        id < old(list)@.len(),
        old(list)@[id as int] is Some,
    ensures
        final(list)@.len() == old(list)@.len(),
        forall|j: int| 0 <= j < old(list)@.len() && j != id ==> final(list)@[j] == old(list)@[j],
        final(list)@[id as int] is Some,
        (final(list)@[id as int]->0).wait_queue@ == (old(list)@[id as int]->0).wait_queue@.push(
            tid,
        ),
{
    let slot = &mut list[id];
    match slot {
        Some(c) => c.add_waiter(tid),
        None => {
            proof {
                assert(false);
            }
        },
    }
}

/// Wake the earliest waiter of the condition variable in slot `id`, if any.
fn condvar_slot_signal(list: &mut Vec<Option<Condvar>>, id: usize) -> (woken: Option<usize>)
    requires
        id < old(list)@.len(),
        old(list)@[id as int] is Some,
    ensures
        final(list)@.len() == old(list)@.len(),
        forall|j: int| 0 <= j < old(list)@.len() && j != id ==> final(list)@[j] == old(list)@[j],
        final(list)@[id as int] is Some,
        ({
            let c0 = old(list)@[id as int]->0;
            let c1 = final(list)@[id as int]->0;
            &&& (c0.wait_queue@.len() == 0 ==> woken.is_none() && c1.wait_queue@ == c0.wait_queue@)
            &&& (c0.wait_queue@.len() > 0 ==> woken == Some(c0.wait_queue@[0]) && c1.wait_queue@
                == c0.wait_queue@.subrange(1, c0.wait_queue@.len() as int))
        }),
{
    let slot = &mut list[id];
    match slot {
        Some(c) => c.signal(),
        None => {
            proof {
                assert(false);
            }
            None
        },
    }
}

/// Both states hold the same observable process state: the same slots, the
/// same availability, the same accounting cells, the same tasks and switch.
pub open spec fn same_proc_state(a: ProcessControlBlockInner, b: ProcessControlBlockInner) -> bool {
    &&& a.mutex_list@ == b.mutex_list@
    &&& a.semaphore_list@ == b.semaphore_list@
    &&& a.condvar_list@ == b.condvar_list@
    &&& a.available_mutex@ == b.available_mutex@
    &&& a.available_sem@ == b.available_sem@
    &&& rows_view(a.allocation_mutex@) == rows_view(b.allocation_mutex@)
    &&& rows_view(a.need_mutex@) == rows_view(b.need_mutex@)
    &&& rows_view(a.allocation_sem@) == rows_view(b.allocation_sem@)
    &&& rows_view(a.need_sem@) == rows_view(b.need_sem@)
    &&& a.tasks_live@ == b.tasks_live@
    &&& a.deadlock_detect == b.deadlock_detect
}

/// The safety check, run on the mutex tables with `tid`'s want for
/// `mutex_id` recorded, turns the request down.
pub open spec fn mutex_lock_rejected(p: ProcessControlBlockInner, tid: int, mutex_id: int) -> bool {
    p.deadlock_detect && !safety_holds(
        p.available_mutex@,
        rows_view(p.allocation_mutex@),
        rows_view(p.need_mutex@).update(
            tid,
            p.need_mutex@[tid]@.update(mutex_id, (p.need_mutex@[tid]@[mutex_id] + 1) as usize),
        ),
        init_finished(p.tasks_live@),
    )
}

/// The safety check, run on the semaphore tables with `tid`'s want for
/// `sem_id` recorded, turns the request down.
pub open spec fn sem_down_rejected(p: ProcessControlBlockInner, tid: int, sem_id: int) -> bool {
    p.deadlock_detect && !safety_holds(
        p.available_sem@,
        rows_view(p.allocation_sem@),
        rows_view(p.need_sem@).update(
            tid,
            p.need_sem@[tid]@.update(sem_id, (p.need_sem@[tid]@[sem_id] + 1) as usize),
        ),
        init_finished(p.tasks_live@),
    )
}

/// Acquire the mutex `mutex_id` for task `tid`. The want is recorded first;
/// with detection enabled an unsafe state rejects the request with the
/// distinguished error and rolls the want back. Otherwise a free mutex is
/// taken at once, with the accounting moved from need to allocation; a held
/// one parks `tid` (the want stays outstanding until the holder's unlock
/// hands the mutex over).
pub fn sys_mutex_lock(process_inner: &mut ProcessControlBlockInner, tid: usize, mutex_id: usize)
    -> (r: isize)
    requires
        old(process_inner).wf(),
        tid < old(process_inner).n_tasks(),
        old(process_inner).mutex_live(mutex_id as int),
        old(process_inner).need_mutex@[tid as int]@[mutex_id as int] < usize::MAX,
        old(process_inner).allocation_mutex@[tid as int]@[mutex_id as int] < usize::MAX,
    ensures
        final(process_inner).wf(),
        r == 0 || r == DEADLOCK_ERR,
        (r == DEADLOCK_ERR) == mutex_lock_rejected(*old(process_inner), tid as int, mutex_id as int),
        r == DEADLOCK_ERR ==> same_proc_state(*final(process_inner), *old(process_inner)),
        r == 0 ==> ({
            let m0 = old(process_inner).mutex_list@[mutex_id as int]->0;
            let m1 = final(process_inner).mutex_list@[mutex_id as int]->0;
            &&& final(process_inner).mutex_live(mutex_id as int)
            &&& m0.same_variant(m1)
            &&& m1.is_locked()
            &&& (!m0.is_locked() ==> m1.waiters() == m0.waiters() && final(process_inner).available_mutex@[mutex_id as int] == 0 && final(process_inner).allocation_mutex@[tid as int]@[mutex_id as int] == old(process_inner).allocation_mutex@[tid as int]@[mutex_id as int] + 1 && rows_view(final(process_inner).need_mutex@) == rows_view(old(process_inner).need_mutex@))
            &&& (m0.is_locked() ==> m1.waiters() == m0.waiters().push(tid) && final(process_inner).available_mutex@ == old(process_inner).available_mutex@ && rows_view(final(process_inner).allocation_mutex@) == rows_view(old(process_inner).allocation_mutex@) && final(process_inner).need_mutex@[tid as int]@[mutex_id as int] == old(process_inner).need_mutex@[tid as int]@[mutex_id as int] + 1)
            &&& forall|j: int|
                0 <= j < old(process_inner).mutex_list@.len() && j != mutex_id as int ==> final(process_inner).mutex_list@[j] == old(process_inner).mutex_list@[j] && final(process_inner).available_mutex@[j] == old(process_inner).available_mutex@[j]
            &&& forall|t2: int, j: int|
                0 <= t2 < old(process_inner).n_tasks() && 0 <= j < old(process_inner).mutex_list@.len() && !(t2 == tid as int && j == mutex_id as int) ==> final(process_inner).allocation_mutex@[t2]@[j] == old(process_inner).allocation_mutex@[t2]@[j]
                    && final(process_inner).need_mutex@[t2]@[j] == old(process_inner).need_mutex@[t2]@[j]
        }),
        final(process_inner).semaphore_list@ == old(process_inner).semaphore_list@,
        final(process_inner).condvar_list@ == old(process_inner).condvar_list@,
        final(process_inner).available_sem@ == old(process_inner).available_sem@,
        rows_view(final(process_inner).allocation_sem@) == rows_view(old(process_inner).allocation_sem@),
        rows_view(final(process_inner).need_sem@) == rows_view(old(process_inner).need_sem@),
        final(process_inner).tasks_live@ == old(process_inner).tasks_live@,
        final(process_inner).deadlock_detect == old(process_inner).deadlock_detect,
{
    let cur_need = get_cell(&process_inner.need_mutex, tid, mutex_id);
    set_cell(&mut process_inner.need_mutex, tid, mutex_id, cur_need + 1);
    proof {
        lemma_rows_view_set(old(process_inner).need_mutex@, process_inner.need_mutex@, tid as int);
    }
    let rejected = match process_inner.mutex_deadlock_detect() {
        Some(ans) => ans,
        None => false,
    };
    if rejected {
        let ghost mid_rows = process_inner.need_mutex@;
        set_cell(&mut process_inner.need_mutex, tid, mutex_id, cur_need);
        proof {
            lemma_rows_view_set(mid_rows, process_inner.need_mutex@, tid as int);
            assert(process_inner.need_mutex@[tid as int]@ =~= old(process_inner).need_mutex@[tid as int]@);
            lemma_rows_view_set(
                old(process_inner).need_mutex@,
                process_inner.need_mutex@,
                tid as int,
            );
            assert(rows_view(process_inner.need_mutex@) =~= rows_view(old(process_inner).need_mutex@));
        }
        return DEADLOCK_ERR;
    }
    let acquired = mutex_slot_lock(&mut process_inner.mutex_list, mutex_id, tid);
    if acquired {
        let av = process_inner.available_mutex[mutex_id];
        process_inner.available_mutex.set(mutex_id, av - 1);
        let al = get_cell(&process_inner.allocation_mutex, tid, mutex_id);
        set_cell(&mut process_inner.allocation_mutex, tid, mutex_id, al + 1);
        let ghost mid_rows = process_inner.need_mutex@;
        set_cell(&mut process_inner.need_mutex, tid, mutex_id, cur_need);
        proof {
            lemma_rows_view_set(
                old(process_inner).allocation_mutex@,
                process_inner.allocation_mutex@,
                tid as int,
            );
            lemma_rows_view_set(mid_rows, process_inner.need_mutex@, tid as int);
            assert(process_inner.need_mutex@[tid as int]@ =~= old(process_inner).need_mutex@[tid as int]@);
            lemma_rows_view_set(
                old(process_inner).need_mutex@,
                process_inner.need_mutex@,
                tid as int,
            );
            assert(rows_view(process_inner.need_mutex@) =~= rows_view(old(process_inner).need_mutex@));
        }
    }
    0
}

/// Release the mutex `mutex_id` held by task `tid`. With nobody waiting the
/// mutex becomes free and its unit returns to the pool; otherwise the
/// earliest waiter becomes the holder and the unit, the allocation and the
/// waiter's outstanding want move in one step.
pub fn sys_mutex_unlock(process_inner: &mut ProcessControlBlockInner, tid: usize, mutex_id: usize)
    -> (r: isize)
    requires
        old(process_inner).wf(),
        tid < old(process_inner).n_tasks(),
        old(process_inner).mutex_live(mutex_id as int),
        (old(process_inner).mutex_list@[mutex_id as int]->0).is_locked(),
        old(process_inner).allocation_mutex@[tid as int]@[mutex_id as int] >= 1,
        (old(process_inner).mutex_list@[mutex_id as int]->0).waiters().len() > 0 ==> ({
            let w = (old(process_inner).mutex_list@[mutex_id as int]->0).waiters()[0];
            &&& w < old(process_inner).n_tasks()
            &&& old(process_inner).allocation_mutex@[w as int]@[mutex_id as int] < usize::MAX
            &&& old(process_inner).need_mutex@[w as int]@[mutex_id as int] >= 1
        }),
    ensures
        final(process_inner).wf(),
        r == 0,
        ({
            let m0 = old(process_inner).mutex_list@[mutex_id as int]->0;
            let m1 = final(process_inner).mutex_list@[mutex_id as int]->0;
            &&& final(process_inner).mutex_live(mutex_id as int)
            &&& m0.same_variant(m1)
            &&& (m0.waiters().len() == 0 ==> !m1.is_locked() && m1.waiters() == m0.waiters()
                && final(process_inner).available_mutex@[mutex_id as int] == 1 && final(process_inner).allocation_mutex@[tid as int]@[mutex_id as int] == old(process_inner).allocation_mutex@[tid as int]@[mutex_id as int] - 1 && rows_view(
                final(process_inner).need_mutex@,
            ) == rows_view(old(process_inner).need_mutex@) && forall|t2: int, j: int|
                0 <= t2 < old(process_inner).n_tasks() && 0 <= j < old(process_inner).mutex_list@.len() && !(t2
                    == tid as int && j == mutex_id as int) ==> final(process_inner).allocation_mutex@[t2]@[j]
                    == old(process_inner).allocation_mutex@[t2]@[j])
            &&& (m0.waiters().len() > 0 ==> ({
                let w = m0.waiters()[0] as int;
                &&& m1.is_locked()
                &&& m1.waiters() == m0.waiters().subrange(1, m0.waiters().len() as int)
                &&& final(process_inner).available_mutex@ == old(process_inner).available_mutex@
                &&& final(process_inner).need_mutex@[w]@[mutex_id as int] == old(process_inner).need_mutex@[w]@[mutex_id as int] - 1
                &&& (tid as int != w ==> final(process_inner).allocation_mutex@[tid as int]@[mutex_id as int]
                    == old(process_inner).allocation_mutex@[tid as int]@[mutex_id as int] - 1 && final(process_inner).allocation_mutex@[w]@[mutex_id as int] == old(process_inner).allocation_mutex@[w]@[mutex_id as int] + 1)
                &&& (tid as int == w ==> final(process_inner).allocation_mutex@[tid as int]@[mutex_id as int]
                    == old(process_inner).allocation_mutex@[tid as int]@[mutex_id as int])
                &&& forall|t2: int, j: int|
                    0 <= t2 < old(process_inner).n_tasks() && 0 <= j < old(process_inner).mutex_list@.len()
                        && !(t2 == tid as int && j == mutex_id as int) && !(t2 == w && j
                        == mutex_id as int) ==> final(process_inner).allocation_mutex@[t2]@[j] == old(process_inner).allocation_mutex@[t2]@[j] && final(process_inner).need_mutex@[t2]@[j] == old(process_inner).need_mutex@[t2]@[j]
            }))
            &&& forall|j: int|
                0 <= j < old(process_inner).mutex_list@.len() && j != mutex_id as int ==> final(process_inner).mutex_list@[j] == old(process_inner).mutex_list@[j] && final(process_inner).available_mutex@[j]
                    == old(process_inner).available_mutex@[j]
        }),
        final(process_inner).semaphore_list@ == old(process_inner).semaphore_list@,
        final(process_inner).condvar_list@ == old(process_inner).condvar_list@,
        final(process_inner).available_sem@ == old(process_inner).available_sem@,
        rows_view(final(process_inner).allocation_sem@) == rows_view(old(process_inner).allocation_sem@),
        rows_view(final(process_inner).need_sem@) == rows_view(old(process_inner).need_sem@),
        final(process_inner).tasks_live@ == old(process_inner).tasks_live@,
        final(process_inner).deadlock_detect == old(process_inner).deadlock_detect,
{
    let woken = mutex_slot_unlock(&mut process_inner.mutex_list, mutex_id);
    let al = get_cell(&process_inner.allocation_mutex, tid, mutex_id);
    set_cell(&mut process_inner.allocation_mutex, tid, mutex_id, al - 1);
    match woken {
        Some(w) => {
            let a2 = get_cell(&process_inner.allocation_mutex, w, mutex_id);
            set_cell(&mut process_inner.allocation_mutex, w, mutex_id, a2 + 1);
            let nd = get_cell(&process_inner.need_mutex, w, mutex_id);
            set_cell(&mut process_inner.need_mutex, w, mutex_id, nd - 1);
        },
        None => {
            process_inner.available_mutex.set(mutex_id, 1);
        },
    }
    0
}

/// Take one unit of semaphore `sem_id` for task `tid`. The want is recorded
/// first; with detection enabled an unsafe state rejects the request with the
/// distinguished error and rolls the want back. Otherwise a free unit is
/// taken at once with the accounting moved from need to allocation; with none
/// left, `tid` parks and the want stays outstanding until an up hands a unit
/// over.
pub fn sys_semaphore_down(process_inner: &mut ProcessControlBlockInner, tid: usize, sem_id: usize)
    -> (r: isize)
    requires
        old(process_inner).wf(),
        tid < old(process_inner).n_tasks(),
        old(process_inner).sem_live(sem_id as int),
        old(process_inner).need_sem@[tid as int]@[sem_id as int] < usize::MAX,
        old(process_inner).allocation_sem@[tid as int]@[sem_id as int] < usize::MAX,
        (old(process_inner).semaphore_list@[sem_id as int]->0).count > isize::MIN,
    ensures
        final(process_inner).wf(),
        r == 0 || r == DEADLOCK_ERR,
        (r == DEADLOCK_ERR) == sem_down_rejected(*old(process_inner), tid as int, sem_id as int),
        r == DEADLOCK_ERR ==> same_proc_state(*final(process_inner), *old(process_inner)),
        r == 0 ==> ({
            let s0 = old(process_inner).semaphore_list@[sem_id as int]->0;
            let s1 = final(process_inner).semaphore_list@[sem_id as int]->0;
            &&& final(process_inner).sem_live(sem_id as int)
            &&& s1.count == s0.count - 1
            &&& (s0.count > 0 ==> s1.wait_queue@ == s0.wait_queue@ && final(process_inner).available_sem@[sem_id as int] == old(process_inner).available_sem@[sem_id as int] - 1 && final(process_inner).allocation_sem@[tid as int]@[sem_id as int] == old(process_inner).allocation_sem@[tid as int]@[sem_id as int] + 1 && rows_view(final(process_inner).need_sem@)
                == rows_view(old(process_inner).need_sem@))
            &&& (s0.count <= 0 ==> s1.wait_queue@ == s0.wait_queue@.push(tid) && final(process_inner).available_sem@ == old(process_inner).available_sem@ && rows_view(final(process_inner).allocation_sem@) == rows_view(old(process_inner).allocation_sem@) && final(process_inner).need_sem@[tid as int]@[sem_id as int] == old(process_inner).need_sem@[tid as int]@[sem_id as int]
                + 1)
            &&& forall|j: int|
                0 <= j < old(process_inner).semaphore_list@.len() && j != sem_id as int ==> final(process_inner).semaphore_list@[j] == old(process_inner).semaphore_list@[j] && final(process_inner).available_sem@[j] == old(process_inner).available_sem@[j]
            &&& forall|t2: int, j: int|
                0 <= t2 < old(process_inner).n_tasks() && 0 <= j < old(process_inner).semaphore_list@.len() && !(t2 == tid as int && j == sem_id as int) ==> final(process_inner).allocation_sem@[t2]@[j] == old(process_inner).allocation_sem@[t2]@[j] && final(process_inner).need_sem@[t2]@[j] == old(process_inner).need_sem@[t2]@[j]
        }),
        final(process_inner).mutex_list@ == old(process_inner).mutex_list@,
        final(process_inner).condvar_list@ == old(process_inner).condvar_list@,
        final(process_inner).available_mutex@ == old(process_inner).available_mutex@,
        rows_view(final(process_inner).allocation_mutex@) == rows_view(old(process_inner).allocation_mutex@),
        rows_view(final(process_inner).need_mutex@) == rows_view(old(process_inner).need_mutex@),
        final(process_inner).tasks_live@ == old(process_inner).tasks_live@,
        final(process_inner).deadlock_detect == old(process_inner).deadlock_detect,
{
    let cur_need = get_cell(&process_inner.need_sem, tid, sem_id);
    set_cell(&mut process_inner.need_sem, tid, sem_id, cur_need + 1);
    proof {
        lemma_rows_view_set(old(process_inner).need_sem@, process_inner.need_sem@, tid as int);
    }
    let rejected = match process_inner.sem_deadlock_detect() {
        Some(ans) => ans,
        None => false,
    };
    if rejected {
        let ghost mid_rows = process_inner.need_sem@;
        set_cell(&mut process_inner.need_sem, tid, sem_id, cur_need);
        proof {
            lemma_rows_view_set(mid_rows, process_inner.need_sem@, tid as int);
            assert(process_inner.need_sem@[tid as int]@ =~= old(process_inner).need_sem@[tid as int]@);
            lemma_rows_view_set(old(process_inner).need_sem@, process_inner.need_sem@, tid as int);
            assert(rows_view(process_inner.need_sem@) =~= rows_view(old(process_inner).need_sem@));
        }
        return DEADLOCK_ERR;
    }
    let acquired = sem_slot_down(&mut process_inner.semaphore_list, sem_id, tid);
    if acquired {
        let av = process_inner.available_sem[sem_id];
        process_inner.available_sem.set(sem_id, av - 1);
        let al = get_cell(&process_inner.allocation_sem, tid, sem_id);
        set_cell(&mut process_inner.allocation_sem, tid, sem_id, al + 1);
        let ghost mid_rows = process_inner.need_sem@;
        set_cell(&mut process_inner.need_sem, tid, sem_id, cur_need);
        proof {
            lemma_rows_view_set(old(process_inner).allocation_sem@, process_inner.allocation_sem@, tid as int);
            lemma_rows_view_set(mid_rows, process_inner.need_sem@, tid as int);
            assert(process_inner.need_sem@[tid as int]@ =~= old(process_inner).need_sem@[tid as int]@);
            lemma_rows_view_set(old(process_inner).need_sem@, process_inner.need_sem@, tid as int);
            assert(rows_view(process_inner.need_sem@) =~= rows_view(old(process_inner).need_sem@));
        }
    }
    0
}

/// Return one unit of semaphore `sem_id` from task `tid`. With nobody
/// parked the unit goes back to the pool; otherwise the earliest parked task
/// wakes and takes it, and the unit, the allocation and the woken task's
/// outstanding want move in one step.
pub fn sys_semaphore_up(process_inner: &mut ProcessControlBlockInner, tid: usize, sem_id: usize)
    -> (r: isize)
    requires
        old(process_inner).wf(),
        tid < old(process_inner).n_tasks(),
        old(process_inner).sem_live(sem_id as int),
        (old(process_inner).semaphore_list@[sem_id as int]->0).count < isize::MAX,
        old(process_inner).allocation_sem@[tid as int]@[sem_id as int] >= 1,
        (old(process_inner).semaphore_list@[sem_id as int]->0).count < 0 ==> ({
            let w = (old(process_inner).semaphore_list@[sem_id as int]->0).wait_queue@[0];
            &&& w < old(process_inner).n_tasks()
            &&& old(process_inner).allocation_sem@[w as int]@[sem_id as int] < usize::MAX
            &&& old(process_inner).need_sem@[w as int]@[sem_id as int] >= 1
        }),
    ensures
        final(process_inner).wf(),
        r == 0,
        ({
            let s0 = old(process_inner).semaphore_list@[sem_id as int]->0;
            let s1 = final(process_inner).semaphore_list@[sem_id as int]->0;
            &&& final(process_inner).sem_live(sem_id as int)
            &&& s1.count == s0.count + 1
            &&& (s0.count >= 0 ==> s1.wait_queue@ == s0.wait_queue@ && final(process_inner).available_sem@[sem_id as int] == old(process_inner).available_sem@[sem_id as int] + 1 && final(process_inner).allocation_sem@[tid as int]@[sem_id as int] == old(process_inner).allocation_sem@[tid as int]@[sem_id as int] - 1 && rows_view(final(process_inner).need_sem@)
                == rows_view(old(process_inner).need_sem@))
            &&& (s0.count < 0 ==> ({
                let w = s0.wait_queue@[0] as int;
                &&& s1.wait_queue@ == s0.wait_queue@.subrange(1, s0.wait_queue@.len() as int)
                &&& final(process_inner).available_sem@ == old(process_inner).available_sem@
                &&& final(process_inner).need_sem@[w]@[sem_id as int] == old(process_inner).need_sem@[w]@[sem_id as int] - 1
                &&& (tid as int != w ==> final(process_inner).allocation_sem@[tid as int]@[sem_id as int] == old(process_inner).allocation_sem@[tid as int]@[sem_id as int] - 1 && final(process_inner).allocation_sem@[w]@[sem_id as int] == old(process_inner).allocation_sem@[w]@[sem_id as int] + 1)
                &&& (tid as int == w ==> final(process_inner).allocation_sem@[tid as int]@[sem_id as int] == old(process_inner).allocation_sem@[tid as int]@[sem_id as int])
            }))
            &&& forall|j: int|
                0 <= j < old(process_inner).semaphore_list@.len() && j != sem_id as int ==> final(process_inner).semaphore_list@[j] == old(process_inner).semaphore_list@[j] && final(process_inner).available_sem@[j] == old(process_inner).available_sem@[j]
        }),
        final(process_inner).mutex_list@ == old(process_inner).mutex_list@,
        final(process_inner).condvar_list@ == old(process_inner).condvar_list@,
        final(process_inner).available_mutex@ == old(process_inner).available_mutex@,
        rows_view(final(process_inner).allocation_mutex@) == rows_view(old(process_inner).allocation_mutex@),
        rows_view(final(process_inner).need_mutex@) == rows_view(old(process_inner).need_mutex@),
        final(process_inner).tasks_live@ == old(process_inner).tasks_live@,
        final(process_inner).deadlock_detect == old(process_inner).deadlock_detect,
{
    let woken = sem_slot_up(&mut process_inner.semaphore_list, sem_id);
    let al = get_cell(&process_inner.allocation_sem, tid, sem_id);
    set_cell(&mut process_inner.allocation_sem, tid, sem_id, al - 1);
    match woken {
        Some(w) => {
            let a2 = get_cell(&process_inner.allocation_sem, w, sem_id);
            set_cell(&mut process_inner.allocation_sem, w, sem_id, a2 + 1);
            let nd = get_cell(&process_inner.need_sem, w, sem_id);
            set_cell(&mut process_inner.need_sem, w, sem_id, nd - 1);
        },
        None => {
            let av = process_inner.available_sem[sem_id];
            process_inner.available_sem.set(sem_id, av + 1);
        },
    }
    0
}

/// Create a condition variable and hand out its id: the first free slot's
/// index, an id no live resource carries, or a brand-new index when every
/// slot is occupied.
pub fn sys_condvar_create(process_inner: &mut ProcessControlBlockInner) -> (r: isize)
    requires
        old(process_inner).wf(),
        old(process_inner).condvar_list@.len() < isize::MAX,
    ensures
        final(process_inner).wf(),
        0 <= r,
        r as int <= old(process_inner).condvar_list@.len(),
        forall|j: int| 0 <= j < r as int ==> old(process_inner).condvar_live(j),
        !old(process_inner).condvar_live(r as int),
        final(process_inner).condvar_live(r as int),
        fresh_condvar_slot(final(process_inner).condvar_list@[r as int]),
        final(process_inner).condvar_list@.len() == (if (r as int) < old(process_inner).condvar_list@.len() {
            old(process_inner).condvar_list@.len() as int
        } else {
            old(process_inner).condvar_list@.len() as int + 1
        }),
        forall|j: int|
            0 <= j < old(process_inner).condvar_list@.len() && j != r as int ==> final(process_inner).condvar_list@[j] == old(process_inner).condvar_list@[j],
        *final(process_inner) == (ProcessControlBlockInner {
            condvar_list: final(process_inner).condvar_list,
            ..*old(process_inner)
        }),
{
    let n = process_inner.condvar_list.len();
    let mut id: usize = 0;
    while id < n && process_inner.condvar_list[id].is_some()
        invariant
            0 <= id <= n,
            n == process_inner.condvar_list@.len(),
            forall|j: int| 0 <= j < id ==> (#[trigger] process_inner.condvar_list@[j]) is Some,
            *process_inner == *old(process_inner),
        decreases n - id,
    {
        id = id + 1;
    }
    if id < n {
        process_inner.condvar_list.set(id, Some(Condvar::new()));
        id as isize
    } else {
        process_inner.condvar_list.push(Some(Condvar::new()));
        id as isize
    }
}

/// Wake at most one waiter of condition variable `condvar_id`; a no-op when
/// nobody waits. The woken task reacquires its paired mutex before its wait
/// returns, through the ordinary lock path.
pub fn sys_condvar_signal(process_inner: &mut ProcessControlBlockInner, condvar_id: usize) -> (r:
    isize)
    requires
        old(process_inner).wf(),
        old(process_inner).condvar_live(condvar_id as int),
    ensures
        final(process_inner).wf(),
        r == 0,
        ({
            let c0 = old(process_inner).condvar_list@[condvar_id as int]->0;
            let c1 = final(process_inner).condvar_list@[condvar_id as int]->0;
            &&& final(process_inner).condvar_live(condvar_id as int)
            &&& (c0.wait_queue@.len() == 0 ==> c1.wait_queue@ == c0.wait_queue@)
            &&& (c0.wait_queue@.len() > 0 ==> c1.wait_queue@ == c0.wait_queue@.subrange(
                1,
                c0.wait_queue@.len() as int,
            ))
        }),
        forall|j: int|
            0 <= j < old(process_inner).condvar_list@.len() && j != condvar_id as int ==> final(process_inner).condvar_list@[j] == old(process_inner).condvar_list@[j],
        *final(process_inner) == (ProcessControlBlockInner {
            condvar_list: final(process_inner).condvar_list,
            ..*old(process_inner)
        }),
{
    let _woken = condvar_slot_signal(&mut process_inner.condvar_list, condvar_id);
    0
}

/// Park task `tid` on condition variable `condvar_id`, releasing the held
/// mutex `mutex_id` in the same step (with the release bookkeeping of an
/// ordinary unlock, handover included). On wake the task reacquires the
/// mutex before its wait returns, through the ordinary lock path.
pub fn sys_condvar_wait(
    process_inner: &mut ProcessControlBlockInner,
    tid: usize,
    condvar_id: usize,
    mutex_id: usize,
) -> (r: isize)
    requires
        old(process_inner).wf(),
        tid < old(process_inner).n_tasks(),
        old(process_inner).condvar_live(condvar_id as int),
        old(process_inner).mutex_live(mutex_id as int),
        (old(process_inner).mutex_list@[mutex_id as int]->0).is_locked(),
        old(process_inner).allocation_mutex@[tid as int]@[mutex_id as int] >= 1,
        (old(process_inner).mutex_list@[mutex_id as int]->0).waiters().len() > 0 ==> ({
            let w = (old(process_inner).mutex_list@[mutex_id as int]->0).waiters()[0];
            &&& w < old(process_inner).n_tasks()
            &&& old(process_inner).allocation_mutex@[w as int]@[mutex_id as int] < usize::MAX
            &&& old(process_inner).need_mutex@[w as int]@[mutex_id as int] >= 1
        }),
    ensures
        final(process_inner).wf(),
        r == 0,
        final(process_inner).condvar_live(condvar_id as int),
        (final(process_inner).condvar_list@[condvar_id as int]->0).wait_queue@ == (old(process_inner).condvar_list@[condvar_id as int]->0).wait_queue@.push(tid),
        forall|j: int|
            0 <= j < old(process_inner).condvar_list@.len() && j != condvar_id as int ==> final(process_inner).condvar_list@[j] == old(process_inner).condvar_list@[j],
        ({
            let m0 = old(process_inner).mutex_list@[mutex_id as int]->0;
            let m1 = final(process_inner).mutex_list@[mutex_id as int]->0;
            &&& final(process_inner).mutex_live(mutex_id as int)
            &&& m0.same_variant(m1)
            &&& (m0.waiters().len() == 0 ==> !m1.is_locked() && final(process_inner).available_mutex@[mutex_id as int] == 1 && final(process_inner).allocation_mutex@[tid as int]@[mutex_id as int] == old(process_inner).allocation_mutex@[tid as int]@[mutex_id as int] - 1)
            &&& (m0.waiters().len() > 0 ==> m1.is_locked() && m1.waiters() == m0.waiters().subrange(
                1,
                m0.waiters().len() as int,
            ))
        }),
        final(process_inner).semaphore_list@ == old(process_inner).semaphore_list@,
        final(process_inner).available_sem@ == old(process_inner).available_sem@,
        rows_view(final(process_inner).allocation_sem@) == rows_view(old(process_inner).allocation_sem@),
        rows_view(final(process_inner).need_sem@) == rows_view(old(process_inner).need_sem@),
        final(process_inner).tasks_live@ == old(process_inner).tasks_live@,
        final(process_inner).deadlock_detect == old(process_inner).deadlock_detect,
{
    let _ = sys_mutex_unlock(process_inner, tid, mutex_id);
    condvar_slot_add_waiter(&mut process_inner.condvar_list, condvar_id, tid);
    0
}

/// Switch deadlock detection on (`1`) or off (`0`); any other argument is
/// rejected with -1 and changes nothing. Re-enabling an enabled detector or
/// disabling a disabled one is a programmer error and excluded.
pub fn sys_enable_deadlock_detect(process_inner: &mut ProcessControlBlockInner, enabled: usize)
    -> (r: isize)
    requires
        old(process_inner).wf(),
        enabled == 0 ==> old(process_inner).deadlock_detect,
        enabled == 1 ==> !old(process_inner).deadlock_detect,
    ensures
        final(process_inner).wf(),
        r == (if enabled <= 1 {
            0
        } else {
            -1
        }),
        enabled == 0 ==> !final(process_inner).deadlock_detect,
        enabled == 1 ==> final(process_inner).deadlock_detect,
        enabled > 1 ==> *final(process_inner) == *old(process_inner),
        *final(process_inner) == (ProcessControlBlockInner {
            deadlock_detect: final(process_inner).deadlock_detect,
            ..*old(process_inner)
        }),
{
    if enabled == 0 {
        process_inner.deadlock_detect = false;
        0
    } else if enabled == 1 {
        process_inner.deadlock_detect = true;
        0
    } else {
        -1
    }
}

/// The task exits: it becomes a zombie carrying `exit_code`, and its
/// children are handed back for the caller to reparent to the well-known
/// ancestor. Reaping is the wait path's business, outside this core.
pub fn sys_exit(task: &mut TaskControlBlock, exit_code: i32) -> (orphans: Vec<usize>)
    requires
        old(task).wf(),
    ensures
        final(task).wf(),
        final(task).inner.task_status == TaskStatus::Zombie,
        final(task).inner.exit_code == exit_code,
        final(task).inner.children@.len() == 0,
        orphans@ == old(task).inner.children@,
        final(task).pid == old(task).pid,
        final(task).kernel_stack == old(task).kernel_stack,
        final(task).inner.stride == old(task).inner.stride,
        final(task).inner.priority == old(task).inner.priority,
        final(task).inner.parent == old(task).inner.parent,
        final(task).inner.memory_set == old(task).inner.memory_set,
        final(task).inner.syscall_times@ == old(task).inner.syscall_times@,
{
    task.inner.task_status = TaskStatus::Zombie;
    task.inner.exit_code = exit_code;
    let mut orphans: Vec<usize> = Vec::new();
    core::mem::swap(&mut orphans, &mut task.inner.children);
    orphans
}

/// The task gives up the core: it goes back to Ready and belongs in the
/// ready queue again.
pub fn sys_yield(task: &mut TaskControlBlock) -> (r: isize)
    requires
        old(task).wf(),
    ensures
        final(task).wf(),
        r == 0,
        final(task).inner.task_status == TaskStatus::Ready,
        *final(task) == (TaskControlBlock {
            inner: crate::task::TaskControlBlockInner {
                task_status: TaskStatus::Ready,
                ..old(task).inner
            },
            ..*old(task)
        }),
{
    task.inner.task_status = TaskStatus::Ready;
    0
}

/// Park the task until the external timer fires: the task blocks and the
/// expiry tick `now_ms + ms` is returned for the timer to arm.
pub fn sys_sleep(task: &mut TaskControlBlock, now_ms: usize, ms: usize) -> (r: (isize, usize))
    requires
        old(task).wf(),
        now_ms + ms <= usize::MAX,
    ensures
        final(task).wf(),
        r.0 == 0,
        r.1 == now_ms + ms,
        final(task).inner.task_status == TaskStatus::Blocked,
        *final(task) == (TaskControlBlock {
            inner: crate::task::TaskControlBlockInner {
                task_status: TaskStatus::Blocked,
                ..old(task).inner
            },
            ..*old(task)
        }),
{
    let expire_ms = now_ms + ms;
    task.inner.task_status = TaskStatus::Blocked;
    (0, expire_ms)
}

/// Map new user pages: the checks and the region insertion of the task's
/// `mmap`.
pub fn sys_mmap(task: &mut TaskControlBlock, start: usize, len: usize, port: usize) -> (r: isize)
    requires
        old(task).wf(),
        start + len <= usize::MAX,
    ensures
        final(task).wf(),
        r == 0 || r == -1,
        (r == 0) == crate::task::mmap_valid(old(task).inner.memory_set, start, len, port),
        r == -1 ==> *final(task) == *old(task),
{
    task.mmap(start, len, port)
}

/// Unmap user pages: the checks and the region removal of the task's
/// `munmap`.
pub fn sys_munmap(task: &mut TaskControlBlock, start: usize, len: usize) -> (r: isize)
    requires
        old(task).wf(),
        start + len <= usize::MAX,
    ensures
        final(task).wf(),
        r == 0 || r == -1,
        (r == 0) == crate::task::munmap_valid(old(task).inner.memory_set, start, len),
        r == -1 ==> *final(task) == *old(task),
{
    task.munmap(start, len)
}

/// Adjust the heap by `size` bytes: the previous break on success, -1 when
/// the task's break adjustment refuses.
pub fn sys_sbrk(task: &mut TaskControlBlock, size: i32) -> (r: isize)
    requires
        old(task).wf(),
        old(task).inner.program_brk + size <= usize::MAX,
        old(task).inner.program_brk <= isize::MAX,
    ensures
        final(task).wf(),
        r == -1 ==> *final(task) == *old(task),
        old(task).inner.program_brk + size < old(task).inner.heap_bottom ==> r == -1,
        r != -1 ==> r == old(task).inner.program_brk && final(task).inner.program_brk == old(task).inner.program_brk + size,
        ({
            let nb = old(task).inner.program_brk + size;
            (nb >= old(task).inner.heap_bottom && (size <= 0 || (forall|vpn: int|
                old(task).inner.memory_set.heap_hi() <= vpn < old(task).inner.memory_set.heap_hi_if(nb as usize) ==> !old(task).inner.memory_set.framed_at(vpn)))) ==> r == old(task).inner.program_brk
        }),
{
    if let Some(old_brk) = task.change_program_brk(size) {
        old_brk as isize
    } else {
        -1
    }
}

/// Bytes of the task-information record: one status byte, the little-endian
/// syscall counters, then the elapsed-time word.
pub const TASK_INFO_BYTES: usize = 1 + 4 * MAX_SYSCALL_NUM + 8;

/// The seconds/microseconds pair a time query writes into user memory.
#[derive(Debug, Clone, Copy, PartialEq, Eq, Structural)]
pub struct TimeVal {
    /// Whole seconds.
    pub sec: usize,
    /// Microseconds below one second.
    pub usec: usize,
}

impl TimeVal {
    /// Split a microsecond count into seconds and the remainder.
    pub fn from_us(us: usize) -> (r: TimeVal)
        ensures
            r.sec == us / 1_000_000,
            r.usec == us % 1_000_000,
    {
        TimeVal { sec: us / 1_000_000, usec: us % 1_000_000 }
    }
}

/// The record a task-information query writes into user memory.
pub struct TaskInfo {
    /// Task status in its life cycle.
    pub status: TaskStatus,
    /// The numbers of syscalls called by the task.
    pub syscall_times: Vec<u32>,
    /// Total running time of the task.
    pub time: usize,
}

/// The status code stored in the record's first byte.
pub open spec fn status_byte(s: TaskStatus) -> u8 {
    match s {
        TaskStatus::UnInit => 0,
        TaskStatus::Ready => 1,
        TaskStatus::Running => 2,
        TaskStatus::Blocked => 3,
        TaskStatus::Zombie => 4,
    }
}

/// The byte-for-byte layout of the seconds/microseconds record.
pub open spec fn time_val_bytes(tv: TimeVal) -> Seq<u8> {
    u64_bytes(tv.sec as u64) + u64_bytes(tv.usec as u64)
}

/// The byte-for-byte layout of the task-information record.
pub open spec fn task_info_bytes(status: TaskStatus, times: Seq<u32>, time: usize) -> Seq<u8> {
    seq![status_byte(status)] + counters_bytes(times) + u64_bytes(time as u64)
}

/// The counters contribute four bytes each.
pub proof fn lemma_counters_bytes_len(ts: Seq<u32>)
    ensures
        counters_bytes(ts).len() == 4 * ts.len(),
    decreases ts.len(),
{
    if ts.len() > 0 {
        lemma_counters_bytes_len(ts.drop_last());
    }
}

/// The status code, computed.
fn status_byte_of(s: TaskStatus) -> (r: u8)
    ensures
        r == status_byte(s),
{
    match s {
        TaskStatus::UnInit => 0,
        TaskStatus::Ready => 1,
        TaskStatus::Running => 2,
        TaskStatus::Blocked => 3,
        TaskStatus::Zombie => 4,
    }
}

/// Write the current time, split into seconds and microseconds, into the
/// user-memory fragments the external byte-copy service translated the
/// caller's pointer to. The fragments together must span exactly the record.
pub fn sys_get_time(buffers: &mut Vec<Vec<u8>>, us: usize, _tz: usize) -> (r: isize)
    requires
        flat(old(buffers)@).len() == 16,
    ensures
        r == 0,
        final(buffers)@.len() == old(buffers)@.len(),
        forall|x: int|
            0 <= x < old(buffers)@.len() ==> (#[trigger] final(buffers)@[x])@.len() == old(
                buffers,
            )@[x]@.len(),
        flat(final(buffers)@) == time_val_bytes(
            TimeVal { sec: us / 1_000_000, usec: us % 1_000_000 },
        ),
{
    let tv = TimeVal::from_us(us);
    let mut bytes: Vec<u8> = Vec::new();
    push_u64_bytes(&mut bytes, tv.sec as u64);
    push_u64_bytes(&mut bytes, tv.usec as u64);
    proof {
        assert(bytes@ =~= time_val_bytes(tv));
    }
    crate::bytes::scatter_copy(buffers, &bytes);
    0
}

/// Write the caller's task record — status, per-syscall invocation counts
/// and elapsed running time — into the user-memory fragments the external
/// byte-copy service translated the caller's pointer to.
pub fn sys_task_info(buffers: &mut Vec<Vec<u8>>, task: &TaskControlBlock) -> (r: isize)
    requires
        task.wf(),
        flat(old(buffers)@).len() == TASK_INFO_BYTES,
    ensures
        r == 0,
        final(buffers)@.len() == old(buffers)@.len(),
        forall|x: int|
            0 <= x < old(buffers)@.len() ==> (#[trigger] final(buffers)@[x])@.len() == old(
                buffers,
            )@[x]@.len(),
        flat(final(buffers)@) == task_info_bytes(
            task.inner.task_status,
            task.inner.syscall_times@,
            task.inner.start_time,
        ),
{
    let (status, counts, time) = task.task_info();
    let info = TaskInfo { status, syscall_times: counts, time };
    let mut bytes: Vec<u8> = Vec::new();
    bytes.push(status_byte_of(info.status));
    let mut i: usize = 0;
    while i < info.syscall_times.len()
        invariant
            0 <= i <= info.syscall_times@.len(),
            info.syscall_times@ == task.inner.syscall_times@,
            info.status == task.inner.task_status,
            bytes@ == seq![status_byte(info.status)] + counters_bytes(
                info.syscall_times@.take(i as int),
            ),
        decreases info.syscall_times@.len() - i,
    {
        let c = info.syscall_times[i];
        push_u32_bytes(&mut bytes, c);
        proof {
            assert(info.syscall_times@.take(i + 1).drop_last() =~= info.syscall_times@.take(
                i as int,
            ));
            assert(counters_bytes(info.syscall_times@.take(i + 1)) == counters_bytes(
                info.syscall_times@.take(i as int),
            ) + u32_bytes(info.syscall_times@[i as int]));
            assert(bytes@ =~= seq![status_byte(info.status)] + counters_bytes(
                info.syscall_times@.take(i + 1),
            ));
        }
        i = i + 1;
    }
    proof {
        assert(info.syscall_times@.take(info.syscall_times@.len() as int)
            =~= info.syscall_times@);
    }
    let time64 = info.time as u64;
    push_u64_bytes(&mut bytes, time64);
    proof {
        assert(bytes@ =~= task_info_bytes(
            task.inner.task_status,
            task.inner.syscall_times@,
            task.inner.start_time,
        ));
        lemma_counters_bytes_len(info.syscall_times@);
        assert(bytes@.len() == TASK_INFO_BYTES);
    }
    crate::bytes::scatter_copy(buffers, &bytes);
    0
}

/// Ids of live resources never collide: a create hands out only an id that
/// was not live at the call (a free slot's index or a brand-new index), so
/// however many resources are created, freed and created again, no two
/// simultaneously live resources ever share an id. Stated here for mutexes;
/// the semaphore and condition-variable creates promise the same of their
/// slot lists.
pub proof fn lemma_created_mutex_id_fresh(
    p_before: ProcessControlBlockInner,
    p_after: ProcessControlBlockInner,
    created: int,
    live_id: int,
)
    requires
        !p_before.mutex_live(created),
        p_after.mutex_live(created),
        p_before.mutex_live(live_id),
    ensures
        live_id != created,
{
}

} // verus!
