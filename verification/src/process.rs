//! Per-process resource tables: mutex/semaphore/condvar slots with reusable
//! ids, the allocation/need/available accounting, and the deadlock-detection
//! switch. Rows grow in lockstep with the set of tasks and columns in
//! lockstep with the resource slots.

use vstd::prelude::*;

use crate::detect::{detect_unsafe, init_finished, rows_view, safety_holds};
use crate::sync::{Condvar, Mutex, Semaphore};

verus! {

/// Read one accounting cell.
pub fn get_cell(table: &Vec<Vec<usize>>, t: usize, j: usize) -> (r: usize)
    requires
        t < table@.len(),
        j < table@[t as int]@.len(),
    ensures
        r == table@[t as int]@[j as int],
{
    table[t][j]
}

/// Write one accounting cell.
pub fn set_cell(table: &mut Vec<Vec<usize>>, t: usize, j: usize, v: usize)
    requires
        t < old(table)@.len(),
        j < old(table)@[t as int]@.len(),
    ensures
        final(table)@.len() == old(table)@.len(),
        forall|x: int|
            0 <= x < old(table)@.len() && x != t ==> final(table)@[x] == old(table)@[x],
        final(table)@[t as int]@ == old(table)@[t as int]@.update(j as int, v),
{
    let row = &mut table[t];
    row.set(j, v);
}

/// Extend one task's accounting row by one resource column.
pub fn push_cell(table: &mut Vec<Vec<usize>>, t: usize, v: usize)
    requires
        t < old(table)@.len(),
    ensures
        final(table)@.len() == old(table)@.len(),
        forall|x: int|
            0 <= x < old(table)@.len() && x != t ==> final(table)@[x] == old(table)@[x],
        final(table)@[t as int]@ == old(table)@[t as int]@.push(v),
{
    let row = &mut table[t];
    row.push(v);
}

/// The mutable, per-process shared state the syscalls operate on.
pub struct ProcessControlBlockInner {
    /// Mutex slots; a `None` slot is free and its id reusable.
    pub mutex_list: Vec<Option<Mutex>>,
    /// Semaphore slots.
    pub semaphore_list: Vec<Option<Semaphore>>,
    /// Condition-variable slots.
    pub condvar_list: Vec<Option<Condvar>>,
    /// Units of each mutex not held by anyone; meaningful while the slot is
    /// occupied.
    pub available_mutex: Vec<usize>,
    /// Units of each mutex held, per task and mutex id.
    pub allocation_mutex: Vec<Vec<usize>>,
    /// Outstanding wants, per task and mutex id.
    pub need_mutex: Vec<Vec<usize>>,
    /// Units of each semaphore not held.
    pub available_sem: Vec<usize>,
    /// Units of each semaphore held, per task and semaphore id.
    pub allocation_sem: Vec<Vec<usize>>,
    /// Outstanding wants, per task and semaphore id.
    pub need_sem: Vec<Vec<usize>>,
    /// Which tids belong to live tasks; rows are indexed by tid.
    pub tasks_live: Vec<bool>,
    /// Whether the safety check runs before a blocking acquire.
    pub deadlock_detect: bool,
}

impl ProcessControlBlockInner {
    /// Number of task rows.
    pub open spec fn n_tasks(self) -> int {
        self.tasks_live@.len() as int
    }

    /// Slot `id` holds a live mutex.
    pub open spec fn mutex_live(self, id: int) -> bool {
        0 <= id < self.mutex_list@.len() && self.mutex_list@[id] is Some
    }

    /// Slot `id` holds a live semaphore.
    pub open spec fn sem_live(self, id: int) -> bool {
        0 <= id < self.semaphore_list@.len() && self.semaphore_list@[id] is Some
    }

    /// Slot `id` holds a live condition variable.
    pub open spec fn condvar_live(self, id: int) -> bool {
        0 <= id < self.condvar_list@.len() && self.condvar_list@[id] is Some
    }

    /// Tables and slot lists agree in shape: one availability entry and one
    /// accounting column per slot, one accounting row per task, and every
    /// live semaphore's count agrees with its queue.
    pub open spec fn wf(self) -> bool {
        &&& self.available_mutex@.len() == self.mutex_list@.len()
        &&& self.allocation_mutex@.len() == self.tasks_live@.len()
        &&& self.need_mutex@.len() == self.tasks_live@.len()
        &&& forall|t: int|
            0 <= t < self.tasks_live@.len() ==> (#[trigger] self.allocation_mutex@[t])@.len()
                == self.mutex_list@.len()
        &&& forall|t: int|
            0 <= t < self.tasks_live@.len() ==> (#[trigger] self.need_mutex@[t])@.len()
                == self.mutex_list@.len()
        &&& self.available_sem@.len() == self.semaphore_list@.len()
        &&& self.allocation_sem@.len() == self.tasks_live@.len()
        &&& self.need_sem@.len() == self.tasks_live@.len()
        &&& forall|t: int|
            0 <= t < self.tasks_live@.len() ==> (#[trigger] self.allocation_sem@[t])@.len()
                == self.semaphore_list@.len()
        &&& forall|t: int|
            0 <= t < self.tasks_live@.len() ==> (#[trigger] self.need_sem@[t])@.len()
                == self.semaphore_list@.len()
        &&& forall|i: int|
            0 <= i < self.semaphore_list@.len() ==> ((#[trigger] self.semaphore_list@[i]) matches
            Some(s) ==> s.wf())
        &&& forall|i: int|
            0 <= i < self.mutex_list@.len() ==> ((#[trigger] self.mutex_list@[i]) matches Some(m)
                ==> self.available_mutex@[i] == (if m.is_locked() {
                0int
            } else {
                1int
            }))
        &&& forall|i: int|
            0 <= i < self.semaphore_list@.len() ==> ((#[trigger] self.semaphore_list@[i]) matches
            Some(s) ==> self.available_sem@[i] as int == (if s.count >= 0 {
                s.count as int
            } else {
                0int
            }))
    }

    /// The mutex tables pass the safety algorithm.
    pub open spec fn mutex_state_safe(self) -> bool {
        safety_holds(
            self.available_mutex@,
            rows_view(self.allocation_mutex@),
            rows_view(self.need_mutex@),
            init_finished(self.tasks_live@),
        )
    }

    /// The semaphore tables pass the safety algorithm.
    pub open spec fn sem_state_safe(self) -> bool {
        safety_holds(
            self.available_sem@,
            rows_view(self.allocation_sem@),
            rows_view(self.need_sem@),
            init_finished(self.tasks_live@),
        )
    }

    /// A fresh process: one live task (tid 0), no resources, detection off.
    pub fn new() -> (r: ProcessControlBlockInner)
        ensures
            r.wf(),
            r.tasks_live@.len() == 1,
            r.tasks_live@[0] == true,
            r.mutex_list@.len() == 0,
            r.semaphore_list@.len() == 0,
            r.condvar_list@.len() == 0,
            !r.deadlock_detect,
    {
        let mut tasks_live: Vec<bool> = Vec::new();
        tasks_live.push(true);
        let mut allocation_mutex: Vec<Vec<usize>> = Vec::new();
        allocation_mutex.push(Vec::new());
        let mut need_mutex: Vec<Vec<usize>> = Vec::new();
        need_mutex.push(Vec::new());
        let mut allocation_sem: Vec<Vec<usize>> = Vec::new();
        allocation_sem.push(Vec::new());
        let mut need_sem: Vec<Vec<usize>> = Vec::new();
        need_sem.push(Vec::new());
        ProcessControlBlockInner {
            mutex_list: Vec::new(),
            semaphore_list: Vec::new(),
            condvar_list: Vec::new(),
            available_mutex: Vec::new(),
            allocation_mutex,
            need_mutex,
            available_sem: Vec::new(),
            allocation_sem,
            need_sem,
            tasks_live,
            deadlock_detect: false,
        }
    }

    /// Register a new task: a fresh tid with zeroed accounting rows for every
    /// existing resource column.
    pub fn add_task(&mut self) -> (tid: usize)
        requires
            old(self).wf(),
            old(self).tasks_live@.len() < usize::MAX,
        ensures
            final(self).wf(),
            tid == old(self).tasks_live@.len(),
            final(self).tasks_live@ == old(self).tasks_live@.push(true),
            final(self).mutex_list@ == old(self).mutex_list@,
            final(self).semaphore_list@ == old(self).semaphore_list@,
            final(self).condvar_list@ == old(self).condvar_list@,
            final(self).available_mutex@ == old(self).available_mutex@,
            final(self).available_sem@ == old(self).available_sem@,
            final(self).deadlock_detect == old(self).deadlock_detect,
            forall|t: int|
                0 <= t < old(self).tasks_live@.len() ==> final(self).allocation_mutex@[t] == old(self).allocation_mutex@[t] && final(self).need_mutex@[t] == old(self).need_mutex@[t]
                    && final(self).allocation_sem@[t] == old(self).allocation_sem@[t] && final(self).need_sem@[t] == old(self).need_sem@[t],
            forall|j: int|
                0 <= j < old(self).mutex_list@.len() ==> final(self).allocation_mutex@[tid as int]@[j]
                    == 0 && final(self).need_mutex@[tid as int]@[j] == 0,
            forall|j: int|
                0 <= j < old(self).semaphore_list@.len() ==> final(self).allocation_sem@[tid as int]@[j] == 0 && final(self).need_sem@[tid as int]@[j]
                    == 0,
    {
        let tid = self.tasks_live.len();
        let m = self.mutex_list.len();
        let s = self.semaphore_list.len();
        self.tasks_live.push(true);
        let row_m = zero_row(m);
        let row_m2 = zero_row(m);
        let row_s = zero_row(s);
        let row_s2 = zero_row(s);
        self.allocation_mutex.push(row_m);
        self.need_mutex.push(row_m2);
        self.allocation_sem.push(row_s);
        self.need_sem.push(row_s2);
        tid
    }

    /// Run the safety algorithm over the mutex tables, or report that
    /// detection is off.
    pub fn mutex_deadlock_detect(&self) -> (r: Option<bool>)
        requires
            self.wf(),
        ensures
            self.deadlock_detect ==> r == Some(!self.mutex_state_safe()),
            !self.deadlock_detect ==> r.is_none(),
    {
        if self.deadlock_detect {
            Some(
                detect_unsafe(
                    &self.available_mutex,
                    &self.allocation_mutex,
                    &self.need_mutex,
                    &self.tasks_live,
                ),
            )
        } else {
            None
        }
    }

    /// Run the safety algorithm over the semaphore tables, or report that
    /// detection is off.
    pub fn sem_deadlock_detect(&self) -> (r: Option<bool>)
        requires
            self.wf(),
        ensures
            self.deadlock_detect ==> r == Some(!self.sem_state_safe()),
            !self.deadlock_detect ==> r.is_none(),
    {
        if self.deadlock_detect {
            Some(
                detect_unsafe(
                    &self.available_sem,
                    &self.allocation_sem,
                    &self.need_sem,
                    &self.tasks_live,
                ),
            )
        } else {
            None
        }
    }
}

impl ProcessControlBlockInner {
    /// Free a mutex slot so its id can be handed out again. The mutex must be
    /// idle: not held and with nobody waiting.
    pub fn mutex_free(&mut self, id: usize)
        requires
            old(self).wf(),
            old(self).mutex_live(id as int),
            old(self).mutex_list@[id as int] matches Some(m) && !m.is_locked() && m.waiters().len()
                == 0,
        ensures
            final(self).wf(),
            !final(self).mutex_live(id as int),
            final(self).mutex_list@ == old(self).mutex_list@.update(id as int, None),
            *final(self) == (ProcessControlBlockInner {
                mutex_list: final(self).mutex_list,
                ..*old(self)
            }),
    {
        self.mutex_list.set(id, None);
    }

    /// Free a semaphore slot so its id can be handed out again. The semaphore
    /// must have nobody waiting.
    pub fn semaphore_free(&mut self, id: usize)
        requires
            old(self).wf(),
            old(self).sem_live(id as int),
            old(self).semaphore_list@[id as int] matches Some(s) && s.wait_queue@.len() == 0,
        ensures
            final(self).wf(),
            !final(self).sem_live(id as int),
            final(self).semaphore_list@ == old(self).semaphore_list@.update(id as int, None),
            *final(self) == (ProcessControlBlockInner {
                semaphore_list: final(self).semaphore_list,
                ..*old(self)
            }),
    {
        self.semaphore_list.set(id, None);
    }

    /// Free a condition-variable slot so its id can be handed out again. The
    /// condition variable must have nobody waiting.
    pub fn condvar_free(&mut self, id: usize)
        requires
            old(self).wf(),
            old(self).condvar_live(id as int),
            old(self).condvar_list@[id as int] matches Some(c) && c.wait_queue@.len() == 0,
        ensures
            final(self).wf(),
            !final(self).condvar_live(id as int),
            final(self).condvar_list@ == old(self).condvar_list@.update(id as int, None),
            *final(self) == (ProcessControlBlockInner {
                condvar_list: final(self).condvar_list,
                ..*old(self)
            }),
    {
        self.condvar_list.set(id, None);
    }
}

/// A row of zeroes, one per resource column.
pub fn zero_row(n: usize) -> (r: Vec<usize>)
    ensures
        r@.len() == n,
        forall|j: int| 0 <= j < n ==> r@[j] == 0,
{
    let mut v: Vec<usize> = Vec::new();
    let mut i: usize = 0;
    while i < n
        invariant
            0 <= i <= n,
            v@.len() == i,
            forall|j: int| 0 <= j < i ==> v@[j] == 0,
        decreases n - i,
    {
        v.push(0);
        i = i + 1;
    }
    v
}

} // verus!
