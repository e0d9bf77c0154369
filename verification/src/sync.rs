//! Synchronization primitives as single-core, cooperative state machines:
//! the context switch itself is external, so blocking is recorded as a wait
//! queue entry and waking is returning the tid the external switch resumes.

use vstd::prelude::*;

verus! {

/// A mutex that busy-waits: a task that finds it held keeps retrying whenever
/// it is scheduled. The tasks currently spinning are recorded; when the holder
/// unlocks, the earliest recorded spinner is the one whose retry succeeds
/// (the deterministic resolution of the single-core retry order).
pub struct MutexSpin {
    /// Held?
    pub locked: bool,
    /// Tids busy-waiting for the mutex, earliest first.
    pub spinning: Vec<usize>,
}

/// A mutex that blocks: a task that finds it held parks on the wait queue and
/// yields; unlock hands the mutex to the earliest waiter.
pub struct MutexBlocking {
    /// Held?
    pub locked: bool,
    /// Parked tids, earliest first.
    pub wait_queue: Vec<usize>,
}

/// A mutex, spin or blocking, chosen at creation time and dispatched through
/// the shared lock/unlock capability.
pub enum Mutex {
    /// Busy-waiting variant.
    Spin(MutexSpin),
    /// Blocking variant.
    Blocking(MutexBlocking),
}

impl Mutex {
    /// Held?
    pub open spec fn is_locked(self) -> bool {
        match self {
            Mutex::Spin(m) => m.locked,
            Mutex::Blocking(m) => m.locked,
        }
    }

    /// The tids waiting (spinning or parked), earliest first.
    pub open spec fn waiters(self) -> Seq<usize> {
        match self {
            Mutex::Spin(m) => m.spinning@,
            Mutex::Blocking(m) => m.wait_queue@,
        }
    }

    /// Both values are the same variant.
    pub open spec fn same_variant(self, other: Mutex) -> bool {
        match self {
            Mutex::Spin(_) => other is Spin,
            Mutex::Blocking(_) => other is Blocking,
        }
    }

    /// A fresh, free mutex: blocking when `blocking`, else spinning.
    pub fn new(blocking: bool) -> (r: Mutex)
        ensures
            !r.is_locked(),
            r.waiters().len() == 0,
            (r is Blocking) == blocking,
    {
        if blocking {
            Mutex::Blocking(MutexBlocking { locked: false, wait_queue: Vec::new() })
        } else {
            Mutex::Spin(MutexSpin { locked: false, spinning: Vec::new() })
        }
    }

    /// Attempt to take the mutex for `tid`. A free mutex is taken at once; a
    /// held one records `tid` as waiting (parked or spinning) and reports
    /// that the caller must suspend.
    pub fn lock(&mut self, tid: usize) -> (acquired: bool)
        ensures
            old(self).same_variant(*final(self)),
            acquired == !old(self).is_locked(),
            final(self).is_locked(),
            acquired ==> final(self).waiters() == old(self).waiters(),
            !acquired ==> final(self).waiters() == old(self).waiters().push(tid),
    {
        match self {
            Mutex::Spin(m) => {
                if m.locked {
                    m.spinning.push(tid);
                    false
                } else {
                    m.locked = true;
                    true
                }
            },
            Mutex::Blocking(m) => {
                if m.locked {
                    m.wait_queue.push(tid);
                    false
                } else {
                    m.locked = true;
                    true
                }
            },
        }
    }

    /// Release the mutex. When someone is waiting, the earliest waiter is
    /// returned as the new holder and the mutex stays held for it; otherwise
    /// the mutex becomes free. Releasing a free mutex is a protocol violation
    /// and is excluded.
    pub fn unlock(&mut self) -> (woken: Option<usize>)
        requires
            old(self).is_locked(),
        ensures
            old(self).same_variant(*final(self)),
            old(self).waiters().len() == 0 ==> woken.is_none() && !final(self).is_locked() && final(self).waiters().len() == 0,
            old(self).waiters().len() > 0 ==> woken == Some(old(self).waiters()[0]) && final(self).is_locked() && final(self).waiters() == old(self).waiters().subrange(
                1,
                old(self).waiters().len() as int,
            ),
    {
        match self {
            Mutex::Spin(m) => {
                if m.spinning.len() > 0 {
                    let first = m.spinning.remove(0);
                    Some(first)
                } else {
                    m.locked = false;
                    None
                }
            },
            Mutex::Blocking(m) => {
                if m.wait_queue.len() > 0 {
                    let first = m.wait_queue.remove(0);
                    Some(first)
                } else {
                    m.locked = false;
                    None
                }
            },
        }
    }
}

/// A counting semaphore: a signed count plus a wait queue. A negative count
/// records how many tasks are parked.
pub struct Semaphore {
    /// Remaining units when non-negative; minus the number of parked tasks
    /// when negative.
    pub count: isize,
    /// Parked tids, earliest first.
    pub wait_queue: Vec<usize>,
}

impl Semaphore {
    /// The count and the queue agree: exactly the tasks the count says are
    /// parked are parked.
    pub open spec fn wf(self) -> bool {
        &&& self.count < 0 ==> self.wait_queue@.len() == -(self.count as int)
        &&& self.count >= 0 ==> self.wait_queue@.len() == 0
    }

    /// A fresh semaphore holding `res_count` units.
    pub fn new(res_count: usize) -> (r: Semaphore)
        requires
            res_count <= isize::MAX,
        ensures
            r.wf(),
            r.count == res_count as isize,
            r.wait_queue@.len() == 0,
    {
        Semaphore { count: res_count as isize, wait_queue: Vec::new() }
    }

    /// Take one unit for `tid`. When no unit is left the task is recorded as
    /// parked and the caller must suspend.
    pub fn down(&mut self, tid: usize) -> (acquired: bool)
        requires
            old(self).wf(),
            old(self).count > isize::MIN,
        ensures
            final(self).wf(),
            final(self).count == old(self).count - 1,
            acquired == (old(self).count > 0),
            acquired ==> final(self).wait_queue@ == old(self).wait_queue@,
            !acquired ==> final(self).wait_queue@ == old(self).wait_queue@.push(tid),
    {
        self.count = self.count - 1;
        if self.count < 0 {
            self.wait_queue.push(tid);
            false
        } else {
            true
        }
    }

    /// Return one unit; when a task is parked, the earliest one is woken and
    /// takes the unit.
    pub fn up(&mut self) -> (woken: Option<usize>)
        requires
            old(self).wf(),
            old(self).count < isize::MAX,
        ensures
            final(self).wf(),
            final(self).count == old(self).count + 1,
            old(self).count < 0 ==> woken == Some(old(self).wait_queue@[0]) && final(self).wait_queue@ == old(self).wait_queue@.subrange(1, old(self).wait_queue@.len() as int),
            old(self).count >= 0 ==> woken.is_none() && final(self).wait_queue@ == old(self).wait_queue@,
    {
        self.count = self.count + 1;
        if self.count <= 0 {
            let first = self.wait_queue.remove(0);
            Some(first)
        } else {
            None
        }
    }
}

/// A condition variable: a wait queue; signalling wakes at most one waiter.
pub struct Condvar {
    /// Parked tids, earliest first.
    pub wait_queue: Vec<usize>,
}

impl Condvar {
    /// A fresh condition variable with nobody waiting.
    pub fn new() -> (r: Condvar)
        ensures
            r.wait_queue@.len() == 0,
    {
        Condvar { wait_queue: Vec::new() }
    }

    /// Park `tid` on the condition variable. The caller releases the paired
    /// mutex in the same step and suspends; on wake it reacquires the mutex
    /// before its wait returns.
    pub fn add_waiter(&mut self, tid: usize)
        ensures
            final(self).wait_queue@ == old(self).wait_queue@.push(tid),
    {
        self.wait_queue.push(tid);
    }

    /// Wake the earliest waiter, if any; a no-op when nobody waits.
    pub fn signal(&mut self) -> (woken: Option<usize>)
        ensures
            old(self).wait_queue@.len() == 0 ==> woken.is_none() && final(self).wait_queue@ == old(self).wait_queue@,
            old(self).wait_queue@.len() > 0 ==> woken == Some(old(self).wait_queue@[0]) && final(self).wait_queue@ == old(self).wait_queue@.subrange(1, old(self).wait_queue@.len() as int),
    {
        if self.wait_queue.len() > 0 {
            let first = self.wait_queue.remove(0);
            Some(first)
        } else {
            None
        }
    }
}

} // verus!
