//! The ready queue and the stride-fairness selection rule.

use vstd::prelude::*;

use crate::stride::{in_window, lemma_gt_in_window, stride_gt, wrap_dist};
use crate::task::TaskControlBlock;

verus! {

/// Every queued task's stride lies within half a modulus above `lo`. The
/// wrap-safe order is transitive only inside such a window, so every ordering
/// claim about a selection is made relative to one.
pub open spec fn queue_in_window(q: Seq<TaskControlBlock>, lo: u64) -> bool {
    forall|k: int| 0 <= k < q.len() ==> #[trigger] in_window(q[k].inner.stride.0, lo)
}

/// The raw stride of the task at position `j`.
pub open spec fn stride_at(q: Seq<TaskControlBlock>, j: int) -> u64 {
    q[j].inner.stride.0
}

/// What dequeuing selects: the task at position `i` of the old queue, with the
/// rest left in order. Whenever the queued strides fit one half-modulus
/// window, the selected stride is wrap-safe less-or-equal to every queued
/// stride, and `i` is the earliest position attaining it (ties break toward
/// the front of the queue).
pub open spec fn min_stride_selection(
    q: Seq<TaskControlBlock>,
    i: int,
    t: TaskControlBlock,
    rest: Seq<TaskControlBlock>,
) -> bool {
    &&& 0 <= i < q.len()
    &&& t == q[i]
    &&& rest == q.remove(i)
    &&& forall|lo: u64| #[trigger] queue_in_window(q, lo) ==> (forall|j: int|
        0 <= j < q.len() ==> !stride_gt(t.inner.stride.0, #[trigger] stride_at(q, j))) && (forall|
        j: int,
    |
        0 <= j < i ==> stride_gt(#[trigger] stride_at(q, j), t.inner.stride.0))
}

/// The ready queue: insertion order is kept, and selection scans for the
/// wrap-safe minimal stride.
pub struct TaskManager {
    /// Tasks ready to run.
    pub ready_queue: Vec<TaskControlBlock>,
}

impl TaskManager {
    /// An empty ready queue.
    pub fn new() -> (r: TaskManager)
        ensures
            r.ready_queue@.len() == 0,
    {
        TaskManager { ready_queue: Vec::new() }
    }

    /// Append a task to the back of the ready queue. Never fails.
    pub fn add(&mut self, task: TaskControlBlock)
        ensures
            final(self).ready_queue@ == old(self).ready_queue@.push(task),
    {
        self.ready_queue.push(task);
    }

    /// Take the wrap-safe minimal-stride task out of the ready queue, or
    /// `None` when the queue is empty. Equal strides never compare as
    /// smaller, so the first of them in queue order wins.
    pub fn fetch(&mut self) -> (r: Option<TaskControlBlock>)
        ensures
            r.is_some() == (old(self).ready_queue@.len() > 0),
            r.is_none() ==> *final(self) == *old(self),
            r matches Some(t) ==> exists|i: int|
                #[trigger] min_stride_selection(
                    old(self).ready_queue@,
                    i,
                    t,
                    final(self).ready_queue@,
                ),
    {
        if self.ready_queue.len() == 0 {
            return None;
        }
        let ghost q = self.ready_queue@;
        let mut idx: usize = 0;
        let mut i: usize = 1;
        while i < self.ready_queue.len()
            invariant
                self.ready_queue@ == q,
                0 <= idx < i <= q.len(),
                forall|lo: u64| #[trigger] queue_in_window(q, lo) ==> (forall|j: int|
                    0 <= j < i ==> wrap_dist(stride_at(q, idx as int), lo) <= wrap_dist(
                        #[trigger] stride_at(q, j),
                        lo,
                    )) && (forall|j: int|
                    0 <= j < idx ==> wrap_dist(#[trigger] stride_at(q, j), lo) > wrap_dist(
                        stride_at(q, idx as int),
                        lo,
                    )),
            decreases q.len() - i,
        {
            let a = self.ready_queue[idx].stride();
            let b = self.ready_queue[i].stride();
            let g = a.wrap_gt(&b);
            let ghost idx0 = idx as int;
            if g {
                idx = i;
            }
            proof {
                assert forall|lo: u64| #[trigger] queue_in_window(q, lo) implies (forall|j: int|
                    0 <= j < i + 1 ==> wrap_dist(stride_at(q, idx as int), lo) <= wrap_dist(
                        #[trigger] stride_at(q, j),
                        lo,
                    )) && (forall|j: int|
                    0 <= j < idx ==> wrap_dist(#[trigger] stride_at(q, j), lo) > wrap_dist(
                        stride_at(q, idx as int),
                        lo,
                    )) by {
                    assert(in_window(stride_at(q, idx0), lo));
                    assert(in_window(stride_at(q, i as int), lo));
                    lemma_gt_in_window(stride_at(q, idx0), stride_at(q, i as int), lo);
                    if g {
                        assert forall|j: int| 0 <= j < i + 1 implies wrap_dist(
                            stride_at(q, idx as int),
                            lo,
                        ) <= wrap_dist(#[trigger] stride_at(q, j), lo) by {
                            if j < i {
                                assert(wrap_dist(stride_at(q, idx0), lo) <= wrap_dist(
                                    stride_at(q, j),
                                    lo,
                                ));
                            }
                        }
                        assert forall|j: int| 0 <= j < idx implies wrap_dist(
                            #[trigger] stride_at(q, j),
                            lo,
                        ) > wrap_dist(stride_at(q, idx as int), lo) by {
                            assert(wrap_dist(stride_at(q, idx0), lo) <= wrap_dist(
                                stride_at(q, j),
                                lo,
                            ));
                        }
                    } else {
                        assert forall|j: int| 0 <= j < i + 1 implies wrap_dist(
                            stride_at(q, idx as int),
                            lo,
                        ) <= wrap_dist(#[trigger] stride_at(q, j), lo) by {
                            if j < i {
                                assert(wrap_dist(stride_at(q, idx0), lo) <= wrap_dist(
                                    stride_at(q, j),
                                    lo,
                                ));
                            }
                        }
                    }
                }
            }
            i = i + 1;
        }
        let t = self.ready_queue.remove(idx);
        proof {
            let ghost fi = idx as int;
            assert forall|lo: u64| #[trigger] queue_in_window(q, lo) implies (forall|j: int|
                0 <= j < q.len() ==> !stride_gt(t.inner.stride.0, #[trigger] stride_at(q, j))) && (
            forall|j: int| 0 <= j < fi ==> stride_gt(#[trigger] stride_at(q, j), t.inner.stride.0))
                by {
                assert forall|j: int| 0 <= j < q.len() implies !stride_gt(
                    t.inner.stride.0,
                    #[trigger] stride_at(q, j),
                ) by {
                    assert(wrap_dist(stride_at(q, fi), lo) <= wrap_dist(stride_at(q, j), lo));
                    lemma_gt_in_window(stride_at(q, fi), stride_at(q, j), lo);
                }
                assert forall|j: int| 0 <= j < fi implies stride_gt(
                    #[trigger] stride_at(q, j),
                    t.inner.stride.0,
                ) by {
                    assert(wrap_dist(stride_at(q, j), lo) > wrap_dist(stride_at(q, fi), lo));
                    lemma_gt_in_window(stride_at(q, j), stride_at(q, fi), lo);
                }
            }
            assert(min_stride_selection(q, fi, t, self.ready_queue@));
        }
        Some(t)
    }
}

impl Default for TaskManager {
    /// Same as `TaskManager::new`: an empty ready queue.
    fn default() -> (r: TaskManager)
        ensures
            r.ready_queue@.len() == 0,
    {
        TaskManager::new()
    }
}

} // verus!
