//! The deadlock-avoidance safety check: simulate whether every live task
//! could finish, given the currently available units, the per-task
//! allocations and the outstanding needs of one resource kind.

use vstd::prelude::*;

verus! {

/// The views of a table's rows.
pub open spec fn rows_view(rows: Seq<Vec<usize>>) -> Seq<Seq<usize>> {
    Seq::new(rows.len(), |t: int| rows[t]@)
}

/// Tasks that are not live start out finished: they need nothing.
pub open spec fn init_finished(live: Seq<bool>) -> Seq<bool> {
    live.map_values(|b: bool| !b)
}

/// Saturating sum of two counts.
pub open spec fn sat_add(a: usize, b: usize) -> usize {
    if a + b > usize::MAX {
        usize::MAX
    } else {
        (a + b) as usize
    }
}

/// Elementwise saturating sum of a working vector and an allocation row.
pub open spec fn vec_add_sat(work: Seq<usize>, alloc: Seq<usize>) -> Seq<usize> {
    Seq::new(work.len(), |j: int| sat_add(work[j], alloc[j]))
}

/// The whole need row fits under the working vector.
pub open spec fn row_fits(need: Seq<usize>, work: Seq<usize>) -> bool {
    &&& need.len() == work.len()
    &&& forall|j: int| 0 <= j < work.len() ==> #[trigger] need[j] <= work[j]
}

/// The first unfinished task at or after position `k` whose whole need row
/// fits under the working vector.
pub open spec fn first_ready(
    need: Seq<Seq<usize>>,
    finished: Seq<bool>,
    work: Seq<usize>,
    k: int,
) -> Option<int>
    decreases need.len() - k,
    when 0 <= k <= need.len()
{
    if k >= need.len() {
        None
    } else if k < finished.len() && !finished[k] && row_fits(need[k], work) {
        Some(k)
    } else {
        first_ready(need, finished, work, k + 1)
    }
}

/// How many tasks are not yet finished.
pub open spec fn count_unfinished(finished: Seq<bool>) -> nat
    decreases finished.len(),
{
    if finished.len() == 0 {
        0
    } else {
        (if finished[0] {
            0nat
        } else {
            1nat
        }) + count_unfinished(finished.drop_first())
    }
}

/// Marking an unfinished task finished lowers the count.
pub proof fn lemma_count_unfinished_update(finished: Seq<bool>, t: int)
    requires
        0 <= t < finished.len(),
        !finished[t],
    ensures
        count_unfinished(finished.update(t, true)) < count_unfinished(finished),
    decreases finished.len(),
{
    if t == 0 {
        assert(finished.update(0, true).drop_first() =~= finished.drop_first());
    } else {
        assert(finished.update(t, true).drop_first() =~= finished.drop_first().update(t - 1, true));
        lemma_count_unfinished_update(finished.drop_first(), t - 1);
    }
}

/// What a found task satisfies.
pub proof fn lemma_first_ready_some(
    need: Seq<Seq<usize>>,
    finished: Seq<bool>,
    work: Seq<usize>,
    k: int,
    t: int,
)
    requires
        0 <= k <= need.len(),
        first_ready(need, finished, work, k) == Some(t),
    ensures
        k <= t < need.len(),
        t < finished.len(),
        !finished[t],
        row_fits(need[t], work),
    decreases need.len() - k,
{
    if k >= need.len() {
    } else if k < finished.len() && !finished[k] && row_fits(need[k], work) {
    } else {
        lemma_first_ready_some(need, finished, work, k + 1, t);
    }
}

/// The state is safe: repeatedly retiring the first task whose entire need
/// row fits under the working vector, and folding its allocation back in,
/// finishes every task. This is the reference meaning of the deadlock check;
/// an unsafe state is one where some task remains unfinished.
pub open spec fn safety_holds(
    work: Seq<usize>,
    alloc: Seq<Seq<usize>>,
    need: Seq<Seq<usize>>,
    finished: Seq<bool>,
) -> bool
    decreases count_unfinished(finished),
    via safety_holds_decreases
{
    match first_ready(need, finished, work, 0) {
        Some(t) => safety_holds(
            vec_add_sat(work, alloc[t]),
            alloc,
            need,
            finished.update(t, true),
        ),
        None => forall|j: int| 0 <= j < finished.len() ==> finished[j],
    }
}

#[via_fn]
proof fn safety_holds_decreases(
    work: Seq<usize>,
    alloc: Seq<Seq<usize>>,
    need: Seq<Seq<usize>>,
    finished: Seq<bool>,
) {
    match first_ready(need, finished, work, 0) {
        Some(t) => {
            lemma_first_ready_some(need, finished, work, 0, t);
            lemma_count_unfinished_update(finished, t);
        },
        None => {},
    }
}

/// Updating one row of a table updates one row of its view.
pub proof fn lemma_rows_view_set(olds: Seq<Vec<usize>>, news: Seq<Vec<usize>>, t: int)
    requires
        news.len() == olds.len(),
        0 <= t < olds.len(),
        forall|x: int| 0 <= x < olds.len() && x != t ==> news[x] == olds[x],
    ensures
        rows_view(news) =~= rows_view(olds).update(t, news[t]@),
{
}

/// Whether the whole need row fits under the working vector.
fn check_row_fits(need_row: &Vec<usize>, work: &Vec<usize>) -> (r: bool)
    requires
        need_row@.len() == work@.len(),
    ensures
        r == row_fits(need_row@, work@),
{
    let mut j: usize = 0;
    while j < work.len()
        invariant
            0 <= j <= work@.len(),
            need_row@.len() == work@.len(),
            forall|x: int| 0 <= x < j ==> #[trigger] need_row@[x] <= work@[x],
        decreases work@.len() - j,
    {
        if need_row[j] > work[j] {
            return false;
        }
        j = j + 1;
    }
    true
}

/// The first unfinished task whose whole need row fits; mirrors `first_ready`
/// from position 0.
fn scan_ready(need: &Vec<Vec<usize>>, finished: &Vec<bool>, work: &Vec<usize>) -> (r: Option<usize>)
    requires
        finished@.len() == need@.len(),
        forall|t: int| 0 <= t < need@.len() ==> (#[trigger] need@[t])@.len() == work@.len(),
    ensures
        match r {
            Some(t) => t < need@.len() && first_ready(rows_view(need@), finished@, work@, 0)
                == Some(t as int),
            None => first_ready(rows_view(need@), finished@, work@, 0).is_none(),
        },
{
    let mut t: usize = 0;
    while t < need.len()
        invariant
            0 <= t <= need@.len(),
            finished@.len() == need@.len(),
            forall|x: int| 0 <= x < need@.len() ==> (#[trigger] need@[x])@.len() == work@.len(),
            first_ready(rows_view(need@), finished@, work@, 0) == first_ready(
                rows_view(need@),
                finished@,
                work@,
                t as int,
            ),
        decreases need@.len() - t,
    {
        if !finished[t] && check_row_fits(&need[t], work) {
            proof {
                assert(rows_view(need@)[t as int] == need@[t as int]@);
                assert(first_ready(rows_view(need@), finished@, work@, t as int) == Some(t as int));
            }
            return Some(t);
        }
        proof {
            assert(rows_view(need@)[t as int] == need@[t as int]@);
            assert(first_ready(rows_view(need@), finished@, work@, t as int) == first_ready(
                rows_view(need@),
                finished@,
                work@,
                t + 1,
            ));
        }
        t = t + 1;
    }
    proof {
        assert(first_ready(rows_view(need@), finished@, work@, need@.len() as int).is_none());
    }
    None
}

/// Fold a retiring task's allocation row back into the working vector,
/// saturating at the top of the counter range.
fn add_allocation(work: &mut Vec<usize>, alloc_row: &Vec<usize>)
    requires
        old(work)@.len() == alloc_row@.len(),
    ensures
        final(work)@ == vec_add_sat(old(work)@, alloc_row@),
{
    let mut j: usize = 0;
    while j < work.len()
        invariant
            0 <= j <= work@.len(),
            work@.len() == old(work)@.len(),
            alloc_row@.len() == old(work)@.len(),
            forall|x: int| 0 <= x < j ==> work@[x] == sat_add(old(work)@[x], alloc_row@[x]),
            forall|x: int| j <= x < work@.len() ==> work@[x] == old(work)@[x],
        decreases work@.len() - j,
    {
        let v = work[j].saturating_add(alloc_row[j]);
        work.set(j, v);
        j = j + 1;
    }
    proof {
        assert(work@ =~= vec_add_sat(old(work)@, alloc_row@));
    }
}

/// Run the safety algorithm over one resource kind's tables: a working copy
/// of `available`, a finished-set holding every non-live task, then repeated
/// retirement of the first task whose need row fits. Returns true exactly
/// when some live task cannot finish — the state is unsafe.
pub fn detect_unsafe(
    available: &Vec<usize>,
    allocation: &Vec<Vec<usize>>,
    need: &Vec<Vec<usize>>,
    live: &Vec<bool>,
) -> (r: bool)
    requires
        allocation@.len() == live@.len(),
        need@.len() == live@.len(),
        forall|t: int| 0 <= t < live@.len() ==> (#[trigger] allocation@[t])@.len()
            == available@.len(),
        forall|t: int| 0 <= t < live@.len() ==> (#[trigger] need@[t])@.len() == available@.len(),
    ensures
        r == !safety_holds(
            available@,
            rows_view(allocation@),
            rows_view(need@),
            init_finished(live@),
        ),
{
    let n = live.len();
    let mut finished: Vec<bool> = Vec::new();
    let mut t: usize = 0;
    while t < n
        invariant
            0 <= t <= live@.len(),
            n == live@.len(),
            finished@.len() == t,
            forall|x: int| 0 <= x < t ==> finished@[x] == !live@[x],
        decreases n - t,
    {
        finished.push(!live[t]);
        t = t + 1;
    }
    proof {
        assert(finished@ =~= init_finished(live@));
    }
    let mut work: Vec<usize> = Vec::new();
    let mut j: usize = 0;
    while j < available.len()
        invariant
            0 <= j <= available@.len(),
            work@ == available@.take(j as int),
        decreases available@.len() - j,
    {
        work.push(available[j]);
        assert(available@.take(j + 1) == available@.take(j as int).push(available@[j as int]));
        j = j + 1;
    }
    proof {
        assert(available@.take(available@.len() as int) == available@);
    }
    let ghost av = rows_view(allocation@);
    let ghost nv = rows_view(need@);
    let mut done = false;
    while !done
        invariant
            n == live@.len(),
            finished@.len() == n,
            work@.len() == available@.len(),
            allocation@.len() == live@.len(),
            need@.len() == live@.len(),
            av == rows_view(allocation@),
            nv == rows_view(need@),
            forall|x: int| 0 <= x < live@.len() ==> (#[trigger] allocation@[x])@.len()
                == available@.len(),
            forall|x: int| 0 <= x < live@.len() ==> (#[trigger] need@[x])@.len()
                == available@.len(),
            safety_holds(available@, av, nv, init_finished(live@)) == safety_holds(
                work@,
                av,
                nv,
                finished@,
            ),
            done ==> first_ready(nv, finished@, work@, 0).is_none(),
        decreases count_unfinished(finished@) + (if done {
            0int
        } else {
            1int
        }),
    {
        let found = scan_ready(need, &finished, &work);
        match found {
            Some(ready) => {
                let ghost work_pre = work@;
                let ghost finished_pre = finished@;
                proof {
                    lemma_first_ready_some(nv, finished@, work@, 0, ready as int);
                    assert(av[ready as int] == allocation@[ready as int]@);
                }
                add_allocation(&mut work, &allocation[ready]);
                finished.set(ready, true);
                proof {
                    lemma_count_unfinished_update(finished_pre, ready as int);
                    assert(finished@ =~= finished_pre.update(ready as int, true));
                    assert(safety_holds(work_pre, av, nv, finished_pre) == safety_holds(
                        work@,
                        av,
                        nv,
                        finished@,
                    ));
                }
            },
            None => {
                done = true;
            },
        }
    }
    let mut all = true;
    let mut t2: usize = 0;
    while t2 < n
        invariant
            0 <= t2 <= n,
            finished@.len() == n,
            all == (forall|x: int| 0 <= x < t2 ==> #[trigger] finished@[x]),
        decreases n - t2,
    {
        if !finished[t2] {
            all = false;
        }
        t2 = t2 + 1;
    }
    proof {
        assert(safety_holds(work@, av, nv, finished@) == (forall|x: int|
            0 <= x < finished@.len() ==> finished@[x]));
    }
    !all
}

} // verus!
