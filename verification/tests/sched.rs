use oscore::manager::TaskManager;
use oscore::mem::ProgramImage;
use oscore::stride::{Stride, BIG_STRIDE};
use oscore::task::TaskControlBlock;

fn image() -> ProgramImage {
    ProgramImage { entry_point: 0x1000, user_sp: 0x8000_0000, segments: Vec::new() }
}

fn fresh_task(pid: usize) -> TaskControlBlock {
    TaskControlBlock::new(&image(), pid, 0x9000_0000 + pid * 0x2000, pid + 100)
}

#[test]
fn fetch_on_empty_queue_is_none() {
    let mut mgr = TaskManager::new();
    assert!(mgr.fetch().is_none());
}

#[test]
fn fetch_selects_smallest_stride() {
    let mut mgr = TaskManager::new();
    let mut a = fresh_task(1);
    a.inner.stride = Stride(5);
    let mut b = fresh_task(2);
    b.inner.stride = Stride(3);
    let mut c = fresh_task(3);
    c.inner.stride = Stride(9);
    mgr.add(a);
    mgr.add(b);
    mgr.add(c);
    let first = mgr.fetch().unwrap();
    assert_eq!(first.getpid(), 2);
    let second = mgr.fetch().unwrap();
    assert_eq!(second.getpid(), 1);
    let third = mgr.fetch().unwrap();
    assert_eq!(third.getpid(), 3);
    assert!(mgr.fetch().is_none());
}

#[test]
fn fetch_breaks_stride_ties_toward_the_front() {
    let mut mgr = TaskManager::new();
    let mut a = fresh_task(1);
    a.inner.stride = Stride(7);
    let mut b = fresh_task(2);
    b.inner.stride = Stride(7);
    mgr.add(a);
    mgr.add(b);
    assert_eq!(mgr.fetch().unwrap().getpid(), 1);
    assert_eq!(mgr.fetch().unwrap().getpid(), 2);
}

#[test]
fn fetch_compares_wrap_safe_across_overflow() {
    // A counter just below the wrap and one just past it: the wrapped value
    // is numerically tiny but lies ahead of the large one in the wrap-safe
    // order, so the large one is selected.
    let mut mgr = TaskManager::new();
    let mut wrapped = fresh_task(1);
    wrapped.inner.stride = Stride(5);
    let mut behind = fresh_task(2);
    behind.inner.stride = Stride(u64::MAX - 10);
    mgr.add(wrapped);
    mgr.add(behind);
    assert_eq!(mgr.fetch().unwrap().getpid(), 2);
}

#[test]
fn wrap_gt_flips_beyond_half_window() {
    assert!(Stride(5).wrap_gt(&Stride(u64::MAX - 10)));
    assert!(!Stride(u64::MAX - 10).wrap_gt(&Stride(5)));
    assert!(Stride(10).wrap_gt(&Stride(3)));
    assert!(!Stride(3).wrap_gt(&Stride(10)));
    assert!(!Stride(7).wrap_gt(&Stride(7)));
}

#[test]
fn add_pass_advances_by_big_stride_over_priority() {
    let mut t = fresh_task(1);
    assert_eq!(t.inner.priority, 16);
    assert_eq!(t.stride().0, 0);
    t.add_pass();
    assert_eq!(t.stride().0, BIG_STRIDE / 16);
    t.add_pass();
    assert_eq!(t.stride().0, (BIG_STRIDE / 16) * 2);
}

#[test]
fn add_pass_wraps_around() {
    let mut t = fresh_task(1);
    assert_eq!(t.set_priority(2), 0);
    t.inner.stride = Stride(u64::MAX - 5);
    t.add_pass();
    assert_eq!(t.stride().0, (u64::MAX - 5).wrapping_add(BIG_STRIDE / 2));
}

#[test]
fn set_priority_rejects_degenerate_values() {
    let mut t = fresh_task(1);
    assert_eq!(t.set_priority(0), -1);
    assert_eq!(t.set_priority(1), -1);
    assert_eq!(t.inner.priority, 16);
    assert_eq!(t.set_priority(32), 0);
    assert_eq!(t.inner.priority, 32);
}

#[test]
fn double_priority_runs_about_twice_as_often() {
    let mut mgr = TaskManager::new();
    let a = fresh_task(1);
    let mut b = fresh_task(2);
    assert_eq!(b.set_priority(32), 0);
    mgr.add(a);
    mgr.add(b);
    let mut a_runs: usize = 0;
    let mut b_runs: usize = 0;
    let rounds: usize = 300;
    let mut i: usize = 0;
    while i < rounds {
        let mut t = mgr.fetch().unwrap();
        if t.getpid() == 1 {
            a_runs += 1;
        } else {
            b_runs += 1;
        }
        t.add_pass();
        mgr.add(t);
        i += 1;
    }
    assert_eq!(a_runs + b_runs, rounds);
    assert!(b_runs >= 2 * a_runs - 4, "b_runs {} a_runs {}", b_runs, a_runs);
    assert!(b_runs <= 2 * a_runs + 4, "b_runs {} a_runs {}", b_runs, a_runs);
}
