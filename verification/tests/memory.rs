use oscore::mem::{MapArea, ProgramImage, PAGE_SIZE};
use oscore::syscall::{sys_mmap, sys_munmap, sys_sbrk};
use oscore::task::TaskControlBlock;

fn image() -> ProgramImage {
    ProgramImage { entry_point: 0x1000, user_sp: 0x8000_0000, segments: Vec::new() }
}

fn image_with_segment() -> ProgramImage {
    ProgramImage {
        entry_point: 0x1000,
        user_sp: 0x8000_0000,
        segments: vec![MapArea { start_vpn: 0x100, end_vpn: 0x102, port: 5 }],
    }
}

fn fresh_task() -> TaskControlBlock {
    TaskControlBlock::new(&image(), 1, 0x9000_0000, 7)
}

const BASE: usize = 0x1000_0000;

#[test]
fn mmap_rejects_unaligned_start() {
    let mut t = fresh_task();
    assert_eq!(sys_mmap(&mut t, BASE + 1, PAGE_SIZE, 3), -1);
    assert!(t.inner.memory_set.translate(BASE / PAGE_SIZE).is_none());
}

#[test]
fn mmap_rejects_zero_permission() {
    let mut t = fresh_task();
    assert_eq!(sys_mmap(&mut t, BASE, PAGE_SIZE, 0), -1);
    assert!(t.inner.memory_set.translate(BASE / PAGE_SIZE).is_none());
}

#[test]
fn mmap_rejects_high_permission_bits() {
    let mut t = fresh_task();
    assert_eq!(sys_mmap(&mut t, BASE, PAGE_SIZE, 8), -1);
    assert_eq!(sys_mmap(&mut t, BASE, PAGE_SIZE, 0x17), -1);
    assert!(t.inner.memory_set.translate(BASE / PAGE_SIZE).is_none());
}

#[test]
fn mmap_maps_the_rounded_up_page_range() {
    let mut t = fresh_task();
    assert_eq!(sys_mmap(&mut t, BASE, PAGE_SIZE * 2 + 1, 3), 0);
    let vpn = BASE / PAGE_SIZE;
    assert_eq!(t.inner.memory_set.translate(vpn), Some(3));
    assert_eq!(t.inner.memory_set.translate(vpn + 1), Some(3));
    assert_eq!(t.inner.memory_set.translate(vpn + 2), Some(3));
    assert!(t.inner.memory_set.translate(vpn + 3).is_none());
}

#[test]
fn mmap_rejects_any_overlap_and_changes_nothing() {
    let mut t = fresh_task();
    assert_eq!(sys_mmap(&mut t, BASE, PAGE_SIZE, 3), 0);
    // Second region straddles the first page: the whole call fails.
    assert_eq!(sys_mmap(&mut t, BASE, PAGE_SIZE * 2, 7), -1);
    let vpn = BASE / PAGE_SIZE;
    assert_eq!(t.inner.memory_set.translate(vpn), Some(3));
    assert!(t.inner.memory_set.translate(vpn + 1).is_none());
}

#[test]
fn mmap_respects_program_segments() {
    let mut t = TaskControlBlock::new(&image_with_segment(), 1, 0x9000_0000, 7);
    assert_eq!(sys_mmap(&mut t, 0x100 * PAGE_SIZE, PAGE_SIZE, 3), -1);
    assert_eq!(t.inner.memory_set.translate(0x100), Some(5));
}

#[test]
fn munmap_rejects_unaligned_start() {
    let mut t = fresh_task();
    assert_eq!(sys_mmap(&mut t, BASE, PAGE_SIZE, 3), 0);
    assert_eq!(sys_munmap(&mut t, BASE + 7, PAGE_SIZE), -1);
    assert_eq!(t.inner.memory_set.translate(BASE / PAGE_SIZE), Some(3));
}

#[test]
fn munmap_rejects_a_hole_and_changes_nothing() {
    let mut t = fresh_task();
    assert_eq!(sys_mmap(&mut t, BASE, PAGE_SIZE, 3), 0);
    // Second page of the range was never mapped.
    assert_eq!(sys_munmap(&mut t, BASE, PAGE_SIZE * 2), -1);
    assert_eq!(t.inner.memory_set.translate(BASE / PAGE_SIZE), Some(3));
}

#[test]
fn munmap_removes_a_middle_page_and_keeps_the_rest() {
    let mut t = fresh_task();
    assert_eq!(sys_mmap(&mut t, BASE, PAGE_SIZE * 3, 3), 0);
    assert_eq!(sys_munmap(&mut t, BASE + PAGE_SIZE, PAGE_SIZE), 0);
    let vpn = BASE / PAGE_SIZE;
    assert_eq!(t.inner.memory_set.translate(vpn), Some(3));
    assert!(t.inner.memory_set.translate(vpn + 1).is_none());
    assert_eq!(t.inner.memory_set.translate(vpn + 2), Some(3));
}

#[test]
fn munmap_then_mmap_reuses_the_range() {
    let mut t = fresh_task();
    assert_eq!(sys_mmap(&mut t, BASE, PAGE_SIZE, 3), 0);
    assert_eq!(sys_munmap(&mut t, BASE, PAGE_SIZE), 0);
    assert_eq!(sys_mmap(&mut t, BASE, PAGE_SIZE, 7), 0);
    assert_eq!(t.inner.memory_set.translate(BASE / PAGE_SIZE), Some(7));
}

#[test]
fn sbrk_returns_previous_break_and_grows() {
    let mut t = fresh_task();
    let old = t.inner.program_brk;
    assert_eq!(sys_sbrk(&mut t, 4096), old as isize);
    assert_eq!(t.inner.program_brk, old + 4096);
}

#[test]
fn sbrk_below_heap_bottom_fails_without_change() {
    // The first call leaves the break one page above the bottom; shrinking by
    // two pages would fall below the heap bottom and must change nothing.
    let mut t = fresh_task();
    assert_eq!(t.inner.heap_bottom, t.inner.program_brk);
    let old = t.inner.program_brk;
    assert_eq!(sys_sbrk(&mut t, 4096), old as isize);
    assert_eq!(sys_sbrk(&mut t, -8192), -1);
    assert_eq!(t.inner.program_brk, old + 4096);
    assert_eq!(sys_sbrk(&mut t, -4096), (old + 4096) as isize);
    assert_eq!(t.inner.program_brk, old);
}

#[test]
fn sbrk_growth_stops_at_a_mapped_region() {
    let mut t = fresh_task();
    let brk = t.inner.program_brk;
    // A framed region on the page right above the heap blocks growth.
    assert_eq!(sys_mmap(&mut t, brk, PAGE_SIZE, 3), 0);
    assert_eq!(sys_sbrk(&mut t, 16), -1);
    assert_eq!(t.inner.program_brk, brk);
}
