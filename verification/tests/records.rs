use oscore::mem::ProgramImage;
use oscore::syscall::{
    sys_exit, sys_get_time, sys_sleep, sys_task_info, sys_yield, TASK_INFO_BYTES,
};
use oscore::task::{TaskControlBlock, TaskStatus, MAX_SYSCALL_NUM};

fn image() -> ProgramImage {
    ProgramImage { entry_point: 0x1000, user_sp: 0x8000_0000, segments: Vec::new() }
}

fn fresh_task() -> TaskControlBlock {
    TaskControlBlock::new(&image(), 1, 0x9000_0000, 7)
}

#[test]
fn get_time_scatters_across_fragments() {
    // A record that straddles a page boundary: ten bytes in one fragment and
    // six in the next.
    let mut buffers = vec![vec![0u8; 10], vec![0u8; 6]];
    assert_eq!(sys_get_time(&mut buffers, 3_500_000, 0), 0);
    let mut flat: Vec<u8> = Vec::new();
    flat.extend_from_slice(&buffers[0]);
    flat.extend_from_slice(&buffers[1]);
    let mut expected = 3u64.to_le_bytes().to_vec();
    expected.extend_from_slice(&500_000u64.to_le_bytes());
    assert_eq!(flat, expected);
    assert_eq!(buffers[0].len(), 10);
    assert_eq!(buffers[1].len(), 6);
}

#[test]
fn get_time_splits_seconds_and_microseconds() {
    let mut buffers = vec![vec![0u8; 16]];
    assert_eq!(sys_get_time(&mut buffers, 999_999, 0), 0);
    assert_eq!(buffers[0][0..8], 0u64.to_le_bytes());
    assert_eq!(buffers[0][8..16], 999_999u64.to_le_bytes());
}

#[test]
fn task_info_records_status_counts_and_time() {
    let mut t = fresh_task();
    t.update_syscall_times(64);
    t.update_syscall_times(64);
    t.update_syscall_times(93);
    t.inner.start_time = 4242;
    let mut buffers = vec![vec![0u8; 1000], vec![0u8; TASK_INFO_BYTES - 1000]];
    assert_eq!(sys_task_info(&mut buffers, &t), 0);
    let mut flat: Vec<u8> = Vec::new();
    flat.extend_from_slice(&buffers[0]);
    flat.extend_from_slice(&buffers[1]);
    assert_eq!(flat.len(), TASK_INFO_BYTES);
    // Status byte: Ready.
    assert_eq!(flat[0], 1);
    // Counter 64 was bumped twice, counter 93 once, the rest never.
    assert_eq!(flat[1 + 64 * 4..1 + 64 * 4 + 4], 2u32.to_le_bytes());
    assert_eq!(flat[1 + 93 * 4..1 + 93 * 4 + 4], 1u32.to_le_bytes());
    assert_eq!(flat[1 + 7 * 4..1 + 7 * 4 + 4], 0u32.to_le_bytes());
    // Elapsed time at the tail.
    assert_eq!(flat[1 + 4 * MAX_SYSCALL_NUM..], 4242u64.to_le_bytes());
}

#[test]
fn task_info_getter_copies_the_counters() {
    let mut t = fresh_task();
    t.update_syscall_times(5);
    let (status, counts, time) = t.task_info();
    assert_eq!(status, TaskStatus::Ready);
    assert_eq!(counts.len(), MAX_SYSCALL_NUM);
    assert_eq!(counts[5], 1);
    assert_eq!(counts[6], 0);
    assert_eq!(time, 0);
}

#[test]
fn exit_turns_the_task_into_a_zombie_and_orphans_its_children() {
    let mut t = fresh_task();
    let child = t.fork(2, 0x9100_0000, 8);
    assert_eq!(child.inner.parent, Some(1));
    assert_eq!(t.inner.children, vec![2]);
    let orphans = sys_exit(&mut t, 3);
    assert_eq!(orphans, vec![2]);
    assert!(t.inner.children.is_empty());
    assert!(t.inner.is_zombie());
    assert_eq!(t.inner.exit_code, 3);
}

#[test]
fn yield_makes_the_task_ready_again() {
    let mut t = fresh_task();
    t.inner.task_status = TaskStatus::Running;
    assert_eq!(sys_yield(&mut t), 0);
    assert_eq!(t.inner.get_status(), TaskStatus::Ready);
}

#[test]
fn sleep_blocks_and_returns_the_expiry_tick() {
    let mut t = fresh_task();
    let (r, expire) = sys_sleep(&mut t, 1000, 250);
    assert_eq!(r, 0);
    assert_eq!(expire, 1250);
    assert_eq!(t.inner.get_status(), TaskStatus::Blocked);
}

#[test]
fn fork_copies_the_address_space_and_heap_bounds() {
    let mut t = fresh_task();
    assert_eq!(oscore::syscall::sys_sbrk(&mut t, 4096), 0x8000_0000);
    let child = t.fork(2, 0x9100_0000, 8);
    assert_eq!(child.getpid(), 2);
    assert_eq!(child.inner.heap_bottom, t.inner.heap_bottom);
    assert_eq!(child.inner.program_brk, t.inner.program_brk);
    assert_eq!(child.inner.priority, 16);
    assert_eq!(child.stride().0, 0);
    assert_eq!(child.inner.get_status(), TaskStatus::Ready);
    assert_eq!(child.get_user_token(), 8);
}

#[test]
fn spawn_builds_the_child_from_the_new_image() {
    let mut t = fresh_task();
    let other = ProgramImage { entry_point: 0x2000, user_sp: 0x4000_0000, segments: Vec::new() };
    let child = t.spawn(&other, 3, 0x9200_0000, 9);
    assert_eq!(t.inner.children, vec![3]);
    assert_eq!(child.inner.parent, Some(1));
    assert_eq!(child.inner.heap_bottom, 0x4000_0000);
    assert_eq!(child.inner.trap_cx.entry, 0x2000);
}

#[test]
fn exec_replaces_the_address_space_in_place() {
    let mut t = fresh_task();
    assert_eq!(oscore::syscall::sys_sbrk(&mut t, 4096), 0x8000_0000);
    let other = ProgramImage { entry_point: 0x2000, user_sp: 0x4000_0000, segments: Vec::new() };
    t.exec(&other, 11);
    assert_eq!(t.getpid(), 1);
    assert_eq!(t.inner.heap_bottom, 0x4000_0000);
    assert_eq!(t.inner.program_brk, 0x4000_0000);
    assert_eq!(t.get_user_token(), 11);
    assert_eq!(t.inner.trap_cx.entry, 0x2000);
    assert_eq!(t.inner.trap_cx.kernel_sp, 0x9000_0000);
}

#[test]
fn inner_exclusive_access_hands_out_the_mutable_state() {
    let mut t = fresh_task();
    let inner = t.inner_exclusive_access();
    inner.exit_code = 7;
    assert_eq!(inner.get_user_token(), 7);
    assert!(!inner.is_zombie());
    assert_eq!(t.inner.exit_code, 7);
    let cx = t.inner.get_trap_cx();
    cx.sp = 0x1234;
    assert_eq!(t.inner.trap_cx.sp, 0x1234);
}
