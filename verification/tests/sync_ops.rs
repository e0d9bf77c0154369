use oscore::process::ProcessControlBlockInner;
use oscore::sync::Mutex;
use oscore::syscall::{
    sys_condvar_create, sys_condvar_signal, sys_condvar_wait, sys_enable_deadlock_detect,
    sys_mutex_create, sys_mutex_lock, sys_mutex_unlock, sys_semaphore_create, sys_semaphore_down,
    sys_semaphore_up, DEADLOCK_ERR,
};

fn three_task_process() -> ProcessControlBlockInner {
    let mut p = ProcessControlBlockInner::new();
    assert_eq!(p.add_task(), 1);
    assert_eq!(p.add_task(), 2);
    p
}

#[test]
fn mutex_create_ids_count_up() {
    let mut p = three_task_process();
    assert_eq!(sys_mutex_create(&mut p, true), 0);
    assert_eq!(sys_mutex_create(&mut p, false), 1);
    assert_eq!(sys_mutex_create(&mut p, true), 2);
}

#[test]
fn freed_ids_are_reused_never_duplicated() {
    let mut p = three_task_process();
    assert_eq!(sys_mutex_create(&mut p, true), 0);
    assert_eq!(sys_mutex_create(&mut p, true), 1);
    assert_eq!(sys_mutex_create(&mut p, true), 2);
    p.mutex_free(1);
    assert!(p.mutex_list[1].is_none());
    // The freed slot is handed out again; the live ids stay distinct.
    assert_eq!(sys_mutex_create(&mut p, false), 1);
    assert_eq!(sys_mutex_create(&mut p, true), 3);
    assert!(p.mutex_list.iter().all(|m| m.is_some()));
}

#[test]
fn freed_semaphore_and_condvar_ids_are_reused() {
    let mut p = three_task_process();
    assert_eq!(sys_semaphore_create(&mut p, 1), 0);
    assert_eq!(sys_semaphore_create(&mut p, 2), 1);
    p.semaphore_free(0);
    assert_eq!(sys_semaphore_create(&mut p, 5), 0);
    assert_eq!(sys_condvar_create(&mut p), 0);
    assert_eq!(sys_condvar_create(&mut p), 1);
    p.condvar_free(0);
    assert_eq!(sys_condvar_create(&mut p), 0);
    assert_eq!(sys_condvar_create(&mut p), 2);
}

#[test]
fn mutex_lock_and_unlock_move_the_accounting() {
    let mut p = three_task_process();
    assert_eq!(sys_mutex_create(&mut p, true), 0);
    assert_eq!(p.available_mutex[0], 1);
    assert_eq!(sys_mutex_lock(&mut p, 0, 0), 0);
    assert_eq!(p.available_mutex[0], 0);
    assert_eq!(p.allocation_mutex[0][0], 1);
    assert_eq!(p.need_mutex[0][0], 0);
    assert_eq!(sys_mutex_unlock(&mut p, 0, 0), 0);
    assert_eq!(p.available_mutex[0], 1);
    assert_eq!(p.allocation_mutex[0][0], 0);
}

#[test]
fn held_mutex_parks_the_second_task_until_handover() {
    let mut p = three_task_process();
    assert_eq!(sys_mutex_create(&mut p, true), 0);
    assert_eq!(sys_mutex_lock(&mut p, 0, 0), 0);
    assert_eq!(sys_mutex_lock(&mut p, 1, 0), 0);
    match &p.mutex_list[0] {
        Some(Mutex::Blocking(m)) => {
            assert!(m.locked);
            assert_eq!(m.wait_queue, vec![1]);
        },
        _ => panic!("expected a blocking mutex"),
    }
    // The want stays outstanding while task 1 is parked.
    assert_eq!(p.need_mutex[1][0], 1);
    // Unlock hands the mutex straight to the waiter.
    assert_eq!(sys_mutex_unlock(&mut p, 0, 0), 0);
    match &p.mutex_list[0] {
        Some(Mutex::Blocking(m)) => {
            assert!(m.locked);
            assert!(m.wait_queue.is_empty());
        },
        _ => panic!("expected a blocking mutex"),
    }
    assert_eq!(p.allocation_mutex[0][0], 0);
    assert_eq!(p.allocation_mutex[1][0], 1);
    assert_eq!(p.need_mutex[1][0], 0);
    assert_eq!(p.available_mutex[0], 0);
}

#[test]
fn spin_mutex_records_spinners_and_hands_over() {
    let mut p = three_task_process();
    assert_eq!(sys_mutex_create(&mut p, false), 0);
    assert_eq!(sys_mutex_lock(&mut p, 0, 0), 0);
    assert_eq!(sys_mutex_lock(&mut p, 2, 0), 0);
    match &p.mutex_list[0] {
        Some(Mutex::Spin(m)) => {
            assert!(m.locked);
            assert_eq!(m.spinning, vec![2]);
        },
        _ => panic!("expected a spin mutex"),
    }
    assert_eq!(sys_mutex_unlock(&mut p, 0, 0), 0);
    assert_eq!(p.allocation_mutex[2][0], 1);
}

#[test]
fn crossed_requests_are_rejected_with_the_deadlock_code() {
    // Task 0 holds mutex 0, task 1 holds mutex 1; task 1 parks on mutex 0.
    // Task 0 then requesting mutex 1 closes the cycle: with detection on the
    // request comes back with the distinguished code and the recorded want is
    // rolled back.
    let mut p = three_task_process();
    assert_eq!(sys_mutex_create(&mut p, true), 0);
    assert_eq!(sys_mutex_create(&mut p, true), 1);
    assert_eq!(sys_mutex_lock(&mut p, 0, 0), 0);
    assert_eq!(sys_mutex_lock(&mut p, 1, 1), 0);
    assert_eq!(sys_mutex_lock(&mut p, 1, 0), 0);
    assert_eq!(sys_enable_deadlock_detect(&mut p, 1), 0);
    assert_eq!(sys_mutex_lock(&mut p, 0, 1), DEADLOCK_ERR);
    assert_eq!(p.need_mutex[0][1], 0);
    match &p.mutex_list[1] {
        Some(Mutex::Blocking(m)) => assert!(m.wait_queue.is_empty()),
        _ => panic!("expected a blocking mutex"),
    }
    // With detection off the same request parks normally until released.
    assert_eq!(sys_enable_deadlock_detect(&mut p, 0), 0);
    assert_eq!(sys_mutex_lock(&mut p, 0, 1), 0);
    assert_eq!(p.need_mutex[0][1], 1);
    match &p.mutex_list[1] {
        Some(Mutex::Blocking(m)) => assert_eq!(m.wait_queue, vec![0]),
        _ => panic!("expected a blocking mutex"),
    }
}

#[test]
fn relocking_a_held_mutex_is_rejected_when_detection_is_on() {
    let mut p = three_task_process();
    assert_eq!(sys_mutex_create(&mut p, true), 0);
    assert_eq!(sys_mutex_lock(&mut p, 0, 0), 0);
    assert_eq!(sys_enable_deadlock_detect(&mut p, 1), 0);
    assert_eq!(sys_mutex_lock(&mut p, 0, 0), DEADLOCK_ERR);
    assert_eq!(p.need_mutex[0][0], 0);
}

#[test]
fn a_free_mutex_is_granted_even_with_detection_on() {
    let mut p = three_task_process();
    assert_eq!(sys_mutex_create(&mut p, true), 0);
    assert_eq!(sys_enable_deadlock_detect(&mut p, 1), 0);
    assert_eq!(sys_mutex_lock(&mut p, 1, 0), 0);
    assert_eq!(p.allocation_mutex[1][0], 1);
}

#[test]
fn enable_deadlock_detect_rejects_other_arguments() {
    let mut p = three_task_process();
    assert_eq!(sys_enable_deadlock_detect(&mut p, 5), -1);
    assert!(!p.deadlock_detect);
    assert_eq!(sys_enable_deadlock_detect(&mut p, 1), 0);
    assert!(p.deadlock_detect);
    assert_eq!(sys_enable_deadlock_detect(&mut p, 0), 0);
    assert!(!p.deadlock_detect);
}

#[test]
fn semaphore_counts_and_queues() {
    let mut p = three_task_process();
    assert_eq!(sys_semaphore_create(&mut p, 1), 0);
    assert_eq!(p.available_sem[0], 1);
    assert_eq!(sys_semaphore_down(&mut p, 0, 0), 0);
    assert_eq!(p.available_sem[0], 0);
    assert_eq!(p.allocation_sem[0][0], 1);
    // No unit left: task 1 parks and its want stays outstanding.
    assert_eq!(sys_semaphore_down(&mut p, 1, 0), 0);
    assert_eq!(p.semaphore_list[0].as_ref().unwrap().wait_queue, vec![1]);
    assert_eq!(p.need_sem[1][0], 1);
    // Up hands the unit straight to the parked task.
    assert_eq!(sys_semaphore_up(&mut p, 0, 0), 0);
    assert!(p.semaphore_list[0].as_ref().unwrap().wait_queue.is_empty());
    assert_eq!(p.allocation_sem[0][0], 0);
    assert_eq!(p.allocation_sem[1][0], 1);
    assert_eq!(p.need_sem[1][0], 0);
    assert_eq!(p.available_sem[0], 0);
}

#[test]
fn semaphore_self_deadlock_is_rejected() {
    let mut p = three_task_process();
    assert_eq!(sys_semaphore_create(&mut p, 1), 0);
    assert_eq!(sys_semaphore_down(&mut p, 0, 0), 0);
    assert_eq!(sys_enable_deadlock_detect(&mut p, 1), 0);
    assert_eq!(sys_semaphore_down(&mut p, 0, 0), DEADLOCK_ERR);
    assert_eq!(p.need_sem[0][0], 0);
}

#[test]
fn condvar_wait_releases_the_mutex_and_signal_wakes() {
    let mut p = three_task_process();
    assert_eq!(sys_mutex_create(&mut p, true), 0);
    assert_eq!(sys_condvar_create(&mut p), 0);
    assert_eq!(sys_mutex_lock(&mut p, 0, 0), 0);
    assert_eq!(sys_condvar_wait(&mut p, 0, 0, 0), 0);
    // The mutex went free in the same step and task 0 is parked on the
    // condition variable.
    assert_eq!(p.available_mutex[0], 1);
    assert_eq!(p.allocation_mutex[0][0], 0);
    assert_eq!(p.condvar_list[0].as_ref().unwrap().wait_queue, vec![0]);
    assert_eq!(sys_condvar_signal(&mut p, 0), 0);
    assert!(p.condvar_list[0].as_ref().unwrap().wait_queue.is_empty());
    // Signalling with nobody waiting is a no-op.
    assert_eq!(sys_condvar_signal(&mut p, 0), 0);
}

#[test]
fn new_tasks_get_zeroed_rows_for_existing_resources() {
    let mut p = ProcessControlBlockInner::new();
    assert_eq!(sys_mutex_create(&mut p, true), 0);
    assert_eq!(sys_semaphore_create(&mut p, 3), 0);
    let tid = p.add_task();
    assert_eq!(tid, 1);
    assert_eq!(p.allocation_mutex[1][0], 0);
    assert_eq!(p.need_mutex[1][0], 0);
    assert_eq!(p.allocation_sem[1][0], 0);
    assert_eq!(p.need_sem[1][0], 0);
}

#[test]
fn a_request_for_a_held_mutex_alone_is_not_flagged() {
    // One held mutex and a second task asking for it is a safe state: the
    // holder has no outstanding need, so the safety algorithm retires it,
    // its unit comes back, and every task can finish. The request parks
    // normally even with detection on; only a state where every unfinished
    // task has an unmet need is rejected.
    let mut p = three_task_process();
    assert_eq!(sys_mutex_create(&mut p, true), 0);
    assert_eq!(sys_mutex_lock(&mut p, 0, 0), 0);
    assert_eq!(sys_enable_deadlock_detect(&mut p, 1), 0);
    assert_eq!(sys_mutex_lock(&mut p, 1, 0), 0);
    match &p.mutex_list[0] {
        Some(Mutex::Blocking(m)) => assert_eq!(m.wait_queue, vec![1]),
        _ => panic!("expected a blocking mutex"),
    }
    assert_eq!(p.need_mutex[1][0], 1);
}
