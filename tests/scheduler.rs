use task_core::config::SYSCALL_YIELD;
use task_core::syscall::{sys_exit, sys_yield};
use task_core::task::{TaskManager, TaskStatus};

#[test]
fn yield_hands_over_to_next_task() {
    let mut tm = TaskManager::new(2);
    assert_eq!(tm.schedule_next(0), Some(0));
    assert_eq!(tm.task(0).task_status, TaskStatus::Running);
    assert_eq!(tm.task(1).task_status, TaskStatus::Ready);
    assert_eq!(sys_yield(&mut tm, 10), 0);
    assert_eq!(tm.current(), 1);
    assert_eq!(tm.task(0).task_status, TaskStatus::Ready);
    assert_eq!(tm.task(1).task_status, TaskStatus::Running);
}

#[test]
fn yielding_tasks_run_in_round_robin_order() {
    let mut tm = TaskManager::new(3);
    assert_eq!(tm.schedule_next(0), Some(0));
    let mut order = Vec::new();
    for step in 0..6 {
        sys_yield(&mut tm, step);
        order.push(tm.current());
    }
    assert_eq!(order, vec![1, 2, 0, 1, 2, 0]);
}

#[test]
fn single_task_yield_reschedules_itself() {
    let mut tm = TaskManager::new(1);
    assert_eq!(tm.schedule_next(5), Some(0));
    assert_eq!(tm.suspend_current_and_run_next(6), 0);
    assert_eq!(tm.task(0).task_status, TaskStatus::Running);
}

#[test]
fn first_schedule_time_is_set_once() {
    let mut tm = TaskManager::new(2);
    assert_eq!(tm.task(0).first_scheduled_time, None);
    tm.schedule_next(100);
    assert_eq!(tm.task(0).first_scheduled_time, Some(100));
    assert_eq!(tm.task(1).first_scheduled_time, None);
    sys_yield(&mut tm, 200);
    assert_eq!(tm.task(1).first_scheduled_time, Some(200));
    sys_yield(&mut tm, 300);
    sys_yield(&mut tm, 400);
    assert_eq!(tm.task(0).first_scheduled_time, Some(100));
    assert_eq!(tm.task(1).first_scheduled_time, Some(200));
}

#[test]
fn counters_grow_by_one_per_call() {
    let mut tm = TaskManager::new(1);
    tm.schedule_next(0);
    for k in 1..=5u32 {
        tm.record_syscall(SYSCALL_YIELD);
        assert_eq!(tm.task(0).syscall_times[SYSCALL_YIELD], k);
    }
    assert_eq!(tm.task(0).syscall_times[SYSCALL_YIELD + 1], 0);
}

#[test]
fn unknown_syscall_id_is_ignored() {
    let mut tm = TaskManager::new(1);
    tm.schedule_next(0);
    tm.record_syscall(100_000);
    assert!(tm.task(0).syscall_times.iter().all(|c| *c == 0));
}

#[test]
fn calls_are_not_counted_while_no_task_runs() {
    let mut tm = TaskManager::new(1);
    tm.record_syscall(SYSCALL_YIELD);
    assert_eq!(tm.task(0).syscall_times[SYSCALL_YIELD], 0);
}

#[test]
fn exited_task_is_skipped_and_frozen() {
    let mut tm = TaskManager::new(3);
    tm.schedule_next(0);
    sys_yield(&mut tm, 1);
    assert_eq!(tm.current(), 1);
    assert_eq!(sys_exit(&mut tm, 0, 2), Some(2));
    let before = tm.task(1);
    assert_eq!(before.task_status, TaskStatus::Exited);
    let mut seen = Vec::new();
    for step in 3..9 {
        sys_yield(&mut tm, step);
        seen.push(tm.current());
    }
    assert_eq!(seen, vec![0, 2, 0, 2, 0, 2]);
    let after = tm.task(1);
    assert_eq!(after.task_status, TaskStatus::Exited);
    assert_eq!(after.syscall_times, before.syscall_times);
    assert_eq!(after.first_scheduled_time, before.first_scheduled_time);
}

#[test]
fn all_tasks_exited_halts() {
    let mut tm = TaskManager::new(2);
    assert_eq!(tm.schedule_next(0), Some(0));
    assert_eq!(sys_exit(&mut tm, 0, 1), Some(1));
    assert_eq!(sys_exit(&mut tm, -1, 2), None);
    assert_eq!(tm.task(0).task_status, TaskStatus::Exited);
    assert_eq!(tm.task(1).task_status, TaskStatus::Exited);
    assert_eq!(tm.schedule_next(3), None);
}

#[test]
fn empty_manager_has_nothing_to_run() {
    let mut tm = TaskManager::new(0);
    assert_eq!(tm.num_tasks(), 0);
    assert_eq!(tm.find_next_task(), None);
    assert_eq!(tm.schedule_next(0), None);
}
