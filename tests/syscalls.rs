use task_core::config::{MAX_SYSCALL_NUM, SYSCALL_GET_TIME, SYSCALL_TASK_INFO, SYSCALL_YIELD};
use task_core::syscall::{cal_time, elapsed_ms, sys_get_time, sys_task_info, sys_yield, TaskInfo, TimeVal};
use task_core::task::{TaskManager, TaskStatus};

fn blank_info() -> TaskInfo {
    TaskInfo { status: TaskStatus::UnInit, syscall_times: [0; MAX_SYSCALL_NUM], time: 0 }
}

#[test]
fn get_time_splits_seconds_and_microseconds() {
    let mut tm = TaskManager::new(1);
    tm.schedule_next(0);
    let mut ts = TimeVal { sec: 0, usec: 0 };
    assert_eq!(sys_get_time(&mut tm, &mut ts, 0, 2_500_000), 0);
    assert_eq!(ts, TimeVal { sec: 2, usec: 500_000 });
    assert_eq!(tm.task(0).syscall_times[SYSCALL_GET_TIME], 1);
}

#[test]
fn task_info_counts_itself() {
    let mut tm = TaskManager::new(1);
    tm.schedule_next(0);
    for step in 1..=3 {
        sys_yield(&mut tm, step);
    }
    let mut ts = TimeVal { sec: 0, usec: 0 };
    sys_get_time(&mut tm, &mut ts, 0, 4);
    let mut ti = blank_info();
    assert_eq!(sys_task_info(&mut tm, &mut ti, 5), 0);
    assert_eq!(ti.syscall_times[SYSCALL_YIELD], 3);
    assert_eq!(ti.syscall_times[SYSCALL_GET_TIME], 1);
    assert_eq!(ti.syscall_times[SYSCALL_TASK_INFO], 1);
    assert_eq!(ti.status, TaskStatus::Running);
}

#[test]
fn task_info_reports_time_since_first_schedule() {
    let mut tm = TaskManager::new(1);
    tm.schedule_next(1_000_000);
    let mut ti = blank_info();
    sys_task_info(&mut tm, &mut ti, 3_500_000);
    assert_eq!(ti.time, 2_500);
}

#[test]
fn cal_time_keeps_milliseconds() {
    assert_eq!(cal_time(0), 0);
    assert_eq!(cal_time(2_500_000), 2_500);
    assert_eq!(cal_time(999), 0);
    assert_eq!(cal_time(1_999_999), 1_999);
}

#[test]
fn cal_time_wraps_seconds_at_sixteen_bits() {
    assert_eq!(cal_time(65_536_000_000 + 1_234_567), 1_234);
    assert_eq!(cal_time(65_535_999_999), 65_535_999);
}

#[test]
fn elapsed_ms_cases() {
    assert_eq!(elapsed_ms(None, 5_000_000), 0);
    assert_eq!(elapsed_ms(Some(2_000_000), 1_000_000), 0);
    assert_eq!(elapsed_ms(Some(1_000), 3_001_000), 3_000);
}
