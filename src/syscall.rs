//! Process-management syscalls: exit, yield, get_time and task_info.
//!
//! Each call first counts itself for the running task, then acts on the task
//! manager. The caller hands in the clock reading `now` (microseconds since
//! the kernel started) and performs the context switch to the task that the
//! manager's cursor names afterwards.
use crate::config::{MAX_SYSCALL_NUM, SYSCALL_EXIT, SYSCALL_GET_TIME, SYSCALL_TASK_INFO, SYSCALL_YIELD};
use crate::task::{
    is_next_ready, none_ready, parked, TaskManager, TaskManagerModel, TaskStatus,
    TcbModel,
};
use vstd::prelude::*;

verus! {

/// Seconds and microseconds since the kernel started.
#[derive(Debug, Clone, Copy, PartialEq, Eq, Structural)]
pub struct TimeVal {
    pub sec: usize,
    pub usec: usize,
}

/// A snapshot of the running task: its status, its syscall counts and the
/// wrapping milliseconds since it first ran.
#[derive(Clone, Copy)]
pub struct TaskInfo {
    pub status: TaskStatus,
    pub syscall_times: [u32; MAX_SYSCALL_NUM],
    pub time: usize,
}

/// Milliseconds of a microsecond count whose seconds are kept modulo 2^16.
pub open spec fn wrapped_ms(time: int) -> int {
    ((time / 1_000_000) % 65536) * 1000 + (time % 1_000_000) / 1000
}

/// Microseconds from `first` to `now`; zero if the task never ran or the
/// clock reads earlier.
pub open spec fn elapsed_us(first: Option<usize>, now: usize) -> int {
    match first {
        Some(t) => if now >= t { now - t } else { 0 },
        None => 0,
    }
}

/// Converts a microsecond count to milliseconds, keeping only the low 16 bits
/// of the seconds: the value wraps about every 18 hours instead of growing.
pub fn cal_time(time: usize) -> (r: usize)
    ensures
        r == wrapped_ms(time as int),
        r < 65536 * 1000,
{
    let sec = time / 1_000_000;
    let usec = time % 1_000_000;
    assert(sec & 0xffff == sec % 65536) by (bit_vector);
    ((sec & 0xffff) * 1000 + usec / 1000) as usize
}

/// Wrapping milliseconds that a task has run since it was first scheduled.
pub fn elapsed_ms(first: Option<usize>, now: usize) -> (r: usize)
    ensures
        r == wrapped_ms(elapsed_us(first, now)),
{
    match first {
        Some(t) => if now >= t { cal_time(now - t) } else { cal_time(0) },
        None => cal_time(0),
    }
}

/// The running task exits and the processor goes to the next ready task in
/// round-robin order. The exit code is only for the caller's log. `None` means that no task is left: the
/// kernel halts.
pub fn sys_exit(tm: &mut TaskManager, _exit_code: i32, now: usize) -> (r: Option<usize>)
    requires
        old(tm).wf(),
        old(tm)@.has_running(),
    ensures
        final(tm).wf(),
        ({
            let s = old(tm)@.recorded(SYSCALL_EXIT as int);
            let c = s.current;
            let e = TaskManagerModel {
                tasks: s.tasks.update(c, TcbModel { status: TaskStatus::Exited, ..s.tasks[c] }),
                current: c,
            };
            match r {
                Some(j) => is_next_ready(e.tasks, c, j as int) && final(tm)@ == e.switch_to(j as int, now),
                None => none_ready(e.tasks) && final(tm)@ == e,
            }
        }),
{
    tm.record_syscall(SYSCALL_EXIT);
    tm.exit_current_and_run_next(now)
}

/// The running task gives up the processor; it stays ready and runs again
/// when its turn comes. Returns 0.
pub fn sys_yield(tm: &mut TaskManager, now: usize) -> (r: isize)
    requires
        old(tm).wf(),
        old(tm)@.has_running(),
    ensures
        r == 0,
        final(tm).wf(),
        ({
            let s = old(tm)@.recorded(SYSCALL_YIELD as int);
            &&& is_next_ready(parked(s.tasks, s.current), s.current, final(tm)@.current)
            &&& final(tm)@ == s.switch_to(final(tm)@.current, now)
        }),
{
    tm.record_syscall(SYSCALL_YIELD);
    tm.suspend_current_and_run_next(now);
    0
}

/// Writes the time `now` (microseconds since the kernel started) into `ts` as
/// seconds and microseconds. Returns 0.
pub fn sys_get_time(tm: &mut TaskManager, ts: &mut TimeVal, _tz: usize, now: usize) -> (r: isize)
    requires
        old(tm).wf(),
    ensures
        r == 0,
        final(tm).wf(),
        final(tm)@ == old(tm)@.recorded(SYSCALL_GET_TIME as int),
        final(ts).sec == now / 1_000_000,
        final(ts).usec == now % 1_000_000,
{
    tm.record_syscall(SYSCALL_GET_TIME);
    *ts = TimeVal { sec: now / 1_000_000, usec: now % 1_000_000 };
    0
}

/// Writes a snapshot of the running task into `ti`: its status, its syscall
/// counts (this call already counted) and the wrapping milliseconds since it
/// first ran. Returns 0.
pub fn sys_task_info(tm: &mut TaskManager, ti: &mut TaskInfo, now: usize) -> (r: isize)
    requires
        old(tm).wf(),
        old(tm)@.has_running(),
    ensures
        r == 0,
        final(tm).wf(),
        final(tm)@ == old(tm)@.recorded(SYSCALL_TASK_INFO as int),
        ({
            let t = final(tm)@.tasks[final(tm)@.current];
            &&& final(ti).status == t.status
            &&& final(ti).syscall_times@ == t.syscall_times
            &&& final(ti).time == wrapped_ms(elapsed_us(t.first_scheduled_time, now))
        }),
{
    tm.record_syscall(SYSCALL_TASK_INFO);
    *ti = TaskInfo {
        status: tm.current_status(),
        syscall_times: tm.current_syscall_times(),
        time: elapsed_ms(tm.current_start_time(), now),
    };
    0
}

} // verus!
