use vstd::prelude::*;

verus! {

/// Number of task slots the kernel manages.
pub const MAX_APP_NUM: usize = 16;

/// Size of each task's syscall-count table; valid syscall ids are below this.
pub const MAX_SYSCALL_NUM: usize = 500;

/// Syscall id of `exit`.
pub const SYSCALL_EXIT: usize = 93;

/// Syscall id of `yield`.
pub const SYSCALL_YIELD: usize = 124;

/// Syscall id of `get_time`.
pub const SYSCALL_GET_TIME: usize = 169;

/// Syscall id of `task_info`.
pub const SYSCALL_TASK_INFO: usize = 410;

} // verus!
