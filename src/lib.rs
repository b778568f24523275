//! Task scheduling and per-task instrumentation for a small cooperative kernel.
pub mod config;
pub mod syscall;
pub mod task;
