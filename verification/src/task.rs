//! Read-only view of the scheduler's per-task state.
//!
//! The scheduler owns task control blocks; the syscalls here only read a
//! snapshot of the fields they report, handed in by the dispatch layer, so
//! the core stays independent of any ambient "current task" state.

use vstd::prelude::*;
use crate::config::MAX_SYSCALL_NUM;

verus! {

/// Scheduling state of a task, owned by the scheduler and read-only here.
#[derive(Clone, Copy, PartialEq, Eq, Structural, Debug)]
pub enum TaskStatus {
    /// Not yet initialised.
    UnInit,
    /// Runnable, waiting for the processor.
    Ready,
    /// Currently executing.
    Running,
    /// Finished; waiting to be reaped.
    Exited,
}

/// Snapshot of the fields of a task that the info syscall reports.
#[derive(Clone, Copy)]
pub struct TaskSnapshot {
    /// Scheduling state at the time of the snapshot.
    pub task_status: TaskStatus,
    /// How often the task has invoked each syscall, by syscall identifier.
    pub task_syscall_times: [u32; MAX_SYSCALL_NUM],
    /// Time the task was first scheduled, in microseconds.
    pub task_start_time: usize,
}

} // verus!
