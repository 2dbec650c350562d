//! The syscall surface built on the core: region requests, pointer-writing
//! queries, and the scheduling stubs.
//!
//! Region syscalls collapse the structured errors of `map_area` /
//! `unmap_area` into the binary convention user programs see (0 on success,
//! -1 on any failure); the structured taxonomy stays available below this
//! boundary.  The queries that write through a caller-supplied pointer
//! translate it with a checked `UserSlot` first and fail instead of touching
//! memory when the buffer is not writable.

use vstd::prelude::*;
use vstd::arithmetic::div_mod::lemma_div_is_ordered;
use crate::config::{page_aligned, pages_of, MAX_SYSCALL_NUM};
use crate::encode::{
    counters_bytes, le_bytes_64, push_le_32, push_le_64, lemma_counters_bytes_len, status_byte,
    status_code,
};
use crate::frames::FrameAllocator;
use crate::page_table::{PageMapping, PageTable};
use crate::task::{TaskSnapshot, TaskStatus};
use crate::translate::{phys_addr_of, slot_ok, translate_slot, write_at, PERM_W};
use crate::vma::{
    map_area, mmap_check, mmap_post, munmap_check, munmap_post, range_frames, unmap_area,
};

verus! {

/// Two-field timestamp written by the time query: whole seconds and the
/// microsecond remainder.
#[derive(Clone, Copy, PartialEq, Eq, Structural, Debug)]
pub struct TimeVal {
    /// Whole seconds.
    pub sec: usize,
    /// Microseconds below one second.
    pub usec: usize,
}

/// Snapshot written by the task-info query.
#[derive(Clone, Copy)]
pub struct TaskInfo {
    /// Scheduling state of the task.
    pub status: TaskStatus,
    /// Invocation counters, by syscall identifier.
    pub syscall_times: [u32; MAX_SYSCALL_NUM],
    /// Milliseconds elapsed since the task was first scheduled.
    pub time: usize,
}

/// Outcome of a syscall before the boundary collapses it to an integer.
#[derive(Clone, Copy, PartialEq, Eq, Structural, Debug)]
pub enum SyscallResult {
    /// Completed; this value is returned to the task.
    Value(isize),
    /// The feature is deliberately disabled at this stage; reported to the
    /// task as a plain failure, but distinguishable here from one.
    NotSupported,
}

/// The integer a `SyscallResult` collapses to at the outermost boundary.
pub open spec fn return_code(r: SyscallResult) -> isize {
    match r {
        SyscallResult::Value(v) => v,
        SyscallResult::NotSupported => -1isize,
    }
}

/// Outermost boundary adapter: collapses a structured result into the binary
/// convention user programs see.
pub fn code_of(r: SyscallResult) -> (c: isize)
    ensures
        c == return_code(r),
{
    match r {
        SyscallResult::Value(v) => v,
        SyscallResult::NotSupported => -1,
    }
}

/// Chooses the exit path for the current task.  The returned code is handed
/// to the scheduler's exit routine, which tears the task down and never
/// returns control to it.
pub fn sys_exit(exit_code: i32) -> (r: i32)
    ensures
        r == exit_code,
{
    exit_code
}

/// The current task gives up the processor: the dispatcher suspends it and
/// runs the next one; once rescheduled, the task sees this success code.
pub fn sys_yield() -> (r: isize)
    ensures
        r == 0,
{
    0
}

/// Scheduling priorities are deliberately disabled at this stage: every
/// request is refused, whatever the value asked for.
pub fn sys_set_priority(_prio: isize) -> (r: SyscallResult)
    ensures
        r == SyscallResult::NotSupported,
{
    SyscallResult::NotSupported
}

/// Memory-map request for the current task: 0 exactly when `map_area`
/// accepts it, -1 on any failure, with no mutation on failure.
pub fn sys_mmap(
    pt: &mut PageTable,
    pool: &mut FrameAllocator,
    start: usize,
    len: usize,
    port: usize,
) -> (r: isize)
    requires
        old(pt).wf(),
        old(pool).wf(),
    ensures
        final(pt).wf(),
        final(pool).wf(),
        r == 0 || r == -1,
        (r == 0) <==> mmap_check(old(pt)@, old(pool)@.len() as int, start, len, port) is None,
        r == 0 ==> mmap_post(old(pt)@, final(pt)@, start, len, port) && old(pool).frames()
            == final(pool).frames().add(range_frames(final(pt)@, start, len))
            && final(pool)@.len() + pages_of(len) == old(pool)@.len(),
        r == -1 ==> final(pt)@ == old(pt)@ && final(pool)@ == old(pool)@,
        port & 0x7 == 0 ==> r == -1,
        port & !0x7 != 0 ==> r == -1,
        !page_aligned(start) ==> r == -1,
{
    match map_area(pt, pool, start, len, port) {
        Ok(()) => 0,
        Err(_) => -1,
    }
}

/// Memory-release request for the current task: 0 exactly when `unmap_area`
/// accepts it, -1 on any failure, with no mutation on failure.
pub fn sys_munmap(
    pt: &mut PageTable,
    pool: &mut FrameAllocator,
    start: usize,
    len: usize,
) -> (r: isize)
    requires
        old(pt).wf(),
        old(pool).wf(),
    ensures
        final(pt).wf(),
        final(pool).wf(),
        r == 0 || r == -1,
        (r == 0) <==> munmap_check(old(pt)@, start, len) is None,
        r == 0 ==> munmap_post(old(pt)@, final(pt)@, start, len)
            && final(pool).frames() == old(pool).frames().add(range_frames(old(pt)@, start, len))
            && final(pool)@.len() == old(pool)@.len() + pages_of(len),
        r == -1 ==> final(pt)@ == old(pt)@ && final(pool)@ == old(pool)@,
{
    match unmap_area(pt, pool, start, len) {
        Ok(()) => 0,
        Err(_) => -1,
    }
}

/// Size of the buffer the time query writes.
pub const TIME_VAL_BYTES: usize = 16;

/// Size of the buffer the task-info query writes.
pub const TASK_INFO_BYTES: usize = 1 + 4 * MAX_SYSCALL_NUM + 8;

/// The bytes the time query writes: seconds, then the remainder.
pub open spec fn time_val_bytes(tv: TimeVal) -> Seq<u8> {
    le_bytes_64(tv.sec as u64) + le_bytes_64(tv.usec as u64)
}

/// The bytes the task-info query writes: the status byte, the counters, the
/// elapsed milliseconds.
pub open spec fn task_info_bytes(info: TaskInfo) -> Seq<u8> {
    seq![status_code(info.status)] + counters_bytes(info.syscall_times@) + le_bytes_64(
        info.time as u64,
    )
}

/// The time query succeeds exactly when the caller's buffer is mapped
/// writable, lies within one page, and within physical memory.
pub open spec fn get_time_ok(pt: Map<usize, PageMapping>, mem_len: nat, ts: usize) -> bool {
    &&& slot_ok(pt, ts, TIME_VAL_BYTES, PERM_W)
    &&& phys_addr_of(pt, ts) + TIME_VAL_BYTES <= mem_len
}

/// The info snapshot the query reports for a task at time `us`.
pub open spec fn expected_task_info(task: TaskSnapshot, us: usize) -> TaskInfo {
    TaskInfo {
        status: task.task_status,
        syscall_times: task.task_syscall_times,
        time: (us / 1000 - task.task_start_time / 1000) as usize,
    }
}

/// The task-info query succeeds exactly when the caller's buffer is mapped
/// writable, lies within one page, and within physical memory.
pub open spec fn task_info_ok(pt: Map<usize, PageMapping>, mem_len: nat, ti: usize) -> bool {
    &&& slot_ok(pt, ti, TASK_INFO_BYTES, PERM_W)
    &&& phys_addr_of(pt, ti) + TASK_INFO_BYTES <= mem_len
}

/// Builds the 16 bytes of a `TimeVal`.
pub fn encode_time_val(tv: &TimeVal) -> (r: Vec<u8>)
    ensures
        r@ == time_val_bytes(*tv),
        r@.len() == TIME_VAL_BYTES,
{
    let mut out: Vec<u8> = Vec::new();
    push_le_64(&mut out, tv.sec as u64);
    push_le_64(&mut out, tv.usec as u64);
    proof {
        assert(out@ =~= time_val_bytes(*tv));
    }
    out
}

/// Builds the bytes of a `TaskInfo`.
#[verifier::loop_isolation(false)]
pub fn encode_task_info(info: &TaskInfo) -> (r: Vec<u8>)
    ensures
        r@ == task_info_bytes(*info),
        r@.len() == TASK_INFO_BYTES,
{
    let mut out: Vec<u8> = Vec::new();
    out.push(status_byte(info.status));
    proof {
        assert(info.syscall_times@.take(0) =~= Seq::<u32>::empty());
        assert(out@ =~= seq![status_code(info.status)] + counters_bytes(
            info.syscall_times@.take(0),
        ));
    }
    let mut i: usize = 0;
    while i < MAX_SYSCALL_NUM
        invariant
            0 <= i <= MAX_SYSCALL_NUM,
            out@ == seq![status_code(info.status)] + counters_bytes(
                info.syscall_times@.take(i as int),
            ),
        decreases MAX_SYSCALL_NUM - i,
    {
        push_le_32(&mut out, info.syscall_times[i]);
        proof {
            let s = info.syscall_times@;
            assert(s.take(i as int + 1).drop_last() =~= s.take(i as int));
            assert(out@ =~= seq![status_code(info.status)] + counters_bytes(
                s.take(i as int + 1),
            ));
        }
        i += 1;
    }
    proof {
        assert(info.syscall_times@.take(MAX_SYSCALL_NUM as int) =~= info.syscall_times@);
    }
    push_le_64(&mut out, info.time as u64);
    proof {
        lemma_counters_bytes_len(info.syscall_times@);
        assert(out@ =~= task_info_bytes(*info));
    }
    out
}

/// Time query: writes the sampled microsecond count `us`, split into seconds
/// and remainder, through the caller's buffer pointer `ts` — after checking
/// that the buffer really is writable in the caller's address space.  The time itself is
/// sampled by the clock driver and handed in.  `_tz` is a reserved zone
/// argument, accepted and ignored.
pub fn sys_get_time(
    pt: &PageTable,
    mem: &mut Vec<u8>,
    ts: usize,
    _tz: usize,
    us: usize,
) -> (r: isize)
    requires
        pt.wf(),
    ensures
        r == 0 || r == -1,
        (r == 0) <==> get_time_ok(pt@, old(mem)@.len(), ts),
        r == 0 ==> final(mem)@ == old(mem)@.subrange(0, phys_addr_of(pt@, ts)).add(
            time_val_bytes((TimeVal { sec: us / 1_000_000, usec: us % 1_000_000 })),
        ).add(old(mem)@.skip(phys_addr_of(pt@, ts) + TIME_VAL_BYTES)),
        r == -1 ==> final(mem)@ == old(mem)@,
{
    let tv = TimeVal { sec: us / 1_000_000, usec: us % 1_000_000 };
    let data = encode_time_val(&tv);
    match translate_slot(pt, ts, TIME_VAL_BYTES, PERM_W) {
        Some(slot) => {
            if write_at(mem, &slot, &data) {
                0
            } else {
                -1
            }
        },
        None => -1,
    }
}

/// Task-info query: writes the task's status, its syscall counters and the
/// milliseconds elapsed since it was first scheduled through the caller's
/// buffer pointer `ti`, after checking the buffer.  The snapshot and the
/// current microsecond count `us` are handed in by the dispatch layer; the
/// clock is monotonic, so `us` is no earlier than the task's start time.
pub fn sys_task_info(
    pt: &PageTable,
    mem: &mut Vec<u8>,
    ti: usize,
    task: &TaskSnapshot,
    us: usize,
) -> (r: isize)
    requires
        pt.wf(),
        task.task_start_time <= us,
    ensures
        r == 0 || r == -1,
        (r == 0) <==> task_info_ok(pt@, old(mem)@.len(), ti),
        r == 0 ==> final(mem)@ == old(mem)@.subrange(0, phys_addr_of(pt@, ti)).add(
            task_info_bytes(expected_task_info(*task, us)),
        ).add(old(mem)@.skip(phys_addr_of(pt@, ti) + TASK_INFO_BYTES)),
        r == -1 ==> final(mem)@ == old(mem)@,
{
    proof {
        lemma_div_is_ordered(task.task_start_time as int, us as int, 1000);
    }
    let elapsed_ms = us / 1000 - task.task_start_time / 1000;
    let info = TaskInfo {
        status: task.task_status,
        syscall_times: task.task_syscall_times,
        time: elapsed_ms,
    };
    let data = encode_task_info(&info);
    match translate_slot(pt, ti, TASK_INFO_BYTES, PERM_W) {
        Some(slot) => {
            if write_at(mem, &slot, &data) {
                0
            } else {
                -1
            }
        },
        None => -1,
    }
}

} // verus!
