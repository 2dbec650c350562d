//! Pointer translation and the syscalls that write through user pointers.

use os4::config::MAX_SYSCALL_NUM;
use os4::frames::FrameAllocator;
use os4::page_table::PageTable;
use os4::syscall::{
    code_of, sys_exit, sys_get_time, sys_mmap, sys_munmap, sys_set_priority, sys_task_info,
    sys_yield, SyscallResult, TASK_INFO_BYTES,
};
use os4::task::{TaskSnapshot, TaskStatus};
use os4::translate::{read_at, translate, translate_slot, write_at, PERM_R, PERM_W};

const PAGE: usize = 4096;

fn setup() -> (PageTable, FrameAllocator, Vec<u8>) {
    // three physical frames of memory, all free
    (PageTable::new(), FrameAllocator::new(vec![0, 1, 2]), vec![0u8; 3 * PAGE])
}

#[test]
fn write_then_read_back_one_byte() {
    let (mut pt, mut pool, mut mem) = setup();
    assert_eq!(sys_mmap(&mut pt, &mut pool, 0x10000, PAGE, 0b011), 0);
    let va = 0x10000 + 0x123;
    let wslot = translate_slot(&pt, va, 1, PERM_W).unwrap();
    assert!(write_at(&mut mem, &wslot, &vec![0xab]));
    let rslot = translate_slot(&pt, va, 1, PERM_R).unwrap();
    assert_eq!(read_at(&mem, &rslot).unwrap(), vec![0xab]);
    assert_eq!(sys_munmap(&mut pt, &mut pool, 0x10000, PAGE), 0);
    assert_eq!(sys_munmap(&mut pt, &mut pool, 0x10000, PAGE), -1);
}

#[test]
fn translate_keeps_the_page_offset() {
    let (mut pt, mut pool, _mem) = setup();
    assert_eq!(sys_mmap(&mut pt, &mut pool, 0x10000, PAGE, 0b011), 0);
    let ppn = pt.lookup(0x10).unwrap().ppn;
    assert_eq!(translate(&pt, 0x10000), Some(ppn * PAGE));
    assert_eq!(translate(&pt, 0x10abc), Some(ppn * PAGE + 0xabc));
    assert_eq!(translate(&pt, 0x20000), None);
}

#[test]
fn slot_requires_permission_and_one_page() {
    let (mut pt, mut pool, _mem) = setup();
    assert_eq!(sys_mmap(&mut pt, &mut pool, 0x10000, PAGE, 0b001), 0);
    // readable but not writable
    assert!(translate_slot(&pt, 0x10000, 8, PERM_R).is_some());
    assert!(translate_slot(&pt, 0x10000, 8, PERM_W).is_none());
    // would run off the end of the page
    assert!(translate_slot(&pt, 0x10000 + PAGE - 4, 8, PERM_R).is_none());
    // unmapped page
    assert!(translate_slot(&pt, 0x20000, 8, PERM_R).is_none());
}

#[test]
fn get_time_writes_at_the_translated_offset() {
    let (mut pt, mut pool, mut mem) = setup();
    assert_eq!(sys_mmap(&mut pt, &mut pool, 0x10000, PAGE, 0b011), 0);
    let ts = 0x10000 + 0x13;  // mid-page, not aligned
    let us: usize = 1_234_567;
    assert_eq!(sys_get_time(&pt, &mut mem, ts, 0, us), 0);
    let base = translate(&pt, ts).unwrap();
    // seconds, then the microsecond remainder, little endian
    for i in 0..8 {
        assert_eq!(mem[base + i], (((us / 1_000_000) as u64 >> (8 * i)) & 0xff) as u8);
        assert_eq!(mem[base + 8 + i], (((us % 1_000_000) as u64 >> (8 * i)) & 0xff) as u8);
    }
    assert_eq!(mem[base], 1);
    // bytes around the window are untouched
    assert_eq!(mem[base - 1], 0);
    assert_eq!(mem[base + 16], 0);
}

#[test]
fn get_time_refuses_bad_buffers() {
    let (mut pt, mut pool, mut mem) = setup();
    // read-only page: not writable through a translated pointer
    assert_eq!(sys_mmap(&mut pt, &mut pool, 0x10000, PAGE, 0b001), 0);
    assert_eq!(sys_get_time(&pt, &mut mem, 0x10000, 0, 55), -1);
    // unmapped pointer
    assert_eq!(sys_get_time(&pt, &mut mem, 0x20000, 0, 55), -1);
    // buffer would cross the page end
    assert_eq!(sys_mmap(&mut pt, &mut pool, 0x11000, PAGE, 0b010), 0);
    assert_eq!(sys_get_time(&pt, &mut mem, 0x11000 + PAGE - 8, 0, 55), -1);
    assert!(mem.iter().all(|&b| b == 0));
}

#[test]
fn task_info_writes_the_snapshot() {
    let (mut pt, mut pool, mut mem) = setup();
    assert_eq!(sys_mmap(&mut pt, &mut pool, 0x10000, PAGE, 0b011), 0);
    let mut times = [0u32; MAX_SYSCALL_NUM];
    times[0] = 7;
    times[3] = 100_000;
    let task = TaskSnapshot {
        task_status: TaskStatus::Running,
        task_syscall_times: times,
        task_start_time: 2_000,
    };
    let ti = 0x10000 + 0x20;
    let us: usize = 5_432_100;
    assert_eq!(sys_task_info(&pt, &mut mem, ti, &task, us), 0);
    let base = translate(&pt, ti).unwrap();
    // status byte
    assert_eq!(mem[base], 2);
    // counters, four little-endian bytes each
    assert_eq!(mem[base + 1], 7);
    for i in 0..4 {
        assert_eq!(mem[base + 1 + 4 * 3 + i], ((100_000u32 >> (8 * i)) & 0xff) as u8);
    }
    // elapsed milliseconds after all counters
    let time_off = base + 1 + 4 * MAX_SYSCALL_NUM;
    let expect_ms = (us / 1000 - 2_000 / 1000) as u64;
    for i in 0..8 {
        assert_eq!(mem[time_off + i], ((expect_ms >> (8 * i)) & 0xff) as u8);
    }
    assert_eq!(mem[base + TASK_INFO_BYTES], 0);
}

#[test]
fn task_info_refuses_unmapped_buffer() {
    let (pt, _pool, mut mem) = setup();
    let task = TaskSnapshot {
        task_status: TaskStatus::Ready,
        task_syscall_times: [0u32; MAX_SYSCALL_NUM],
        task_start_time: 0,
    };
    assert_eq!(sys_task_info(&pt, &mut mem, 0x10000, &task, 9), -1);
    assert!(mem.iter().all(|&b| b == 0));
}

#[test]
fn scheduling_stubs_keep_their_contracts() {
    assert_eq!(sys_yield(), 0);
    assert_eq!(sys_exit(7), 7);
    assert_eq!(sys_exit(-3), -3);
    let r = sys_set_priority(10);
    assert_eq!(r, SyscallResult::NotSupported);
    assert_eq!(code_of(r), -1);
    assert_eq!(code_of(sys_set_priority(-5)), -1);
    assert_eq!(code_of(SyscallResult::Value(0)), 0);
}
