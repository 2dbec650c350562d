//! Region-management behaviour: mmap/munmap validation, rounding, round
//! trips, conflicts, and frame accounting.

use os4::frames::FrameAllocator;
use os4::page_table::{PageMapping, PageTable};
use os4::syscall::{sys_mmap, sys_munmap};
use os4::vma::{map_area, unmap_area, MmapError, MunmapError};

fn pool3() -> FrameAllocator {
    FrameAllocator::new(vec![0, 1, 2])
}

#[test]
fn mmap_zero_perm_always_fails() {
    for (start, len) in [(0usize, 0usize), (0x10000, 4096), (0x2000, 1), (0x5000, 123456)] {
        let mut pt = PageTable::new();
        let mut pool = pool3();
        assert_eq!(sys_mmap(&mut pt, &mut pool, start, len, 0), -1);
        assert_eq!(pool.len(), 3);
        assert_eq!(pt.mapped_pages(), 0);
    }
}

#[test]
fn mmap_high_perm_bits_fail() {
    for port in [0x8usize, 0x9, 0xf, 0x10, 0x100, usize::MAX] {
        let mut pt = PageTable::new();
        let mut pool = pool3();
        assert_eq!(sys_mmap(&mut pt, &mut pool, 0x10000, 4096, port), -1);
        assert_eq!(pool.len(), 3);
        assert_eq!(pt.mapped_pages(), 0);
    }
}

#[test]
fn mmap_misaligned_consumes_no_frame() {
    let mut pt = PageTable::new();
    let mut pool = pool3();
    assert_eq!(sys_mmap(&mut pt, &mut pool, 0x10001, 4096, 0b001), -1);
    assert_eq!(pool.len(), 3);
    assert_eq!(pt.mapped_pages(), 0);
}

#[test]
fn mmap_munmap_round_trip_restores_state() {
    let mut pt = PageTable::new();
    let mut pool = pool3();
    assert_eq!(sys_mmap(&mut pt, &mut pool, 0x10000, 4096, 0b011), 0);
    assert_eq!(pool.len(), 2);
    assert!(pt.lookup(0x10000 / 4096).is_some());
    assert_eq!(sys_munmap(&mut pt, &mut pool, 0x10000, 4096), 0);
    assert_eq!(pool.len(), 3);
    assert!(pt.lookup(0x10000 / 4096).is_none());
    assert_eq!(pt.mapped_pages(), 0);
    // the same frames are free again
    let mut frames = Vec::new();
    while let Some(f) = pool.allocate() {
        frames.push(f);
    }
    frames.sort();
    assert_eq!(frames, vec![0, 1, 2]);
}

#[test]
fn two_disjoint_mmaps_then_overlap_fails() {
    let mut pt = PageTable::new();
    let mut pool = pool3();
    assert_eq!(sys_mmap(&mut pt, &mut pool, 0x10000, 4096, 0b011), 0);
    assert_eq!(sys_mmap(&mut pt, &mut pool, 0x12000, 4096, 0b001), 0);
    assert_eq!(pool.len(), 1);
    // overlaps the first region
    assert_eq!(sys_mmap(&mut pt, &mut pool, 0x10000, 4096, 0b001), -1);
    // spans into the second region
    assert_eq!(sys_mmap(&mut pt, &mut pool, 0x11000, 8192, 0b001), -1);
    // no side effects of the failures
    assert_eq!(pool.len(), 1);
    assert_eq!(pt.mapped_pages(), 2);
    assert!(pt.lookup(0x10).is_some());
    assert!(pt.lookup(0x12).is_some());
}

#[test]
fn munmap_unmapped_range_fails_and_keeps_mappings() {
    let mut pt = PageTable::new();
    let mut pool = pool3();
    assert_eq!(sys_munmap(&mut pt, &mut pool, 0x10000, 4096), -1);
    assert_eq!(sys_mmap(&mut pt, &mut pool, 0x10000, 4096, 0b011), 0);
    // range reaches one page beyond the mapped region
    assert_eq!(sys_munmap(&mut pt, &mut pool, 0x10000, 8192), -1);
    assert_eq!(pool.len(), 2);
    assert_eq!(pt.lookup(0x10).map(|pm| pm.perm), Some(0b011));
}

#[test]
fn mmap_out_of_frames_fails_without_partial_work() {
    let mut pt = PageTable::new();
    let mut pool = FrameAllocator::new(vec![7]);
    assert_eq!(sys_mmap(&mut pt, &mut pool, 0x10000, 8192, 0b011), -1);
    assert_eq!(pool.len(), 1);
    assert_eq!(pt.mapped_pages(), 0);
    // a one-page request still fits
    assert_eq!(sys_mmap(&mut pt, &mut pool, 0x10000, 4096, 0b011), 0);
    assert_eq!(pool.len(), 0);
}

#[test]
fn length_rounds_up_to_whole_pages() {
    let mut pt = PageTable::new();
    let mut pool = pool3();
    assert_eq!(sys_mmap(&mut pt, &mut pool, 0x10000, 1, 0b001), 0);
    assert_eq!(pt.mapped_pages(), 1);
    assert_eq!(sys_munmap(&mut pt, &mut pool, 0x10000, 1), 0);
    assert_eq!(sys_mmap(&mut pt, &mut pool, 0x10000, 4097, 0b001), 0);
    assert_eq!(pt.mapped_pages(), 2);
    assert!(pt.lookup(0x10).is_some());
    assert!(pt.lookup(0x11).is_some());
}

#[test]
fn map_area_reports_each_error() {
    let mut pt = PageTable::new();
    let mut pool = FrameAllocator::new(vec![4]);
    assert_eq!(
        map_area(&mut pt, &mut pool, 0x10001, 4096, 0b001),
        Err(MmapError::MisalignedAddress)
    );
    assert_eq!(
        map_area(&mut pt, &mut pool, 0x10000, 4096, 0b1001),
        Err(MmapError::InvalidPermission)
    );
    assert_eq!(
        map_area(&mut pt, &mut pool, 0x10000, 4096, 0),
        Err(MmapError::InvalidPermission)
    );
    assert_eq!(
        map_area(&mut pt, &mut pool, 0x10000, 8192, 0b001),
        Err(MmapError::OutOfMemory)
    );
    assert_eq!(map_area(&mut pt, &mut pool, 0x10000, 4096, 0b001), Ok(()));
    assert_eq!(
        map_area(&mut pt, &mut pool, 0x10000, 4096, 0b001),
        Err(MmapError::RegionConflict)
    );
}

#[test]
fn unmap_area_reports_each_error() {
    let mut pt = PageTable::new();
    let mut pool = pool3();
    assert_eq!(
        unmap_area(&mut pt, &mut pool, 0x10001, 4096),
        Err(MunmapError::MisalignedAddress)
    );
    assert_eq!(
        unmap_area(&mut pt, &mut pool, 0x10000, 4096),
        Err(MunmapError::RegionNotMapped)
    );
    assert_eq!(map_area(&mut pt, &mut pool, 0x10000, 4096, 0b011), Ok(()));
    assert_eq!(unmap_area(&mut pt, &mut pool, 0x10000, 4096), Ok(()));
}

#[test]
fn munmap_can_shrink_a_region() {
    // the rounded-up range must merely be fully mapped, not a whole region
    let mut pt = PageTable::new();
    let mut pool = pool3();
    assert_eq!(sys_mmap(&mut pt, &mut pool, 0x10000, 3 * 4096, 0b001), 0);
    assert_eq!(sys_munmap(&mut pt, &mut pool, 0x11000, 4096), 0);
    assert_eq!(pt.mapped_pages(), 2);
    assert!(pt.lookup(0x10).is_some());
    assert!(pt.lookup(0x11).is_none());
    assert!(pt.lookup(0x12).is_some());
    assert_eq!(pool.len(), 1);
}

#[test]
fn allocator_is_a_stack_of_frames() {
    let mut pool = FrameAllocator::new(vec![5, 6]);
    assert_eq!(pool.len(), 2);
    assert_eq!(pool.allocate(), Some(6));
    assert_eq!(pool.allocate(), Some(5));
    assert_eq!(pool.allocate(), None);
    pool.release(9);
    assert_eq!(pool.allocate(), Some(9));
    assert_eq!(pool.allocate(), None);
}

#[test]
fn page_table_maps_and_unmaps_single_pages() {
    let mut pt = PageTable::new();
    pt.map_page(0x10, 2, 0b011);
    assert_eq!(pt.lookup(0x10), Some(PageMapping { ppn: 2, perm: 0b011 }));
    assert_eq!(pt.lookup(0x11), None);
    let pm = pt.unmap_page(0x10);
    assert_eq!(pm, PageMapping { ppn: 2, perm: 0b011 });
    assert_eq!(pt.lookup(0x10), None);
}
