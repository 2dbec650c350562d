//! Memory-mapping and pointer-translation core of a small teaching kernel.
//!
//! A task asks for anonymous, page-aligned virtual memory with explicit
//! per-page permissions (`sys_mmap` / `sys_munmap`), and the kernel reads or
//! writes bytes through pointers that are only meaningful in that task's
//! address space.  The per-task page table, the physical frame allocator and
//! physical memory itself are modelled as plain data, so every operation on
//! them is stated and proved here.

pub mod config;
pub mod frames;
pub mod page_table;
pub mod vma;
pub mod translate;
pub mod task;
pub mod encode;
pub mod syscall;
