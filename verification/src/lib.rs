//! A verified core for a small RISC-V teaching kernel and its test harness:
//! address arithmetic, frame allocation, Sv39 page tables, ELF header
//! inspection, a read-only EXT4 reader, test-script parsing and test staging,
//! a file descriptor table, system call decoding, signal bookkeeping,
//! file-backed memory mappings, a page cache over an LRU map, time
//! conversions and the vDSO's time calls.
use vstd::prelude::*;

pub mod address;
pub mod bytes;
pub mod calls;
pub mod ctypes;
pub mod ext4;
pub mod ext4_driver;
pub mod frame_allocator;
pub mod fs;
pub mod groups;
pub mod loader;
pub mod memory_set;
pub mod page_cache;
pub mod page_table;
pub mod queue;
pub mod runner;
pub mod script;
pub mod signal;
pub mod stage;
pub mod syscall;
pub mod task;
pub mod staging;
pub mod text;
pub mod time;
pub mod time_value;
pub mod user;
pub mod utf8;
pub mod vdso;
pub mod vma;

verus! {


} // verus!
