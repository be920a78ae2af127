# swtc

A Verus-verified core of a small RISC-V teaching kernel, of its test staging
and test runner, and of a few kernel modules (signals, file-backed mappings, a
page cache, time conversions, the vDSO time calls).

Layout:

- `src/` is the verified library. Each module states its behaviour in
  `requires`/`ensures` contracts over spec models (`Seq`, `Map`, `Set`, integers),
  and the laws that relate several functions are public proof functions named
  `lemma_*`.
  - `address`, `frame_allocator`, `page_table`, `memory_set`, `loader`, `task`,
    `user`, `fs`, `calls`, `syscall`: the kernel's memory, tasks, files and
    system calls.
  - `ext4`, `ext4_driver`, `script`: a read-only EXT4 reader and the test-script
    walk of the kernel's block driver.
  - `queue`, `runner`, `staging`, `stage`, `groups`, `text`, `utf8`, `bytes`: the
    test queue format, the user-space runner's decisions, the staging of test
    groups from the disk and the order in which the groups are tried (glibc, then
    musl, then the root; basic, busybox, lua, libc-bench, libc-test, LTP, lmbench).
  - `signal`, `vma`, `page_cache`, `time`, `time_value`, `vdso`, `ctypes`: kernel
    modules for signals, file-backed mappings, the page cache over an `lru` map,
    timers and clocks, and the records shared with user space.
- `tests/` runs the library on concrete values.
- `app/` is a host program around the library: it reads a disk image, stages
  the test groups (reading ELF interpreters with `xmas-elf`) and walks the
  resulting test queue.
