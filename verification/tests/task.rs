use swtc::calls::{brk, close, console_putchar, getpid, open, read, set_next_trigger, sys_exit, sys_test, sys_yield,
    SyscallRequest, SbiCall};
use swtc::ctypes::{sys_prlimit64, sys_sched_getaffinity, sys_sched_setaffinity, RLimit, metadata_to_kstat, Kstat, Metadata, flags_to_options, itimerspec, MappingFlags, MmapProt, MAPPING_EXECUTE, MAPPING_READ, MAPPING_USER,
    MAPPING_WRITE, PROT_EXEC, PROT_READ, PROT_WRITE, O_APPEND, O_CREAT, O_EXCL, O_PATH, O_TRUNC, page_index, page_offset, sys_sched_getparam, sys_sched_getscheduler, sys_sched_setscheduler,
    CachePage, Madv, PageState, UserPtr};
use swtc::time::SyscallErr;
use swtc::time_value::TimeValue;
use swtc::task::{relocate_stack_registers, task_pid, TaskControlBlock, TaskStatus, TaskTable, TrapContext,
    MMAP_BASE, NO_PARENT};

#[test]
fn fresh_table_has_free_slots_and_nothing_ready() {
    let t = TaskTable::new();
    assert_eq!(t.find_free_task(), Some(0));
    assert_eq!(t.find_next_ready(), None);
    assert_eq!(t.current_pid(), 1);
    assert_eq!(t.current_ppid(), 1);
}

#[test]
fn zero_task_defaults() {
    let z = TaskControlBlock::zero_init();
    assert_eq!(z.status, TaskStatus::Exited);
    assert_eq!(z.mmap_end, MMAP_BASE);
    assert_eq!(z.parent, NO_PARENT);
    assert!(z.waited);
    assert_eq!(task_pid(1), 2);
}

#[test]
fn round_robin_picks_the_other_ready_task() {
    let mut t = TaskTable::new();
    let mut a = TaskControlBlock::zero_init();
    a.status = TaskStatus::Ready;
    t.install(1, a);
    assert_eq!(t.find_next_ready(), Some(1));
    let (cx, _) = t.start_task(1);
    assert_eq!(cx, 0);
    assert_eq!(t.current_task_id(), 1);
    assert_eq!(t.find_next_ready(), None);
    t.mark_current_ready(0x8000);
    assert_eq!(t.find_next_ready(), Some(1));
}

#[test]
fn exited_child_is_reaped_once() {
    let mut t = TaskTable::new();
    let mut child = TaskControlBlock::zero_init();
    child.parent = 0;
    child.status = TaskStatus::Running;
    child.waited = false;
    t.install(1, child);
    assert!(t.has_waitable_child(usize::MAX));
    assert_eq!(t.wait_child(usize::MAX), (-1, None));
    t.start_task(1);
    t.mark_current_exited(3);
    t.start_task(0);
    assert!(!t.has_waitable_child(usize::MAX));
    assert_eq!(t.wait_child(2), (2, Some(3 << 8)));
    assert_eq!(t.wait_child(2), (-1, None));
}

#[test]
fn negative_exit_codes_report_zero() {
    let mut t = TaskTable::new();
    let mut child = TaskControlBlock::zero_init();
    child.parent = 0;
    child.waited = false;
    child.exit_code = -5;
    t.install(1, child);
    assert_eq!(t.wait_child(usize::MAX), (2, Some(0)));
}

#[test]
fn mmap_regions_are_page_aligned_and_disjoint() {
    let mut t = TaskTable::new();
    let a = t.alloc_current_mmap(100);
    let b = t.alloc_current_mmap(5000);
    let c = t.alloc_current_mmap(1);
    assert_eq!(a, MMAP_BASE);
    assert_eq!(b, MMAP_BASE + 4096);
    assert_eq!(c, MMAP_BASE + 4096 * 3);
}

#[test]
fn brk_query_and_range_checks() {
    let mut t = TaskTable::new();
    let mut frames = swtc::frame_allocator::StackFrameAllocator::new();
    let mut tcb = TaskControlBlock::zero_init();
    tcb.heap_bottom = 0x20000;
    tcb.heap_end = 0x21000;
    t.install(0, tcb);
    assert_eq!(t.set_current_brk(0, &mut frames), (0x21000, false));
    assert_eq!(t.set_current_brk(0x10000, &mut frames), (0x21000, false));
    assert_eq!(t.set_current_brk(0x20800, &mut frames), (0x20800, false));
    assert_eq!(t.current_brk(), 0x20800);
    assert_eq!(t.set_current_brk(0x30000, &mut frames), (0x20800, false));
}

#[test]
fn stack_registers_move_to_the_child_stack() {
    let mut x = [0usize; 32];
    x[2] = 0x1100;
    x[8] = 0x1ff0;
    x[9] = 0x5000;
    relocate_stack_registers(&mut x, 0x1000, 0x2000, 0x9000);
    assert_eq!(x[2], 0x9100);
    assert_eq!(x[8], 0x9ff0);
    assert_eq!(x[9], 0x5000);
}

#[test]
fn app_context_starts_in_user_mode() {
    let cx = TrapContext::app_init_context(0x1000, 0x8000, 0x1_0000_0120);
    assert_eq!(cx.sepc, 0x1000);
    assert_eq!(cx.x[2], 0x8000);
    assert_eq!(cx.sstatus, 0x1_0000_0020);
    assert_eq!(cx.x[10], 0);
}

#[test]
fn system_call_registers() {
    assert_eq!(sys_test(100), SyscallRequest { id: 0, a0: 100, a1: 0, a2: 0, a3: 0 });
    assert_eq!(sys_yield().id, 2);
    assert_eq!(open(0x500, 0), SyscallRequest { id: 56, a0: (-100isize) as usize, a1: 0x500, a2: 0, a3: 0 });
    assert_eq!(close(3).a0, 3);
    assert_eq!(read(0, 0x600, 8), SyscallRequest { id: 63, a0: 0, a1: 0x600, a2: 8, a3: 0 });
    assert_eq!(swtc::calls::write(1, 0x700, 5).id, 64);
    assert_eq!(brk(0).id, 214);
    assert_eq!(getpid().id, 172);
    assert_eq!(sys_exit(-1).a0, usize::MAX);
}

#[test]
fn sbi_calls() {
    assert_eq!(console_putchar(65), SbiCall { eid: 1, fid: 0, a0: 65, a1: 0, a2: 0 });
    assert_eq!(set_next_trigger(1000).a0, 5_001_000);
    assert_eq!(set_next_trigger(1000).eid, 0x54494D45);
}

#[test]
fn plain_records() {
    let mut p = CachePage::new(0x8000);
    assert!(p.is_up_to_date());
    p.mark_dirty();
    assert!(p.is_dirty());
    p.mark_to_write();
    assert!(p.is_to_write());
    p.mark_write_back();
    assert_eq!(p.state, PageState::WriteBack);
    assert_eq!(page_index(8193), 2);
    assert_eq!(page_offset(8193), 1);
    assert_eq!(Madv::from_repr(4), Some(Madv::MADV_DONTNEED));
    assert_eq!(Madv::MADV_HWPOISON.value(), 100);
    assert_eq!(Madv::from_repr(7), None);
    assert!(UserPtr::null().is_null());
    assert_eq!(UserPtr::from_addr(0x100).offset(3, 8).address(), 0x118);
    assert_eq!(sys_sched_setscheduler(), Ok(0));
    assert_eq!(sys_sched_getscheduler(), Ok(0));
    assert_eq!(sys_sched_getparam(), Ok(0));
}

#[test]
fn open_flags_become_options() {
    let ro = flags_to_options(0, 0o644, (1, 2));
    assert!(ro.read && !ro.write && !ro.create);
    assert_eq!((ro.mode, ro.uid, ro.gid), (0o644, 1, 2));
    let wo = flags_to_options(1 | (O_CREAT | O_TRUNC) as i32, 0, (0, 0));
    assert!(!wo.read && wo.write && wo.create && wo.truncate && !wo.append);
    let rw = flags_to_options(2 | (O_APPEND | O_EXCL) as i32, 0, (0, 0));
    assert!(rw.read && rw.write && rw.append && rw.create_new);
    let path = flags_to_options(O_PATH as i32, 0, (0, 0));
    assert!(path.path && path.execute);
    let all = flags_to_options(-1, 0, (0, 0));
    assert!(all.read && all.write && all.directory && all.direct);
}

#[test]
fn protection_becomes_mapping_flags() {
    assert_eq!(MmapProt(PROT_READ).to_mapping_flags(), MappingFlags(MAPPING_USER | MAPPING_READ));
    assert_eq!(
        MmapProt(PROT_READ | PROT_WRITE | PROT_EXEC).to_mapping_flags(),
        MappingFlags(MAPPING_USER | MAPPING_READ | MAPPING_WRITE | MAPPING_EXECUTE)
    );
    assert_eq!(MmapProt(0).to_mapping_flags(), MappingFlags(MAPPING_USER));
}

#[test]
fn default_itimerspec_is_disarmed() {
    let t = itimerspec::default();
    assert_eq!((t.it_value.tv_sec, t.it_value.tv_nsec, t.it_interval.tv_sec), (0, 0, 0));
}

#[test]
fn protection_converts_with_from() {
    let flags: MappingFlags = MappingFlags::from(MmapProt(PROT_WRITE));
    assert_eq!(flags, MappingFlags(MAPPING_USER | MAPPING_WRITE));
}

#[test]
fn metadata_becomes_kstat() {
    let t = TimeValue::new(5, 6);
    let m = Metadata {
        node_type: 8,
        mode: 0o644,
        device: 3,
        inode: 42,
        nlink: 0x1_0000_0002,
        uid: 10,
        gid: 20,
        size: 1234,
        block_size: 512,
        blocks: 3,
        rdev: 9,
        atime: t,
        mtime: t,
        ctime: t,
    };
    let k = metadata_to_kstat(&m);
    assert_eq!(k.mode, 0o100644);
    assert_eq!(k.nlink, 2);
    assert_eq!((k.dev, k.ino, k.uid, k.gid, k.size, k.blksize, k.blocks, k.rdev), (3, 42, 10, 20, 1234, 512, 3, 9));
    assert_eq!(k.atime, t);
    let d = Kstat::default();
    assert_eq!((d.ino, d.nlink, d.uid, d.blksize), (1, 1, 1, 4096));
}

#[test]
fn affinity_calls_target_the_caller_for_pid_zero() {
    assert_eq!(sys_sched_getaffinity(0, 128, true, 7), Ok((7, 128)));
    assert_eq!(sys_sched_getaffinity(9, 1024, true, 7), Ok((9, 128)));
    assert_eq!(sys_sched_getaffinity(9, 8, true, 7), Ok((9, 8)));
    assert_eq!(sys_sched_getaffinity(0, 0, true, 7), Err(SyscallErr::EINVAL));
    assert_eq!(sys_sched_getaffinity(0, 8, false, 7), Err(SyscallErr::EFAULT));
    assert_eq!(sys_sched_setaffinity(0, 8, true, 3), Ok(3));
    assert_eq!(sys_sched_setaffinity(4, 8, true, 3), Ok(4));
    assert_eq!(sys_sched_setaffinity(0, 4, true, 3), Err(SyscallErr::EINVAL));
    assert_eq!(sys_sched_setaffinity(0, 8, false, 3), Err(SyscallErr::EFAULT));
}

#[test]
fn prlimit_checks_the_new_limit() {
    assert_eq!(sys_prlimit64(None, false), Ok(None));
    let ok = RLimit { rlim_cur: 10, rlim_max: 20 };
    assert_eq!(sys_prlimit64(Some(ok), true), Ok(Some(ok)));
    assert_eq!(sys_prlimit64(Some(ok), false), Err(SyscallErr::EFAULT));
    assert_eq!(sys_prlimit64(Some(RLimit { rlim_cur: 30, rlim_max: 20 }), true), Err(SyscallErr::EINVAL));
}
