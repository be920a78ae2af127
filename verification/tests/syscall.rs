use swtc::ctypes::sched_getaffinity_reply;
use swtc::time::SyscallErr;
use swtc::frame_allocator::StackFrameAllocator;
use swtc::loader::Loader;
use swtc::task::{TaskTable, MMAP_BASE};
use swtc::syscall::{
    nanosleep_delay_us, push_exec_args, sys_mmap, sys_test, syscall, uname_buffer, Syscall, SYS_CLONE, SYS_EXIT, SYS_MMAP,
    SYS_MOUNT, SYS_READ, SYS_SCHED_YIELD,
};

#[test]
fn call_numbers_pick_their_handlers() {
    let args = [1, 2, 3, 4, 5, 6];
    assert_eq!(syscall(SYS_READ, args), Syscall::Read(1, 2, 3));
    assert_eq!(syscall(SYS_MMAP, args), Syscall::Mmap(1, 2, 3, 4, 5, 6));
    assert_eq!(syscall(SYS_MOUNT, args), Syscall::Done(0));
    assert_eq!(syscall(SYS_CLONE, args), Syscall::Done(-1));
    assert_eq!(syscall(SYS_SCHED_YIELD, args), Syscall::Done(0));
    assert_eq!(syscall(999, args), Syscall::Unsupported(999));
    assert_eq!(syscall(SYS_EXIT, [usize::MAX, 0, 0, 0, 0, 0]), Syscall::Exit(-1));
    assert_eq!(syscall(SYS_EXIT, [0x1_0000_0007, 0, 0, 0, 0, 0]), Syscall::Exit(7));
}

#[test]
fn test_call_adds_one() {
    assert_eq!(sys_test(41), 42);
    assert_eq!(sys_test(isize::MAX as usize), isize::MIN);
}

#[test]
fn nanosleep_waits_between_one_and_ten_milliseconds() {
    assert_eq!(nanosleep_delay_us(0, 0), 1_000);
    assert_eq!(nanosleep_delay_us(0, 5_000), 5_000);
    assert_eq!(nanosleep_delay_us(1, 0), 10_000);
    assert_eq!(nanosleep_delay_us(u64::MAX, 1), 10_000);
}

#[test]
fn uname_fills_six_fields() {
    let buf = uname_buffer();
    assert_eq!(buf.len(), 390);
    assert_eq!(&buf[0..9], b"sudo-win\0");
    assert_eq!(&buf[65..74], b"oskernel\0");
    assert_eq!(&buf[130..134], b"0.1\0");
    assert_eq!(&buf[195..200], b"2026\0");
    assert_eq!(&buf[260..268], b"riscv64\0");
    assert_eq!(&buf[325..331], b"local\0");
    assert_eq!(buf[389], 0);
}

#[test]
fn exec_args_fall_back_to_the_path() {
    let mut loader = Loader::new();
    push_exec_args(&mut loader, &vec![None, None], b"/bin/ls");
    assert_eq!(loader.external_args(), &vec![b"/bin/ls".to_vec()]);
    let args: Vec<Option<Vec<u8>>> = vec![Some(b"ls".to_vec()), None, Some(b"-l".to_vec())];
    push_exec_args(&mut loader, &args, b"/bin/ls");
    assert_eq!(loader.external_args(), &vec![b"ls".to_vec(), b"-l".to_vec()]);
    let many: Vec<Option<Vec<u8>>> = (0..10).map(|i| Some(vec![b'a' + i as u8])).collect();
    push_exec_args(&mut loader, &many, b"x");
    assert_eq!(loader.external_args().len(), 8);
}

#[test]
fn mmap_without_an_address_space_fails() {
    let mut t = TaskTable::new();
    let mut frames = StackFrameAllocator::new();
    assert_eq!(sys_mmap(&mut t, &mut frames, 0, 0, usize::MAX), (-1, false));
    assert_eq!(sys_mmap(&mut t, &mut frames, 0, 4096, 3), (-1, false));
    assert_eq!(t.alloc_current_mmap(4096), MMAP_BASE + 4096);
    assert_eq!(sys_mmap(&mut t, &mut frames, 0x5000_0000, 4096, 3), (-1, false));
}

#[test]
fn exec_without_a_mounted_disk_fails_and_keeps_the_loader() {
    let mut driver = swtc::ext4_driver::Ext4Driver::new();
    let args = vec![Some(b"prog".to_vec())];
    assert_eq!(driver.exec_image(&[], b"bin/prog", &args), -1);
    assert!(!driver.loader().has_external_app());
    assert!(driver.loader().external_args().is_empty());
}

#[test]
fn getaffinity_copies_the_asked_bytes_of_the_set() {
    let mut set = vec![0u8; 128];
    set[0] = 0b1011;
    set[1] = 0x80;
    match sched_getaffinity_reply(&Some(set.clone()), 8) {
        Ok((n, bytes)) => {
            assert_eq!(n, 0);
            assert_eq!(bytes, set[..8].to_vec());
        }
        Err(_) => panic!("the thread is there"),
    }
    match sched_getaffinity_reply(&Some(set.clone()), 4096) {
        Ok((_, bytes)) => assert_eq!(bytes.len(), 128),
        Err(_) => panic!("the thread is there"),
    }
    assert!(matches!(sched_getaffinity_reply(&None, 8), Err(SyscallErr::ESRCH)));
}
