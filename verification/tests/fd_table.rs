use swtc::ext4_driver::Ext4Driver;
use swtc::fs::FdTable;

fn setup() -> (FdTable, Ext4Driver, Vec<u8>) {
    (FdTable::new(), Ext4Driver::new(), Vec::new())
}

#[test]
fn read_stdin_gives_end_of_file() {
    let (mut t, d, disk) = setup();
    let (n, bytes) = t.read(0, 0x1000, 8, &d, &disk);
    assert_eq!(n, 0);
    assert!(bytes.is_empty());
}

#[test]
fn close_standard_streams_succeeds() {
    let (mut t, _d, _disk) = setup();
    assert_eq!(t.close(0), 0);
    assert_eq!(t.close(1), 0);
    assert_eq!(t.close(2), 0);
}

#[test]
fn close_invalid_descriptor_fails() {
    let (mut t, _d, _disk) = setup();
    assert_eq!(t.close(99), -1);
}

#[test]
fn fstat_stdout_and_invalid() {
    let (t, _d, _disk) = setup();
    assert_eq!(t.fstat(1, 0x2000).0, 0);
    assert_eq!(t.fstat(99, 0x2000).0, -1);
}

#[test]
fn open_dev_null_allocates_increasing_descriptors() {
    let (mut t, d, disk) = setup();
    let a = t.openat(usize::MAX, b"/dev/null", 0, 0, &d, &disk);
    assert!(a >= 3);
    let b = t.openat(usize::MAX, b"/dev/null", 0, 0, &d, &disk);
    assert!(b > a);
    assert_eq!(t.close(a as usize), 0);
    assert_eq!(t.close(b as usize), 0);
    assert_eq!(t.close(a as usize), -1);
}

#[test]
fn open_missing_file_fails() {
    let (mut t, d, disk) = setup();
    assert_eq!(t.openat(usize::MAX, b"/missing", 0, 0, &d, &disk), -1);
}

#[test]
fn read_hello_file_then_end_of_file() {
    let (mut t, d, disk) = setup();
    let fd = t.openat(usize::MAX, b"/hello.txt", 0, 0, &d, &disk);
    assert!(fd >= 3);
    let (n, bytes) = t.read(fd as usize, 0x3000, 32, &d, &disk);
    assert_eq!(n, 18);
    assert_eq!(bytes, b"hello from kernel\n".to_vec());
    let (m, _) = t.read(fd as usize, 0x3000, 32, &d, &disk);
    assert_eq!(m, 0);
    assert_eq!(t.close(fd as usize), 0);
}

#[test]
fn memory_file_reads_back_what_was_written() {
    let (mut t, d, disk) = setup();
    let fd = t.openat(usize::MAX, b"/notes", 0x40, 0, &d, &disk);
    assert!(fd >= 3);
    assert_eq!(t.write(fd as usize, 0x4000, b"abc"), 3);
    let (n, bytes) = t.read_at(fd as usize, 0, 0x4000, 8, &d, &disk);
    assert_eq!(n, 3);
    assert_eq!(bytes, b"abc".to_vec());
}

#[test]
fn hello_reads_continue_where_the_last_stopped() {
    let (mut t, d, disk) = setup();
    let fd = t.openat(usize::MAX, b"/hello.txt", 0, 0, &d, &disk) as usize;
    let (n, bytes) = t.read(fd, 0x3000, 10, &d, &disk);
    assert_eq!((n, bytes), (10, b"hello from".to_vec()));
    let (n, bytes) = t.read(fd, 0x3000, 10, &d, &disk);
    assert_eq!((n, bytes), (8, b" kernel\n".to_vec()));
    let (n, bytes) = t.read(fd, 0x3000, 10, &d, &disk);
    assert_eq!((n, bytes), (0, Vec::new()));
    assert_eq!(t.read(fd, 0, 10, &d, &disk).0, -1);
}

#[test]
fn positional_hello_reads_leave_the_offset() {
    let (mut t, d, disk) = setup();
    let fd = t.openat(usize::MAX, b"/hello.txt", 0, 0, &d, &disk) as usize;
    let (n, bytes) = t.read_at(fd, 6, 0x3000, 4, &d, &disk);
    assert_eq!((n, bytes), (4, b"from".to_vec()));
    let (n, bytes) = t.read(fd, 0x3000, 5, &d, &disk);
    assert_eq!((n, bytes), (5, b"hello".to_vec()));
}
