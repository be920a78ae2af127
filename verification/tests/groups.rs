use swtc::ext4::Ext4Fs;
use swtc::groups::{finish_queue, job_counts, needs_runtime, staging_plan, GroupJob};
use swtc::stage::BasicFlavor;

fn blank_disk() -> (Ext4Fs, Vec<u8>) {
    (
        Ext4Fs { block_size: 1024, blocks_per_group: 8192, inodes_per_group: 128, inode_size: 256, group_desc_size: 32 },
        vec![0u8; 8192],
    )
}

#[test]
fn empty_disk_plans_only_the_ltp_directories() {
    let (fs, disk) = blank_disk();
    assert_eq!(staging_plan(&disk, &fs), vec![GroupJob::LtpGlibc, GroupJob::LtpMusl]);
}

#[test]
fn jobs_name_their_paths() {
    assert_eq!(GroupJob::BasicGlibc.source(), b"glibc/basic_testcode.sh".to_vec());
    assert_eq!(GroupJob::BasicRoot.group_dir(), b"oscomp-basic".to_vec());
    assert_eq!(GroupJob::LibctestMuslNested.source(), b"musl/libctest/libctest_testcode.sh".to_vec());
    assert_eq!(GroupJob::LibctestMuslNested.group_dir(), b"oscomp-libctest-musl".to_vec());
    assert_eq!(GroupJob::LtpMusl.source(), b"musl/ltp/testcases/bin".to_vec());
    assert_eq!(GroupJob::LtpMusl.marker(), b"ltp-musl".to_vec());
    assert_eq!(GroupJob::LuaRoot.marker(), Vec::<u8>::new());
    assert_eq!(GroupJob::LmbenchGlibc.flavor(), Some(BasicFlavor::Glibc));
    assert_eq!(GroupJob::BusyboxMusl.flavor(), None);
    assert_eq!(GroupJob::BasicRoot.flavor(), Some(BasicFlavor::Root));
}

#[test]
fn ltp_groups_count_only_with_cases() {
    assert!(!job_counts(GroupJob::LtpGlibc, 0));
    assert!(job_counts(GroupJob::LtpGlibc, 3));
    assert!(job_counts(GroupJob::BusyboxRoot, 0));
}

#[test]
fn runtime_only_for_dynamic_groups_with_a_flavor() {
    let none: Vec<Vec<u8>> = Vec::new();
    let one = vec![b"/lib/ld-musl-riscv64.so.1".to_vec()];
    assert!(!needs_runtime(Some(BasicFlavor::Musl), &none));
    assert!(!needs_runtime(None, &one));
    assert!(needs_runtime(Some(BasicFlavor::Musl), &one));
}

#[test]
fn queue_joins_staged_records_in_order() {
    assert_eq!(finish_queue(&Vec::new()), None);
    assert_eq!(finish_queue(&vec![None, None]), None);
    let staged = vec![Some(b"Ga\0".to_vec()), None, Some(b"Xb\0".to_vec()), Some(Vec::new())];
    assert_eq!(finish_queue(&staged), Some(b"Ga\0Xb\0".to_vec()));
}
