use swtc::ext4::{Ext4Error, Ext4Fs};
use swtc::stage::{find_first_command, install_busybox_group, install_group_runtime, install_interp_alias, install_ltp_group,
    interp_path_from_segment, read_file, remember_interp, BasicFlavor, StageError};

fn blank_fs() -> (Ext4Fs, Vec<u8>) {
    (
        Ext4Fs { block_size: 1024, blocks_per_group: 8192, inodes_per_group: 128, inode_size: 256, group_desc_size: 32 },
        vec![0u8; 8192],
    )
}

#[test]
fn interpreter_alias_paths() {
    assert_eq!(
        install_interp_alias(b"oscomp-musl", b"/lib/ld-musl-riscv64.so.1").ok(),
        Some(b"oscomp-musl/lib/ld-musl-riscv64.so.1".to_vec())
    );
    assert!(matches!(install_interp_alias(b"g", b"///"), Err(StageError::BadInterpreter)));
    assert!(matches!(install_interp_alias(b"g", b"/lib/../x"), Err(StageError::BadInterpreter)));
}

#[test]
fn interpreter_from_segment() {
    assert_eq!(interp_path_from_segment(b"/lib/ld.so\0").ok(), Some(b"/lib/ld.so".to_vec()));
    assert_eq!(interp_path_from_segment(b" /lib/ld.so \0").ok(), Some(b"/lib/ld.so".to_vec()));
    assert!(matches!(interp_path_from_segment(b" \0"), Err(StageError::EmptyInterpreter)));
    assert!(matches!(interp_path_from_segment(&[0xff, 0]), Err(StageError::InterpreterNotUtf8)));
}

#[test]
fn interpreters_remembered_once() {
    let mut v = Vec::new();
    remember_interp(&mut v, b"/lib/a");
    remember_interp(&mut v, b"/lib/b");
    remember_interp(&mut v, b"/lib/a");
    assert_eq!(v, vec![b"/lib/a".to_vec(), b"/lib/b".to_vec()]);
}

#[test]
fn root_groups_have_no_runtime() {
    let (fs, disk) = blank_fs();
    assert!(matches!(install_group_runtime(&disk, &fs, BasicFlavor::Root, b"g", &Vec::new()), Err((StageError::RootRuntime, w)) if w.is_empty()));
}

#[test]
fn unreadable_disk_reports_disk_errors() {
    let (fs, disk) = blank_fs();
    assert!(matches!(read_file(&disk, &fs, b"busybox"), Err(StageError::Disk(Ext4Error::InodeTable))));
    assert!(matches!(
        install_busybox_group(&disk, &fs, b"musl/busybox_testcode.sh", b"oscomp-busybox-musl"),
        Err(StageError::Disk(Ext4Error::InodeTable))
    ));
    assert!(matches!(install_group_runtime(&disk, &fs, BasicFlavor::Glibc, b"g", &Vec::new()), Err((StageError::RuntimeMissing, w)) if w.is_empty()));
    assert!(matches!(install_group_runtime(&disk, &fs, BasicFlavor::Musl, b"g", &Vec::new()), Err((StageError::MuslRuntimeMissing, w)) if w.is_empty()));
}

#[test]
fn missing_ltp_directory_stages_nothing() {
    let (fs, disk) = blank_fs();
    let s = match install_ltp_group(&disk, &fs, b"musl/ltp/testcases/bin", b"oscomp-ltp-musl", b"ltp-musl") {
        Ok(s) => s,
        Err(_) => panic!("a missing directory is not an error"),
    };
    assert!(s.ops.is_empty());
    assert!(s.records.is_empty());
    assert_eq!(s.commands, 0);
}

#[test]
fn error_messages() {
    assert_eq!(StageError::NotFound.message(), "file not found");
    assert_eq!(StageError::NoLibctestCase.message(), "no allowed libctest case found");
    assert_eq!(StageError::Disk(Ext4Error::InodeTable).message(), "invalid EXT4 inode table");
}

#[test]
fn first_command_needs_a_readable_script_within_the_depth() {
    let (fs, disk) = blank_fs();
    assert!(matches!(find_first_command(&disk, &fs, b"basic_testcode.sh", 4), Err(StageError::ScriptDepth)));
    assert!(matches!(
        find_first_command(&disk, &fs, b"basic_testcode.sh", 0),
        Err(StageError::Disk(Ext4Error::InodeTable))
    ));
}
