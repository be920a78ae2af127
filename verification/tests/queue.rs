use swtc::queue::{decimal_bytes, push_argv_record, push_libctest_record, push_libctest_runtest_record,
    push_ltp_record, push_queue_record};
use swtc::runner::{metadata_take, parse_argv_record, parse_group_record, parse_libctest_record, parse_usize,
    record_kind, split_fields, split_records, argv_strings, exec_path, wait_step, RecordError, RecordKind, WaitStep};

#[test]
fn decimal_digits() {
    assert_eq!(decimal_bytes(0), b"0".to_vec());
    assert_eq!(decimal_bytes(3000), b"3000".to_vec());
    assert_eq!(decimal_bytes(10000), b"10000".to_vec());
}

#[test]
fn queue_record_layout() {
    let mut q = Vec::new();
    push_queue_record(&mut q, b'G', b"/oscomp-busybox\t");
    push_queue_record(&mut q, b'X', b"busybox_testcode.sh");
    assert_eq!(q, b"G/oscomp-busybox\t\0Xbusybox_testcode.sh\0".to_vec());
}

#[test]
fn argv_record_layout() {
    let mut q = Vec::new();
    push_argv_record(&mut q, 10000, b"lmbench_all", &[b"lat_syscall".to_vec(), b"null".to_vec()]);
    assert_eq!(q, b"A10000\tlmbench_all\tlat_syscall\tnull\0".to_vec());
}

#[test]
fn libctest_record_layouts() {
    let mut q = Vec::new();
    push_libctest_record(&mut q, 3000, b"entry-static.exe", b"argv");
    push_libctest_runtest_record(&mut q, 3000, b"basename");
    push_ltp_record(&mut q, 3000, b"getpid01");
    assert_eq!(
        q,
        b"C3000\tentry-static.exe\targv\0A3000\truntest.exe\t-w\tentry-static.exe\tbasename\0L3000\tgetpid01\tgetpid01\0"
            .to_vec()
    );
}

#[test]
fn records_split_back() {
    let mut q = Vec::new();
    push_queue_record(&mut q, b'G', b"/g\tSTART");
    push_queue_record(&mut q, b'X', b"prog");
    push_queue_record(&mut q, b'E', b"END");
    let r = split_records(&q);
    assert_eq!(r, vec![b"G/g\tSTART".to_vec(), b"Xprog".to_vec(), b"EEND".to_vec()]);
}

#[test]
fn empty_runs_between_nuls_are_skipped() {
    let r = split_records(b"\0\0Xa\0\0Xb");
    assert_eq!(r, vec![b"Xa".to_vec(), b"Xb".to_vec()]);
    assert!(split_records(b"").is_empty());
}

#[test]
fn fields_split_at_tabs() {
    assert_eq!(split_fields(b"a\t\tb"), vec![b"a".to_vec(), b"".to_vec(), b"b".to_vec()]);
    assert_eq!(split_fields(b""), vec![b"".to_vec()]);
}

#[test]
fn parse_usize_cases() {
    assert_eq!(parse_usize(b"3000"), Some(3000));
    assert_eq!(parse_usize(b""), None);
    assert_eq!(parse_usize(b"12a"), None);
    assert_eq!(parse_usize(b"-1"), None);
    assert_eq!(parse_usize(b"99999999999999999999999"), None);
    assert_eq!(parse_usize(b"18446744073709551615"), Some(usize::MAX));
}

#[test]
fn argv_record_round_trip() {
    let mut q = Vec::new();
    push_argv_record(&mut q, 10000, b"lmbench_all", &[b"lat_sig".to_vec(), b"-P".to_vec(), b"1".to_vec()]);
    let recs = split_records(&q);
    assert_eq!(recs.len(), 1);
    assert_eq!(record_kind(&recs[0]), RecordKind::Argv);
    let a = match parse_argv_record(&recs[0][1..]) {
        Ok(a) => a,
        Err(_) => panic!("argv record did not parse"),
    };
    assert_eq!(a.timeout_ms, 10000);
    assert_eq!(a.name, b"lmbench_all".to_vec());
    assert_eq!(a.argv0, Some(b"lat_sig".to_vec()));
    assert_eq!(a.args, vec![b"-P".to_vec(), b"1".to_vec()]);
}

#[test]
fn argv_record_without_argv0() {
    let a = match parse_argv_record(b"3000\truntest.exe\t-w\tentry-static.exe\targv") {
        Ok(a) => a,
        Err(_) => panic!("argv record did not parse"),
    };
    assert_eq!(a.argv0, None);
    assert_eq!(a.args.len(), 3);
}

#[test]
fn argv_record_errors() {
    assert!(matches!(parse_argv_record(b"x\tprog"), Err(RecordError::BadTimeout)));
    assert!(matches!(parse_argv_record(b"10"), Err(RecordError::MissingExecutable)));
    assert!(matches!(parse_argv_record(b"10\t"), Err(RecordError::MissingExecutable)));
}

#[test]
fn libctest_record_round_trip_and_errors() {
    let mut q = Vec::new();
    push_libctest_record(&mut q, 3000, b"entry-static.exe", b"argv");
    let recs = split_records(&q);
    assert_eq!(record_kind(&recs[0]), RecordKind::Libctest);
    let c = match parse_libctest_record(&recs[0][1..]) {
        Ok(c) => c,
        Err(_) => panic!("libctest record did not parse"),
    };
    assert_eq!((c.timeout_ms, c.name, c.case), (3000, b"entry-static.exe".to_vec(), b"argv".to_vec()));
    assert!(matches!(parse_libctest_record(b"3000\tentry-static.exe"), Err(RecordError::MissingCase)));
    assert!(matches!(parse_libctest_record(b"3000\t\tcase"), Err(RecordError::MissingExecutable)));
}

#[test]
fn group_record_split() {
    assert_eq!(parse_group_record(b"/g\tSTART"), Some((b"/g".to_vec(), b"START".to_vec())));
    assert_eq!(parse_group_record(b"/g\t"), Some((b"/g".to_vec(), b"".to_vec())));
    assert_eq!(parse_group_record(b"/g"), None);
}

#[test]
fn record_kinds() {
    assert_eq!(record_kind(b"Gx"), RecordKind::Group);
    assert_eq!(record_kind(b"X"), RecordKind::Exec);
    assert_eq!(record_kind(b"E"), RecordKind::End);
    assert_eq!(record_kind(b"L3000"), RecordKind::Unknown);
}

#[test]
fn exec_path_and_argv_strings() {
    assert_eq!(exec_path(b"prog"), b"./prog\0".to_vec());
    let v = argv_strings(b"prog", &None, &[b"a".to_vec()]);
    assert_eq!(v, vec![b"./prog\0".to_vec(), b"a\0".to_vec()]);
    let w = argv_strings(b"lmbench_all", &Some(b"lat_sig".to_vec()), &[]);
    assert_eq!(w, vec![b"lat_sig\0".to_vec()]);
}

#[test]
fn wait_steps() {
    assert_eq!(wait_step(5, 5, 0, 10), WaitStep::Exited);
    assert_eq!(wait_step(-1, 5, 0, 10), WaitStep::Failed);
    assert_eq!(wait_step(0, 5, 10, 10), WaitStep::Kill);
    assert_eq!(wait_step(0, 5, 0, 10), WaitStep::Sleep);
}

#[test]
fn metadata_chunks_are_capped() {
    assert_eq!(metadata_take(0, 1024), 1024);
    assert_eq!(metadata_take(65000, 1024), 536);
    assert_eq!(metadata_take(65536, 1024), 0);
}
