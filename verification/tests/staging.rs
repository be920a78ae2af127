use swtc::staging::{file_name, find_group_marker, find_libctest_cases, is_allowed_libctest_case, normalize_libctest_case,
    push_libctest_words, quoted_assignment, resolve_path, split_shell_words, split_whitespace, trim_shell_quotes,
    trim_whitespace};
use swtc::utf8::is_utf8;

#[test]
fn resolve_relative_and_absolute() {
    assert_eq!(resolve_path(b"musl", b"busybox"), b"musl/busybox".to_vec());
    assert_eq!(resolve_path(b"musl/basic", b"../lib/x"), b"musl/lib/x".to_vec());
    assert_eq!(resolve_path(b"musl", b"/glibc/./a"), b"glibc/a".to_vec());
    assert_eq!(resolve_path(b"", b"a//b/"), b"a/b".to_vec());
    assert_eq!(resolve_path(b"a", b"../../b"), b"b".to_vec());
}

#[test]
fn file_names() {
    assert_eq!(file_name(b"musl/basic/brk"), Some(b"brk".to_vec()));
    assert_eq!(file_name(b"brk"), Some(b"brk".to_vec()));
    assert_eq!(file_name(b"musl/"), None);
}

#[test]
fn shell_words_with_quotes() {
    assert_eq!(
        split_shell_words(b"./run \"a b\" 'c'\td"),
        vec![b"./run".to_vec(), b"a b".to_vec(), b"c".to_vec(), b"d".to_vec()]
    );
    assert_eq!(split_shell_words(b"  "), Vec::<Vec<u8>>::new());
    assert_eq!(split_shell_words(b"\"unterminated x"), vec![b"unterminated x".to_vec()]);
}

#[test]
fn quotes_trimmed_only_in_pairs() {
    assert_eq!(trim_shell_quotes(b"\"x\""), b"x".to_vec());
    assert_eq!(trim_shell_quotes(b"'x'"), b"x".to_vec());
    assert_eq!(trim_shell_quotes(b"\"x'"), b"\"x'".to_vec());
    assert_eq!(trim_shell_quotes(b"\""), b"\"".to_vec());
}

#[test]
fn whitespace_helpers() {
    assert_eq!(split_whitespace(b" a\tb\n c "), vec![b"a".to_vec(), b"b".to_vec(), b"c".to_vec()]);
    assert_eq!(trim_whitespace(b" \tx y\r\n"), b"x y".to_vec());
}

#[test]
fn quoted_assignment_value() {
    assert_eq!(quoted_assignment(b"x=1\ntests=\"a b\"\n", b"tests"), Some(b"a b".to_vec()));
    assert_eq!(quoted_assignment(b"tests=\"unterminated", b"tests"), None);
    assert_eq!(quoted_assignment(b"nothing", b"tests"), None);
}

#[test]
fn group_markers_found() {
    let script = b"echo \"#### OS COMP TEST GROUP START basic-musl ####\"\nrun\necho \"#### OS COMP TEST GROUP END basic-musl ####\"\n";
    assert_eq!(find_group_marker(script, b"START"), Some(b"#### OS COMP TEST GROUP START basic-musl ####".to_vec()));
    assert_eq!(find_group_marker(script, b"END"), Some(b"#### OS COMP TEST GROUP END basic-musl ####".to_vec()));
    assert_eq!(find_group_marker(b"no markers", b"START"), None);
}

#[test]
fn libctest_case_names_normalized() {
    assert_eq!(normalize_libctest_case(b"\"./argv-static.exe\""), b"argv".to_vec());
    assert_eq!(normalize_libctest_case(b"./argv-static.exe;"), b"argv".to_vec());
    assert_eq!(normalize_libctest_case(b"\"./argv-static.exe\";"), b"argv-static.exe\"".to_vec());
    assert_eq!(normalize_libctest_case(b"src/functional/basename.exe"), b"basename".to_vec());
    assert_eq!(normalize_libctest_case(b"(dirname-static)"), b"dirname".to_vec());
    assert_eq!(normalize_libctest_case(b"env"), b"env".to_vec());
}

#[test]
fn libctest_allowlist_membership() {
    assert!(is_allowed_libctest_case(b"argv"));
    assert!(is_allowed_libctest_case(b"wcsstr_false_negative"));
    assert!(!is_allowed_libctest_case(b"not_a_case"));
    assert!(!is_allowed_libctest_case(b""));
}

#[test]
fn libctest_words_are_deduplicated() {
    let mut cases = Vec::new();
    push_libctest_words(b"argv argv basename unknown", &mut cases);
    assert_eq!(cases, vec![b"argv".to_vec(), b"basename".to_vec()]);
}

#[test]
fn libctest_cases_from_run_script() {
    let script = b"#!/bin/sh\n# comment argv\n./runtest.exe -w entry-static.exe argv\nT=\"basename dirname\" # env\nrun ./fnmatch-static.exe\n";
    let cases = find_libctest_cases(script);
    assert_eq!(
        cases,
        vec![b"argv".to_vec(), b"basename".to_vec(), b"dirname".to_vec(), b"fnmatch".to_vec()]
    );
}

#[test]
fn utf8_validation() {
    assert!(is_utf8(b"plain ascii"));
    assert!(is_utf8("h\u{e9}llo \u{4e16}\u{754c} \u{1f600}".as_bytes()));
    assert!(!is_utf8(&[0xc0, 0x80]));
    assert!(!is_utf8(&[0xed, 0xa0, 0x80]));
    assert!(!is_utf8(&[0xe2, 0x82]));
    assert!(!is_utf8(&[0xf5, 0x80, 0x80, 0x80]));
}
