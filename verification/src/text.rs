//! Fixed byte strings: markers, paths and names the kernel and its harness look for.
use vstd::prelude::*;

verus! {

/// The bytes of `#### OS COMP TEST GROUP END `.
pub open spec fn group_end_prefix_spec() -> Seq<u8> {
    seq![35u8, 35u8, 35u8, 35u8, 32u8, 79u8, 83u8, 32u8, 67u8, 79u8, 77u8, 80u8, 32u8, 84u8, 69u8, 83u8, 84u8, 32u8, 71u8, 82u8, 79u8, 85u8, 80u8, 32u8, 69u8, 78u8, 68u8, 32u8]
}

/// The bytes of `#### OS COMP TEST GROUP END `.
pub fn group_end_prefix() -> (r: Vec<u8>)
    ensures
        r@ == group_end_prefix_spec(),
{
    let r: Vec<u8> = vec![35u8, 35u8, 35u8, 35u8, 32u8, 79u8, 83u8, 32u8, 67u8, 79u8, 77u8, 80u8, 32u8, 84u8, 69u8, 83u8, 84u8, 32u8, 71u8, 82u8, 79u8, 85u8, 80u8, 32u8, 69u8, 78u8, 68u8, 32u8];
    assert(r@ =~= group_end_prefix_spec());
    r
}

/// The bytes of `#### OS COMP TEST GROUP START `.
pub open spec fn group_start_prefix_spec() -> Seq<u8> {
    seq![35u8, 35u8, 35u8, 35u8, 32u8, 79u8, 83u8, 32u8, 67u8, 79u8, 77u8, 80u8, 32u8, 84u8, 69u8, 83u8, 84u8, 32u8, 71u8, 82u8, 79u8, 85u8, 80u8, 32u8, 83u8, 84u8, 65u8, 82u8, 84u8, 32u8]
}

/// The bytes of `#### OS COMP TEST GROUP START `.
pub fn group_start_prefix() -> (r: Vec<u8>)
    ensures
        r@ == group_start_prefix_spec(),
{
    let r: Vec<u8> = vec![35u8, 35u8, 35u8, 35u8, 32u8, 79u8, 83u8, 32u8, 67u8, 79u8, 77u8, 80u8, 32u8, 84u8, 69u8, 83u8, 84u8, 32u8, 71u8, 82u8, 79u8, 85u8, 80u8, 32u8, 83u8, 84u8, 65u8, 82u8, 84u8, 32u8];
    assert(r@ =~= group_start_prefix_spec());
    r
}

/// The bytes of `#### OS COMP TEST GROUP `.
pub open spec fn group_marker_prefix_spec() -> Seq<u8> {
    seq![35u8, 35u8, 35u8, 35u8, 32u8, 79u8, 83u8, 32u8, 67u8, 79u8, 77u8, 80u8, 32u8, 84u8, 69u8, 83u8, 84u8, 32u8, 71u8, 82u8, 79u8, 85u8, 80u8, 32u8]
}

/// The bytes of `#### OS COMP TEST GROUP `.
pub fn group_marker_prefix() -> (r: Vec<u8>)
    ensures
        r@ == group_marker_prefix_spec(),
{
    let r: Vec<u8> = vec![35u8, 35u8, 35u8, 35u8, 32u8, 79u8, 83u8, 32u8, 67u8, 79u8, 77u8, 80u8, 32u8, 84u8, 69u8, 83u8, 84u8, 32u8, 71u8, 82u8, 79u8, 85u8, 80u8, 32u8];
    assert(r@ =~= group_marker_prefix_spec());
    r
}

/// The bytes of `####`.
pub open spec fn marker_end_spec() -> Seq<u8> {
    seq![35u8, 35u8, 35u8, 35u8]
}

/// The bytes of `####`.
pub fn marker_end() -> (r: Vec<u8>)
    ensures
        r@ == marker_end_spec(),
{
    let r: Vec<u8> = vec![35u8, 35u8, 35u8, 35u8];
    assert(r@ =~= marker_end_spec());
    r
}

/// The bytes of ` ####`.
pub open spec fn marker_tail_spec() -> Seq<u8> {
    seq![32u8, 35u8, 35u8, 35u8, 35u8]
}

/// The bytes of ` ####`.
pub fn marker_tail() -> (r: Vec<u8>)
    ensures
        r@ == marker_tail_spec(),
{
    let r: Vec<u8> = vec![32u8, 35u8, 35u8, 35u8, 35u8];
    assert(r@ =~= marker_tail_spec());
    r
}

/// The bytes of `.`.
pub open spec fn dot_spec() -> Seq<u8> {
    seq![46u8]
}

/// The bytes of `.`.
pub fn dot() -> (r: Vec<u8>)
    ensures
        r@ == dot_spec(),
{
    let r: Vec<u8> = vec![46u8];
    assert(r@ =~= dot_spec());
    r
}

/// The bytes of `..`.
pub open spec fn dotdot_spec() -> Seq<u8> {
    seq![46u8, 46u8]
}

/// The bytes of `..`.
pub fn dotdot() -> (r: Vec<u8>)
    ensures
        r@ == dotdot_spec(),
{
    let r: Vec<u8> = vec![46u8, 46u8];
    assert(r@ =~= dotdot_spec());
    r
}

/// The bytes of `./`.
pub open spec fn dot_slash_spec() -> Seq<u8> {
    seq![46u8, 47u8]
}

/// The bytes of `./`.
pub fn dot_slash() -> (r: Vec<u8>)
    ensures
        r@ == dot_slash_spec(),
{
    let r: Vec<u8> = vec![46u8, 47u8];
    assert(r@ =~= dot_slash_spec());
    r
}

/// The bytes of `/`.
pub open spec fn slash_spec() -> Seq<u8> {
    seq![47u8]
}

/// The bytes of `/`.
pub fn slash() -> (r: Vec<u8>)
    ensures
        r@ == slash_spec(),
{
    let r: Vec<u8> = vec![47u8];
    assert(r@ =~= slash_spec());
    r
}

/// The bytes of `basic_testcode.sh`.
pub open spec fn basic_script_name_spec() -> Seq<u8> {
    seq![98u8, 97u8, 115u8, 105u8, 99u8, 95u8, 116u8, 101u8, 115u8, 116u8, 99u8, 111u8, 100u8, 101u8, 46u8, 115u8, 104u8]
}

/// The bytes of `basic_testcode.sh`.
pub fn basic_script_name() -> (r: Vec<u8>)
    ensures
        r@ == basic_script_name_spec(),
{
    let r: Vec<u8> = vec![98u8, 97u8, 115u8, 105u8, 99u8, 95u8, 116u8, 101u8, 115u8, 116u8, 99u8, 111u8, 100u8, 101u8, 46u8, 115u8, 104u8];
    assert(r@ =~= basic_script_name_spec());
    r
}

/// The bytes of `_testcode.sh`.
pub open spec fn test_script_suffix_spec() -> Seq<u8> {
    seq![95u8, 116u8, 101u8, 115u8, 116u8, 99u8, 111u8, 100u8, 101u8, 46u8, 115u8, 104u8]
}

/// The bytes of `_testcode.sh`.
pub fn test_script_suffix() -> (r: Vec<u8>)
    ensures
        r@ == test_script_suffix_spec(),
{
    let r: Vec<u8> = vec![95u8, 116u8, 101u8, 115u8, 116u8, 99u8, 111u8, 100u8, 101u8, 46u8, 115u8, 104u8];
    assert(r@ =~= test_script_suffix_spec());
    r
}

/// The bytes of `.sh`.
pub open spec fn sh_suffix_spec() -> Seq<u8> {
    seq![46u8, 115u8, 104u8]
}

/// The bytes of `.sh`.
pub fn sh_suffix() -> (r: Vec<u8>)
    ensures
        r@ == sh_suffix_spec(),
{
    let r: Vec<u8> = vec![46u8, 115u8, 104u8];
    assert(r@ =~= sh_suffix_spec());
    r
}

/// The bytes of `cd`.
pub open spec fn cd_word_spec() -> Seq<u8> {
    seq![99u8, 100u8]
}

/// The bytes of `cd`.
pub fn cd_word() -> (r: Vec<u8>)
    ensures
        r@ == cd_word_spec(),
{
    let r: Vec<u8> = vec![99u8, 100u8];
    assert(r@ =~= cd_word_spec());
    r
}

/// The bytes of `busybox`.
pub open spec fn busybox_word_spec() -> Seq<u8> {
    seq![98u8, 117u8, 115u8, 121u8, 98u8, 111u8, 120u8]
}

/// The bytes of `busybox`.
pub fn busybox_word() -> (r: Vec<u8>)
    ensures
        r@ == busybox_word_spec(),
{
    let r: Vec<u8> = vec![98u8, 117u8, 115u8, 121u8, 98u8, 111u8, 120u8];
    assert(r@ =~= busybox_word_spec());
    r
}

/// The bytes of `echo`.
pub open spec fn echo_word_spec() -> Seq<u8> {
    seq![101u8, 99u8, 104u8, 111u8]
}

/// The bytes of `echo`.
pub fn echo_word() -> (r: Vec<u8>)
    ensures
        r@ == echo_word_spec(),
{
    let r: Vec<u8> = vec![101u8, 99u8, 104u8, 111u8];
    assert(r@ =~= echo_word_spec());
    r
}

/// The bytes of `musl`.
pub open spec fn musl_dir_spec() -> Seq<u8> {
    seq![109u8, 117u8, 115u8, 108u8]
}

/// The bytes of `musl`.
pub fn musl_dir() -> (r: Vec<u8>)
    ensures
        r@ == musl_dir_spec(),
{
    let r: Vec<u8> = vec![109u8, 117u8, 115u8, 108u8];
    assert(r@ =~= musl_dir_spec());
    r
}

/// The bytes of `glibc`.
pub open spec fn glibc_dir_spec() -> Seq<u8> {
    seq![103u8, 108u8, 105u8, 98u8, 99u8]
}

/// The bytes of `glibc`.
pub fn glibc_dir() -> (r: Vec<u8>)
    ensures
        r@ == glibc_dir_spec(),
{
    let r: Vec<u8> = vec![103u8, 108u8, 105u8, 98u8, 99u8];
    assert(r@ =~= glibc_dir_spec());
    r
}

/// The bytes of `/dev/null`.
pub open spec fn dev_null_path_spec() -> Seq<u8> {
    seq![47u8, 100u8, 101u8, 118u8, 47u8, 110u8, 117u8, 108u8, 108u8]
}

/// The bytes of `/dev/null`.
pub fn dev_null_path() -> (r: Vec<u8>)
    ensures
        r@ == dev_null_path_spec(),
{
    let r: Vec<u8> = vec![47u8, 100u8, 101u8, 118u8, 47u8, 110u8, 117u8, 108u8, 108u8];
    assert(r@ =~= dev_null_path_spec());
    r
}

/// The bytes of `/hello.txt`.
pub open spec fn hello_path_spec() -> Seq<u8> {
    seq![47u8, 104u8, 101u8, 108u8, 108u8, 111u8, 46u8, 116u8, 120u8, 116u8]
}

/// The bytes of `/hello.txt`.
pub fn hello_path() -> (r: Vec<u8>)
    ensures
        r@ == hello_path_spec(),
{
    let r: Vec<u8> = vec![47u8, 104u8, 101u8, 108u8, 108u8, 111u8, 46u8, 116u8, 120u8, 116u8];
    assert(r@ =~= hello_path_spec());
    r
}

/// The bytes of `hello from kernel\n`.
pub open spec fn hello_content_spec() -> Seq<u8> {
    seq![104u8, 101u8, 108u8, 108u8, 111u8, 32u8, 102u8, 114u8, 111u8, 109u8, 32u8, 107u8, 101u8, 114u8, 110u8, 101u8, 108u8, 10u8]
}

/// The bytes of `hello from kernel\n`.
pub fn hello_content() -> (r: Vec<u8>)
    ensures
        r@ == hello_content_spec(),
{
    let r: Vec<u8> = vec![104u8, 101u8, 108u8, 108u8, 111u8, 32u8, 102u8, 114u8, 111u8, 109u8, 32u8, 107u8, 101u8, 114u8, 110u8, 101u8, 108u8, 10u8];
    assert(r@ =~= hello_content_spec());
    r
}

/// The bytes of `mnt`.
pub open spec fn mnt_word_spec() -> Seq<u8> {
    seq![109u8, 110u8, 116u8]
}

/// The bytes of `mnt`.
pub fn mnt_word() -> (r: Vec<u8>)
    ensures
        r@ == mnt_word_spec(),
{
    let r: Vec<u8> = vec![109u8, 110u8, 116u8];
    assert(r@ =~= mnt_word_spec());
    r
}

/// The bytes of `./mnt`.
pub open spec fn dot_mnt_spec() -> Seq<u8> {
    seq![46u8, 47u8, 109u8, 110u8, 116u8]
}

/// The bytes of `./mnt`.
pub fn dot_mnt() -> (r: Vec<u8>)
    ensures
        r@ == dot_mnt_spec(),
{
    let r: Vec<u8> = vec![46u8, 47u8, 109u8, 110u8, 116u8];
    assert(r@ =~= dot_mnt_spec());
    r
}

/// The bytes of `/mnt`.
pub open spec fn slash_mnt_spec() -> Seq<u8> {
    seq![47u8, 109u8, 110u8, 116u8]
}

/// The bytes of `/mnt`.
pub fn slash_mnt() -> (r: Vec<u8>)
    ensures
        r@ == slash_mnt_spec(),
{
    let r: Vec<u8> = vec![47u8, 109u8, 110u8, 116u8];
    assert(r@ =~= slash_mnt_spec());
    r
}

/// The bytes of `.\0`.
pub open spec fn dot_entry_name_spec() -> Seq<u8> {
    seq![46u8, 0u8]
}

/// The bytes of `.\0`.
pub fn dot_entry_name() -> (r: Vec<u8>)
    ensures
        r@ == dot_entry_name_spec(),
{
    let r: Vec<u8> = vec![46u8, 0u8];
    assert(r@ =~= dot_entry_name_spec());
    r
}

/// The bytes of `runtest.exe`.
pub open spec fn runtest_exe_spec() -> Seq<u8> {
    seq![114u8, 117u8, 110u8, 116u8, 101u8, 115u8, 116u8, 46u8, 101u8, 120u8, 101u8]
}

/// The bytes of `runtest.exe`.
pub fn runtest_exe() -> (r: Vec<u8>)
    ensures
        r@ == runtest_exe_spec(),
{
    let r: Vec<u8> = vec![114u8, 117u8, 110u8, 116u8, 101u8, 115u8, 116u8, 46u8, 101u8, 120u8, 101u8];
    assert(r@ =~= runtest_exe_spec());
    r
}

/// The bytes of `-w`.
pub open spec fn dash_w_spec() -> Seq<u8> {
    seq![45u8, 119u8]
}

/// The bytes of `-w`.
pub fn dash_w() -> (r: Vec<u8>)
    ensures
        r@ == dash_w_spec(),
{
    let r: Vec<u8> = vec![45u8, 119u8];
    assert(r@ =~= dash_w_spec());
    r
}

/// The bytes of `entry-static.exe`.
pub open spec fn entry_static_exe_spec() -> Seq<u8> {
    seq![101u8, 110u8, 116u8, 114u8, 121u8, 45u8, 115u8, 116u8, 97u8, 116u8, 105u8, 99u8, 46u8, 101u8, 120u8, 101u8]
}

/// The bytes of `entry-static.exe`.
pub fn entry_static_exe() -> (r: Vec<u8>)
    ensures
        r@ == entry_static_exe_spec(),
{
    let r: Vec<u8> = vec![101u8, 110u8, 116u8, 114u8, 121u8, 45u8, 115u8, 116u8, 97u8, 116u8, 105u8, 99u8, 46u8, 101u8, 120u8, 101u8];
    assert(r@ =~= entry_static_exe_spec());
    r
}

/// The bytes of `lmbench_all`.
pub open spec fn lmbench_all_spec() -> Seq<u8> {
    seq![108u8, 109u8, 98u8, 101u8, 110u8, 99u8, 104u8, 95u8, 97u8, 108u8, 108u8]
}

/// The bytes of `lmbench_all`.
pub fn lmbench_all() -> (r: Vec<u8>)
    ensures
        r@ == lmbench_all_spec(),
{
    let r: Vec<u8> = vec![108u8, 109u8, 98u8, 101u8, 110u8, 99u8, 104u8, 95u8, 97u8, 108u8, 108u8];
    assert(r@ =~= lmbench_all_spec());
    r
}

/// The bytes of `argv basename clocale_mbfuncs clock_gettime daemon_failure dirname dn_expand_empty dn_expand_ptr_0 env fdopen fgets_eof fgetwc_buffering fflush_exit fnmatch fpclassify_invalid_ld80 fscanf ftello_unflushed_append fwscanf getpwnam_r_crash getpwnam_r_errno iconv_open iconv_roundtrips inet_ntop_v4mapped inet_pton inet_pton_empty_last_field iswspace_null lrand48_signextend lseek_large malloc_0 mbc mbsrtowcs_overflow memmem_oob memmem_oob_read memstream mkdtemp_failure mkstemp_failure printf_1e9_oob printf_fmt_g_round printf_fmt_g_zeros printf_fmt_n pthread_cancel pthread_cancel_points pthread_cancel_sem_wait pthread_cond pthread_cond_smasher pthread_condattr_setclock pthread_exit_cancel pthread_once_deadlock pthread_robust_detach pthread_rwlock_ebusy pthread_tsd putenv_doublefree qsort random regex_backref_0 regex_bracket_icase regex_ere_backref regex_escaped_high_byte regex_negated_range regexec_nosub rewind_clear_error rlimit_open_files scanf_bytes_consumed scanf_match_literal_eof scanf_nullbyte_char search_hsearch search_insque search_lsearch search_tsearch setjmp setvbuf_unget sigprocmask_internal snprintf socket sscanf_eof sscanf sscanf_long stat statvfs strftime string string_memcpy string_memmem string_memset string_strchr string_strcspn string_strstr strptime strtod strtod_simple strtof strtol strtold strverscmp swprintf syscall_sign_extend tgmath time tls_align udiv ungetc uselocale_0 utime wcstol wcsncpy_read_overflow wcsstr wcsstr_false_negative`.
pub open spec fn libctest_allowlist_spec() -> Seq<u8> {
    seq![97u8, 114u8, 103u8, 118u8, 32u8, 98u8, 97u8, 115u8, 101u8, 110u8, 97u8, 109u8, 101u8, 32u8, 99u8, 108u8, 111u8, 99u8, 97u8, 108u8, 101u8, 95u8, 109u8, 98u8, 102u8, 117u8, 110u8, 99u8, 115u8, 32u8, 99u8, 108u8, 111u8, 99u8, 107u8, 95u8, 103u8, 101u8, 116u8, 116u8, 105u8, 109u8, 101u8, 32u8, 100u8, 97u8, 101u8, 109u8, 111u8, 110u8, 95u8, 102u8, 97u8, 105u8, 108u8, 117u8, 114u8, 101u8, 32u8, 100u8, 105u8, 114u8, 110u8, 97u8, 109u8, 101u8, 32u8, 100u8, 110u8, 95u8, 101u8, 120u8, 112u8, 97u8, 110u8, 100u8, 95u8, 101u8, 109u8, 112u8, 116u8, 121u8, 32u8, 100u8, 110u8, 95u8, 101u8, 120u8, 112u8, 97u8, 110u8, 100u8, 95u8, 112u8, 116u8, 114u8, 95u8, 48u8, 32u8, 101u8, 110u8, 118u8, 32u8, 102u8, 100u8, 111u8, 112u8, 101u8, 110u8, 32u8, 102u8, 103u8, 101u8, 116u8, 115u8, 95u8, 101u8, 111u8, 102u8, 32u8, 102u8, 103u8, 101u8, 116u8, 119u8, 99u8, 95u8, 98u8, 117u8, 102u8, 102u8, 101u8, 114u8, 105u8, 110u8, 103u8, 32u8, 102u8, 102u8, 108u8, 117u8, 115u8, 104u8, 95u8, 101u8, 120u8, 105u8, 116u8, 32u8, 102u8, 110u8, 109u8, 97u8, 116u8, 99u8, 104u8, 32u8, 102u8, 112u8, 99u8, 108u8, 97u8, 115u8, 115u8, 105u8, 102u8, 121u8, 95u8, 105u8, 110u8, 118u8, 97u8, 108u8, 105u8, 100u8, 95u8, 108u8, 100u8, 56u8, 48u8, 32u8, 102u8, 115u8, 99u8, 97u8, 110u8, 102u8, 32u8, 102u8, 116u8, 101u8, 108u8, 108u8, 111u8, 95u8, 117u8, 110u8, 102u8, 108u8, 117u8, 115u8, 104u8, 101u8, 100u8, 95u8, 97u8, 112u8, 112u8, 101u8, 110u8, 100u8, 32u8, 102u8, 119u8, 115u8, 99u8, 97u8, 110u8, 102u8, 32u8, 103u8, 101u8, 116u8, 112u8, 119u8, 110u8, 97u8, 109u8, 95u8, 114u8, 95u8, 99u8, 114u8, 97u8, 115u8, 104u8, 32u8, 103u8, 101u8, 116u8, 112u8, 119u8, 110u8, 97u8, 109u8, 95u8, 114u8, 95u8, 101u8, 114u8, 114u8, 110u8, 111u8, 32u8, 105u8, 99u8, 111u8, 110u8, 118u8, 95u8, 111u8, 112u8, 101u8, 110u8, 32u8, 105u8, 99u8, 111u8, 110u8, 118u8, 95u8, 114u8, 111u8, 117u8, 110u8, 100u8, 116u8, 114u8, 105u8, 112u8, 115u8, 32u8, 105u8, 110u8, 101u8, 116u8, 95u8, 110u8, 116u8, 111u8, 112u8, 95u8, 118u8, 52u8, 109u8, 97u8, 112u8, 112u8, 101u8, 100u8, 32u8, 105u8, 110u8, 101u8, 116u8, 95u8, 112u8, 116u8, 111u8, 110u8, 32u8, 105u8, 110u8, 101u8, 116u8, 95u8, 112u8, 116u8, 111u8, 110u8, 95u8, 101u8, 109u8, 112u8, 116u8, 121u8, 95u8, 108u8, 97u8, 115u8, 116u8, 95u8, 102u8, 105u8, 101u8, 108u8, 100u8, 32u8, 105u8, 115u8, 119u8, 115u8, 112u8, 97u8, 99u8, 101u8, 95u8, 110u8, 117u8, 108u8, 108u8, 32u8, 108u8, 114u8, 97u8, 110u8, 100u8, 52u8, 56u8, 95u8, 115u8, 105u8, 103u8, 110u8, 101u8, 120u8, 116u8, 101u8, 110u8, 100u8, 32u8, 108u8, 115u8, 101u8, 101u8, 107u8, 95u8, 108u8, 97u8, 114u8, 103u8, 101u8, 32u8, 109u8, 97u8, 108u8, 108u8, 111u8, 99u8, 95u8, 48u8, 32u8, 109u8, 98u8, 99u8, 32u8, 109u8, 98u8, 115u8, 114u8, 116u8, 111u8, 119u8, 99u8, 115u8, 95u8, 111u8, 118u8, 101u8, 114u8, 102u8, 108u8, 111u8, 119u8, 32u8, 109u8, 101u8, 109u8, 109u8, 101u8, 109u8, 95u8, 111u8, 111u8, 98u8, 32u8, 109u8, 101u8, 109u8, 109u8, 101u8, 109u8, 95u8, 111u8, 111u8, 98u8, 95u8, 114u8, 101u8, 97u8, 100u8, 32u8, 109u8, 101u8, 109u8, 115u8, 116u8, 114u8, 101u8, 97u8, 109u8, 32u8, 109u8, 107u8, 100u8, 116u8, 101u8, 109u8, 112u8, 95u8, 102u8, 97u8, 105u8, 108u8, 117u8, 114u8, 101u8, 32u8, 109u8, 107u8, 115u8, 116u8, 101u8, 109u8, 112u8, 95u8, 102u8, 97u8, 105u8, 108u8, 117u8, 114u8, 101u8, 32u8, 112u8, 114u8, 105u8, 110u8, 116u8, 102u8, 95u8, 49u8, 101u8, 57u8, 95u8, 111u8, 111u8, 98u8, 32u8, 112u8, 114u8, 105u8, 110u8, 116u8, 102u8, 95u8, 102u8, 109u8, 116u8, 95u8, 103u8, 95u8, 114u8, 111u8, 117u8, 110u8, 100u8, 32u8, 112u8, 114u8, 105u8, 110u8, 116u8, 102u8, 95u8, 102u8, 109u8, 116u8, 95u8, 103u8, 95u8, 122u8, 101u8, 114u8, 111u8, 115u8, 32u8, 112u8, 114u8, 105u8, 110u8, 116u8, 102u8, 95u8, 102u8, 109u8, 116u8, 95u8, 110u8, 32u8, 112u8, 116u8, 104u8, 114u8, 101u8, 97u8, 100u8, 95u8, 99u8, 97u8, 110u8, 99u8, 101u8, 108u8, 32u8, 112u8, 116u8, 104u8, 114u8, 101u8, 97u8, 100u8, 95u8, 99u8, 97u8, 110u8, 99u8, 101u8, 108u8, 95u8, 112u8, 111u8, 105u8, 110u8, 116u8, 115u8, 32u8, 112u8, 116u8, 104u8, 114u8, 101u8, 97u8, 100u8, 95u8, 99u8, 97u8, 110u8, 99u8, 101u8, 108u8, 95u8, 115u8, 101u8, 109u8, 95u8, 119u8, 97u8, 105u8, 116u8, 32u8, 112u8, 116u8, 104u8, 114u8, 101u8, 97u8, 100u8, 95u8, 99u8, 111u8, 110u8, 100u8, 32u8, 112u8, 116u8, 104u8, 114u8, 101u8, 97u8, 100u8, 95u8, 99u8, 111u8, 110u8, 100u8, 95u8, 115u8, 109u8, 97u8, 115u8, 104u8, 101u8, 114u8, 32u8, 112u8, 116u8, 104u8, 114u8, 101u8, 97u8, 100u8, 95u8, 99u8, 111u8, 110u8, 100u8, 97u8, 116u8, 116u8, 114u8, 95u8, 115u8, 101u8, 116u8, 99u8, 108u8, 111u8, 99u8, 107u8, 32u8, 112u8, 116u8, 104u8, 114u8, 101u8, 97u8, 100u8, 95u8, 101u8, 120u8, 105u8, 116u8, 95u8, 99u8, 97u8, 110u8, 99u8, 101u8, 108u8, 32u8, 112u8, 116u8, 104u8, 114u8, 101u8, 97u8, 100u8, 95u8, 111u8, 110u8, 99u8, 101u8, 95u8, 100u8, 101u8, 97u8, 100u8, 108u8, 111u8, 99u8, 107u8, 32u8, 112u8, 116u8, 104u8, 114u8, 101u8, 97u8, 100u8, 95u8, 114u8, 111u8, 98u8, 117u8, 115u8, 116u8, 95u8, 100u8, 101u8, 116u8, 97u8, 99u8, 104u8, 32u8, 112u8, 116u8, 104u8, 114u8, 101u8, 97u8, 100u8, 95u8, 114u8, 119u8, 108u8, 111u8, 99u8, 107u8, 95u8, 101u8, 98u8, 117u8, 115u8, 121u8, 32u8, 112u8, 116u8, 104u8, 114u8, 101u8, 97u8, 100u8, 95u8, 116u8, 115u8, 100u8, 32u8, 112u8, 117u8, 116u8, 101u8, 110u8, 118u8, 95u8, 100u8, 111u8, 117u8, 98u8, 108u8, 101u8, 102u8, 114u8, 101u8, 101u8, 32u8, 113u8, 115u8, 111u8, 114u8, 116u8, 32u8, 114u8, 97u8, 110u8, 100u8, 111u8, 109u8, 32u8, 114u8, 101u8, 103u8, 101u8, 120u8, 95u8, 98u8, 97u8, 99u8, 107u8, 114u8, 101u8, 102u8, 95u8, 48u8, 32u8, 114u8, 101u8, 103u8, 101u8, 120u8, 95u8, 98u8, 114u8, 97u8, 99u8, 107u8, 101u8, 116u8, 95u8, 105u8, 99u8, 97u8, 115u8, 101u8, 32u8, 114u8, 101u8, 103u8, 101u8, 120u8, 95u8, 101u8, 114u8, 101u8, 95u8, 98u8, 97u8, 99u8, 107u8, 114u8, 101u8, 102u8, 32u8, 114u8, 101u8, 103u8, 101u8, 120u8, 95u8, 101u8, 115u8, 99u8, 97u8, 112u8, 101u8, 100u8, 95u8, 104u8, 105u8, 103u8, 104u8, 95u8, 98u8, 121u8, 116u8, 101u8, 32u8, 114u8, 101u8, 103u8, 101u8, 120u8, 95u8, 110u8, 101u8, 103u8, 97u8, 116u8, 101u8, 100u8, 95u8, 114u8, 97u8, 110u8, 103u8, 101u8, 32u8, 114u8, 101u8, 103u8, 101u8, 120u8, 101u8, 99u8, 95u8, 110u8, 111u8, 115u8, 117u8, 98u8, 32u8, 114u8, 101u8, 119u8, 105u8, 110u8, 100u8, 95u8, 99u8, 108u8, 101u8, 97u8, 114u8, 95u8, 101u8, 114u8, 114u8, 111u8, 114u8, 32u8, 114u8, 108u8, 105u8, 109u8, 105u8, 116u8, 95u8, 111u8, 112u8, 101u8, 110u8, 95u8, 102u8, 105u8, 108u8, 101u8, 115u8, 32u8, 115u8, 99u8, 97u8, 110u8, 102u8, 95u8, 98u8, 121u8, 116u8, 101u8, 115u8, 95u8, 99u8, 111u8, 110u8, 115u8, 117u8, 109u8, 101u8, 100u8, 32u8, 115u8, 99u8, 97u8, 110u8, 102u8, 95u8, 109u8, 97u8, 116u8, 99u8, 104u8, 95u8, 108u8, 105u8, 116u8, 101u8, 114u8, 97u8, 108u8, 95u8, 101u8, 111u8, 102u8, 32u8, 115u8, 99u8, 97u8, 110u8, 102u8, 95u8, 110u8, 117u8, 108u8, 108u8, 98u8, 121u8, 116u8, 101u8, 95u8, 99u8, 104u8, 97u8, 114u8, 32u8, 115u8, 101u8, 97u8, 114u8, 99u8, 104u8, 95u8, 104u8, 115u8, 101u8, 97u8, 114u8, 99u8, 104u8, 32u8, 115u8, 101u8, 97u8, 114u8, 99u8, 104u8, 95u8, 105u8, 110u8, 115u8, 113u8, 117u8, 101u8, 32u8, 115u8, 101u8, 97u8, 114u8, 99u8, 104u8, 95u8, 108u8, 115u8, 101u8, 97u8, 114u8, 99u8, 104u8, 32u8, 115u8, 101u8, 97u8, 114u8, 99u8, 104u8, 95u8, 116u8, 115u8, 101u8, 97u8, 114u8, 99u8, 104u8, 32u8, 115u8, 101u8, 116u8, 106u8, 109u8, 112u8, 32u8, 115u8, 101u8, 116u8, 118u8, 98u8, 117u8, 102u8, 95u8, 117u8, 110u8, 103u8, 101u8, 116u8, 32u8, 115u8, 105u8, 103u8, 112u8, 114u8, 111u8, 99u8, 109u8, 97u8, 115u8, 107u8, 95u8, 105u8, 110u8, 116u8, 101u8, 114u8, 110u8, 97u8, 108u8, 32u8, 115u8, 110u8, 112u8, 114u8, 105u8, 110u8, 116u8, 102u8, 32u8, 115u8, 111u8, 99u8, 107u8, 101u8, 116u8, 32u8, 115u8, 115u8, 99u8, 97u8, 110u8, 102u8, 95u8, 101u8, 111u8, 102u8, 32u8, 115u8, 115u8, 99u8, 97u8, 110u8, 102u8, 32u8, 115u8, 115u8, 99u8, 97u8, 110u8, 102u8, 95u8, 108u8, 111u8, 110u8, 103u8, 32u8, 115u8, 116u8, 97u8, 116u8, 32u8, 115u8, 116u8, 97u8, 116u8, 118u8, 102u8, 115u8, 32u8, 115u8, 116u8, 114u8, 102u8, 116u8, 105u8, 109u8, 101u8, 32u8, 115u8, 116u8, 114u8, 105u8, 110u8, 103u8, 32u8, 115u8, 116u8, 114u8, 105u8, 110u8, 103u8, 95u8, 109u8, 101u8, 109u8, 99u8, 112u8, 121u8, 32u8, 115u8, 116u8, 114u8, 105u8, 110u8, 103u8, 95u8, 109u8, 101u8, 109u8, 109u8, 101u8, 109u8, 32u8, 115u8, 116u8, 114u8, 105u8, 110u8, 103u8, 95u8, 109u8, 101u8, 109u8, 115u8, 101u8, 116u8, 32u8, 115u8, 116u8, 114u8, 105u8, 110u8, 103u8, 95u8, 115u8, 116u8, 114u8, 99u8, 104u8, 114u8, 32u8, 115u8, 116u8, 114u8, 105u8, 110u8, 103u8, 95u8, 115u8, 116u8, 114u8, 99u8, 115u8, 112u8, 110u8, 32u8, 115u8, 116u8, 114u8, 105u8, 110u8, 103u8, 95u8, 115u8, 116u8, 114u8, 115u8, 116u8, 114u8, 32u8, 115u8, 116u8, 114u8, 112u8, 116u8, 105u8, 109u8, 101u8, 32u8, 115u8, 116u8, 114u8, 116u8, 111u8, 100u8, 32u8, 115u8, 116u8, 114u8, 116u8, 111u8, 100u8, 95u8, 115u8, 105u8, 109u8, 112u8, 108u8, 101u8, 32u8, 115u8, 116u8, 114u8, 116u8, 111u8, 102u8, 32u8, 115u8, 116u8, 114u8, 116u8, 111u8, 108u8, 32u8, 115u8, 116u8, 114u8, 116u8, 111u8, 108u8, 100u8, 32u8, 115u8, 116u8, 114u8, 118u8, 101u8, 114u8, 115u8, 99u8, 109u8, 112u8, 32u8, 115u8, 119u8, 112u8, 114u8, 105u8, 110u8, 116u8, 102u8, 32u8, 115u8, 121u8, 115u8, 99u8, 97u8, 108u8, 108u8, 95u8, 115u8, 105u8, 103u8, 110u8, 95u8, 101u8, 120u8, 116u8, 101u8, 110u8, 100u8, 32u8, 116u8, 103u8, 109u8, 97u8, 116u8, 104u8, 32u8, 116u8, 105u8, 109u8, 101u8, 32u8, 116u8, 108u8, 115u8, 95u8, 97u8, 108u8, 105u8, 103u8, 110u8, 32u8, 117u8, 100u8, 105u8, 118u8, 32u8, 117u8, 110u8, 103u8, 101u8, 116u8, 99u8, 32u8, 117u8, 115u8, 101u8, 108u8, 111u8, 99u8, 97u8, 108u8, 101u8, 95u8, 48u8, 32u8, 117u8, 116u8, 105u8, 109u8, 101u8, 32u8, 119u8, 99u8, 115u8, 116u8, 111u8, 108u8, 32u8, 119u8, 99u8, 115u8, 110u8, 99u8, 112u8, 121u8, 95u8, 114u8, 101u8, 97u8, 100u8, 95u8, 111u8, 118u8, 101u8, 114u8, 102u8, 108u8, 111u8, 119u8, 32u8, 119u8, 99u8, 115u8, 115u8, 116u8, 114u8, 32u8, 119u8, 99u8, 115u8, 115u8, 116u8, 114u8, 95u8, 102u8, 97u8, 108u8, 115u8, 101u8, 95u8, 110u8, 101u8, 103u8, 97u8, 116u8, 105u8, 118u8, 101u8]
}

/// The bytes of `argv basename clocale_mbfuncs clock_gettime daemon_failure dirname dn_expand_empty dn_expand_ptr_0 env fdopen fgets_eof fgetwc_buffering fflush_exit fnmatch fpclassify_invalid_ld80 fscanf ftello_unflushed_append fwscanf getpwnam_r_crash getpwnam_r_errno iconv_open iconv_roundtrips inet_ntop_v4mapped inet_pton inet_pton_empty_last_field iswspace_null lrand48_signextend lseek_large malloc_0 mbc mbsrtowcs_overflow memmem_oob memmem_oob_read memstream mkdtemp_failure mkstemp_failure printf_1e9_oob printf_fmt_g_round printf_fmt_g_zeros printf_fmt_n pthread_cancel pthread_cancel_points pthread_cancel_sem_wait pthread_cond pthread_cond_smasher pthread_condattr_setclock pthread_exit_cancel pthread_once_deadlock pthread_robust_detach pthread_rwlock_ebusy pthread_tsd putenv_doublefree qsort random regex_backref_0 regex_bracket_icase regex_ere_backref regex_escaped_high_byte regex_negated_range regexec_nosub rewind_clear_error rlimit_open_files scanf_bytes_consumed scanf_match_literal_eof scanf_nullbyte_char search_hsearch search_insque search_lsearch search_tsearch setjmp setvbuf_unget sigprocmask_internal snprintf socket sscanf_eof sscanf sscanf_long stat statvfs strftime string string_memcpy string_memmem string_memset string_strchr string_strcspn string_strstr strptime strtod strtod_simple strtof strtol strtold strverscmp swprintf syscall_sign_extend tgmath time tls_align udiv ungetc uselocale_0 utime wcstol wcsncpy_read_overflow wcsstr wcsstr_false_negative`.
pub fn libctest_allowlist() -> (r: Vec<u8>)
    ensures
        r@ == libctest_allowlist_spec(),
{
    let r: Vec<u8> = vec![97u8, 114u8, 103u8, 118u8, 32u8, 98u8, 97u8, 115u8, 101u8, 110u8, 97u8, 109u8, 101u8, 32u8, 99u8, 108u8, 111u8, 99u8, 97u8, 108u8, 101u8, 95u8, 109u8, 98u8, 102u8, 117u8, 110u8, 99u8, 115u8, 32u8, 99u8, 108u8, 111u8, 99u8, 107u8, 95u8, 103u8, 101u8, 116u8, 116u8, 105u8, 109u8, 101u8, 32u8, 100u8, 97u8, 101u8, 109u8, 111u8, 110u8, 95u8, 102u8, 97u8, 105u8, 108u8, 117u8, 114u8, 101u8, 32u8, 100u8, 105u8, 114u8, 110u8, 97u8, 109u8, 101u8, 32u8, 100u8, 110u8, 95u8, 101u8, 120u8, 112u8, 97u8, 110u8, 100u8, 95u8, 101u8, 109u8, 112u8, 116u8, 121u8, 32u8, 100u8, 110u8, 95u8, 101u8, 120u8, 112u8, 97u8, 110u8, 100u8, 95u8, 112u8, 116u8, 114u8, 95u8, 48u8, 32u8, 101u8, 110u8, 118u8, 32u8, 102u8, 100u8, 111u8, 112u8, 101u8, 110u8, 32u8, 102u8, 103u8, 101u8, 116u8, 115u8, 95u8, 101u8, 111u8, 102u8, 32u8, 102u8, 103u8, 101u8, 116u8, 119u8, 99u8, 95u8, 98u8, 117u8, 102u8, 102u8, 101u8, 114u8, 105u8, 110u8, 103u8, 32u8, 102u8, 102u8, 108u8, 117u8, 115u8, 104u8, 95u8, 101u8, 120u8, 105u8, 116u8, 32u8, 102u8, 110u8, 109u8, 97u8, 116u8, 99u8, 104u8, 32u8, 102u8, 112u8, 99u8, 108u8, 97u8, 115u8, 115u8, 105u8, 102u8, 121u8, 95u8, 105u8, 110u8, 118u8, 97u8, 108u8, 105u8, 100u8, 95u8, 108u8, 100u8, 56u8, 48u8, 32u8, 102u8, 115u8, 99u8, 97u8, 110u8, 102u8, 32u8, 102u8, 116u8, 101u8, 108u8, 108u8, 111u8, 95u8, 117u8, 110u8, 102u8, 108u8, 117u8, 115u8, 104u8, 101u8, 100u8, 95u8, 97u8, 112u8, 112u8, 101u8, 110u8, 100u8, 32u8, 102u8, 119u8, 115u8, 99u8, 97u8, 110u8, 102u8, 32u8, 103u8, 101u8, 116u8, 112u8, 119u8, 110u8, 97u8, 109u8, 95u8, 114u8, 95u8, 99u8, 114u8, 97u8, 115u8, 104u8, 32u8, 103u8, 101u8, 116u8, 112u8, 119u8, 110u8, 97u8, 109u8, 95u8, 114u8, 95u8, 101u8, 114u8, 114u8, 110u8, 111u8, 32u8, 105u8, 99u8, 111u8, 110u8, 118u8, 95u8, 111u8, 112u8, 101u8, 110u8, 32u8, 105u8, 99u8, 111u8, 110u8, 118u8, 95u8, 114u8, 111u8, 117u8, 110u8, 100u8, 116u8, 114u8, 105u8, 112u8, 115u8, 32u8, 105u8, 110u8, 101u8, 116u8, 95u8, 110u8, 116u8, 111u8, 112u8, 95u8, 118u8, 52u8, 109u8, 97u8, 112u8, 112u8, 101u8, 100u8, 32u8, 105u8, 110u8, 101u8, 116u8, 95u8, 112u8, 116u8, 111u8, 110u8, 32u8, 105u8, 110u8, 101u8, 116u8, 95u8, 112u8, 116u8, 111u8, 110u8, 95u8, 101u8, 109u8, 112u8, 116u8, 121u8, 95u8, 108u8, 97u8, 115u8, 116u8, 95u8, 102u8, 105u8, 101u8, 108u8, 100u8, 32u8, 105u8, 115u8, 119u8, 115u8, 112u8, 97u8, 99u8, 101u8, 95u8, 110u8, 117u8, 108u8, 108u8, 32u8, 108u8, 114u8, 97u8, 110u8, 100u8, 52u8, 56u8, 95u8, 115u8, 105u8, 103u8, 110u8, 101u8, 120u8, 116u8, 101u8, 110u8, 100u8, 32u8, 108u8, 115u8, 101u8, 101u8, 107u8, 95u8, 108u8, 97u8, 114u8, 103u8, 101u8, 32u8, 109u8, 97u8, 108u8, 108u8, 111u8, 99u8, 95u8, 48u8, 32u8, 109u8, 98u8, 99u8, 32u8, 109u8, 98u8, 115u8, 114u8, 116u8, 111u8, 119u8, 99u8, 115u8, 95u8, 111u8, 118u8, 101u8, 114u8, 102u8, 108u8, 111u8, 119u8, 32u8, 109u8, 101u8, 109u8, 109u8, 101u8, 109u8, 95u8, 111u8, 111u8, 98u8, 32u8, 109u8, 101u8, 109u8, 109u8, 101u8, 109u8, 95u8, 111u8, 111u8, 98u8, 95u8, 114u8, 101u8, 97u8, 100u8, 32u8, 109u8, 101u8, 109u8, 115u8, 116u8, 114u8, 101u8, 97u8, 109u8, 32u8, 109u8, 107u8, 100u8, 116u8, 101u8, 109u8, 112u8, 95u8, 102u8, 97u8, 105u8, 108u8, 117u8, 114u8, 101u8, 32u8, 109u8, 107u8, 115u8, 116u8, 101u8, 109u8, 112u8, 95u8, 102u8, 97u8, 105u8, 108u8, 117u8, 114u8, 101u8, 32u8, 112u8, 114u8, 105u8, 110u8, 116u8, 102u8, 95u8, 49u8, 101u8, 57u8, 95u8, 111u8, 111u8, 98u8, 32u8, 112u8, 114u8, 105u8, 110u8, 116u8, 102u8, 95u8, 102u8, 109u8, 116u8, 95u8, 103u8, 95u8, 114u8, 111u8, 117u8, 110u8, 100u8, 32u8, 112u8, 114u8, 105u8, 110u8, 116u8, 102u8, 95u8, 102u8, 109u8, 116u8, 95u8, 103u8, 95u8, 122u8, 101u8, 114u8, 111u8, 115u8, 32u8, 112u8, 114u8, 105u8, 110u8, 116u8, 102u8, 95u8, 102u8, 109u8, 116u8, 95u8, 110u8, 32u8, 112u8, 116u8, 104u8, 114u8, 101u8, 97u8, 100u8, 95u8, 99u8, 97u8, 110u8, 99u8, 101u8, 108u8, 32u8, 112u8, 116u8, 104u8, 114u8, 101u8, 97u8, 100u8, 95u8, 99u8, 97u8, 110u8, 99u8, 101u8, 108u8, 95u8, 112u8, 111u8, 105u8, 110u8, 116u8, 115u8, 32u8, 112u8, 116u8, 104u8, 114u8, 101u8, 97u8, 100u8, 95u8, 99u8, 97u8, 110u8, 99u8, 101u8, 108u8, 95u8, 115u8, 101u8, 109u8, 95u8, 119u8, 97u8, 105u8, 116u8, 32u8, 112u8, 116u8, 104u8, 114u8, 101u8, 97u8, 100u8, 95u8, 99u8, 111u8, 110u8, 100u8, 32u8, 112u8, 116u8, 104u8, 114u8, 101u8, 97u8, 100u8, 95u8, 99u8, 111u8, 110u8, 100u8, 95u8, 115u8, 109u8, 97u8, 115u8, 104u8, 101u8, 114u8, 32u8, 112u8, 116u8, 104u8, 114u8, 101u8, 97u8, 100u8, 95u8, 99u8, 111u8, 110u8, 100u8, 97u8, 116u8, 116u8, 114u8, 95u8, 115u8, 101u8, 116u8, 99u8, 108u8, 111u8, 99u8, 107u8, 32u8, 112u8, 116u8, 104u8, 114u8, 101u8, 97u8, 100u8, 95u8, 101u8, 120u8, 105u8, 116u8, 95u8, 99u8, 97u8, 110u8, 99u8, 101u8, 108u8, 32u8, 112u8, 116u8, 104u8, 114u8, 101u8, 97u8, 100u8, 95u8, 111u8, 110u8, 99u8, 101u8, 95u8, 100u8, 101u8, 97u8, 100u8, 108u8, 111u8, 99u8, 107u8, 32u8, 112u8, 116u8, 104u8, 114u8, 101u8, 97u8, 100u8, 95u8, 114u8, 111u8, 98u8, 117u8, 115u8, 116u8, 95u8, 100u8, 101u8, 116u8, 97u8, 99u8, 104u8, 32u8, 112u8, 116u8, 104u8, 114u8, 101u8, 97u8, 100u8, 95u8, 114u8, 119u8, 108u8, 111u8, 99u8, 107u8, 95u8, 101u8, 98u8, 117u8, 115u8, 121u8, 32u8, 112u8, 116u8, 104u8, 114u8, 101u8, 97u8, 100u8, 95u8, 116u8, 115u8, 100u8, 32u8, 112u8, 117u8, 116u8, 101u8, 110u8, 118u8, 95u8, 100u8, 111u8, 117u8, 98u8, 108u8, 101u8, 102u8, 114u8, 101u8, 101u8, 32u8, 113u8, 115u8, 111u8, 114u8, 116u8, 32u8, 114u8, 97u8, 110u8, 100u8, 111u8, 109u8, 32u8, 114u8, 101u8, 103u8, 101u8, 120u8, 95u8, 98u8, 97u8, 99u8, 107u8, 114u8, 101u8, 102u8, 95u8, 48u8, 32u8, 114u8, 101u8, 103u8, 101u8, 120u8, 95u8, 98u8, 114u8, 97u8, 99u8, 107u8, 101u8, 116u8, 95u8, 105u8, 99u8, 97u8, 115u8, 101u8, 32u8, 114u8, 101u8, 103u8, 101u8, 120u8, 95u8, 101u8, 114u8, 101u8, 95u8, 98u8, 97u8, 99u8, 107u8, 114u8, 101u8, 102u8, 32u8, 114u8, 101u8, 103u8, 101u8, 120u8, 95u8, 101u8, 115u8, 99u8, 97u8, 112u8, 101u8, 100u8, 95u8, 104u8, 105u8, 103u8, 104u8, 95u8, 98u8, 121u8, 116u8, 101u8, 32u8, 114u8, 101u8, 103u8, 101u8, 120u8, 95u8, 110u8, 101u8, 103u8, 97u8, 116u8, 101u8, 100u8, 95u8, 114u8, 97u8, 110u8, 103u8, 101u8, 32u8, 114u8, 101u8, 103u8, 101u8, 120u8, 101u8, 99u8, 95u8, 110u8, 111u8, 115u8, 117u8, 98u8, 32u8, 114u8, 101u8, 119u8, 105u8, 110u8, 100u8, 95u8, 99u8, 108u8, 101u8, 97u8, 114u8, 95u8, 101u8, 114u8, 114u8, 111u8, 114u8, 32u8, 114u8, 108u8, 105u8, 109u8, 105u8, 116u8, 95u8, 111u8, 112u8, 101u8, 110u8, 95u8, 102u8, 105u8, 108u8, 101u8, 115u8, 32u8, 115u8, 99u8, 97u8, 110u8, 102u8, 95u8, 98u8, 121u8, 116u8, 101u8, 115u8, 95u8, 99u8, 111u8, 110u8, 115u8, 117u8, 109u8, 101u8, 100u8, 32u8, 115u8, 99u8, 97u8, 110u8, 102u8, 95u8, 109u8, 97u8, 116u8, 99u8, 104u8, 95u8, 108u8, 105u8, 116u8, 101u8, 114u8, 97u8, 108u8, 95u8, 101u8, 111u8, 102u8, 32u8, 115u8, 99u8, 97u8, 110u8, 102u8, 95u8, 110u8, 117u8, 108u8, 108u8, 98u8, 121u8, 116u8, 101u8, 95u8, 99u8, 104u8, 97u8, 114u8, 32u8, 115u8, 101u8, 97u8, 114u8, 99u8, 104u8, 95u8, 104u8, 115u8, 101u8, 97u8, 114u8, 99u8, 104u8, 32u8, 115u8, 101u8, 97u8, 114u8, 99u8, 104u8, 95u8, 105u8, 110u8, 115u8, 113u8, 117u8, 101u8, 32u8, 115u8, 101u8, 97u8, 114u8, 99u8, 104u8, 95u8, 108u8, 115u8, 101u8, 97u8, 114u8, 99u8, 104u8, 32u8, 115u8, 101u8, 97u8, 114u8, 99u8, 104u8, 95u8, 116u8, 115u8, 101u8, 97u8, 114u8, 99u8, 104u8, 32u8, 115u8, 101u8, 116u8, 106u8, 109u8, 112u8, 32u8, 115u8, 101u8, 116u8, 118u8, 98u8, 117u8, 102u8, 95u8, 117u8, 110u8, 103u8, 101u8, 116u8, 32u8, 115u8, 105u8, 103u8, 112u8, 114u8, 111u8, 99u8, 109u8, 97u8, 115u8, 107u8, 95u8, 105u8, 110u8, 116u8, 101u8, 114u8, 110u8, 97u8, 108u8, 32u8, 115u8, 110u8, 112u8, 114u8, 105u8, 110u8, 116u8, 102u8, 32u8, 115u8, 111u8, 99u8, 107u8, 101u8, 116u8, 32u8, 115u8, 115u8, 99u8, 97u8, 110u8, 102u8, 95u8, 101u8, 111u8, 102u8, 32u8, 115u8, 115u8, 99u8, 97u8, 110u8, 102u8, 32u8, 115u8, 115u8, 99u8, 97u8, 110u8, 102u8, 95u8, 108u8, 111u8, 110u8, 103u8, 32u8, 115u8, 116u8, 97u8, 116u8, 32u8, 115u8, 116u8, 97u8, 116u8, 118u8, 102u8, 115u8, 32u8, 115u8, 116u8, 114u8, 102u8, 116u8, 105u8, 109u8, 101u8, 32u8, 115u8, 116u8, 114u8, 105u8, 110u8, 103u8, 32u8, 115u8, 116u8, 114u8, 105u8, 110u8, 103u8, 95u8, 109u8, 101u8, 109u8, 99u8, 112u8, 121u8, 32u8, 115u8, 116u8, 114u8, 105u8, 110u8, 103u8, 95u8, 109u8, 101u8, 109u8, 109u8, 101u8, 109u8, 32u8, 115u8, 116u8, 114u8, 105u8, 110u8, 103u8, 95u8, 109u8, 101u8, 109u8, 115u8, 101u8, 116u8, 32u8, 115u8, 116u8, 114u8, 105u8, 110u8, 103u8, 95u8, 115u8, 116u8, 114u8, 99u8, 104u8, 114u8, 32u8, 115u8, 116u8, 114u8, 105u8, 110u8, 103u8, 95u8, 115u8, 116u8, 114u8, 99u8, 115u8, 112u8, 110u8, 32u8, 115u8, 116u8, 114u8, 105u8, 110u8, 103u8, 95u8, 115u8, 116u8, 114u8, 115u8, 116u8, 114u8, 32u8, 115u8, 116u8, 114u8, 112u8, 116u8, 105u8, 109u8, 101u8, 32u8, 115u8, 116u8, 114u8, 116u8, 111u8, 100u8, 32u8, 115u8, 116u8, 114u8, 116u8, 111u8, 100u8, 95u8, 115u8, 105u8, 109u8, 112u8, 108u8, 101u8, 32u8, 115u8, 116u8, 114u8, 116u8, 111u8, 102u8, 32u8, 115u8, 116u8, 114u8, 116u8, 111u8, 108u8, 32u8, 115u8, 116u8, 114u8, 116u8, 111u8, 108u8, 100u8, 32u8, 115u8, 116u8, 114u8, 118u8, 101u8, 114u8, 115u8, 99u8, 109u8, 112u8, 32u8, 115u8, 119u8, 112u8, 114u8, 105u8, 110u8, 116u8, 102u8, 32u8, 115u8, 121u8, 115u8, 99u8, 97u8, 108u8, 108u8, 95u8, 115u8, 105u8, 103u8, 110u8, 95u8, 101u8, 120u8, 116u8, 101u8, 110u8, 100u8, 32u8, 116u8, 103u8, 109u8, 97u8, 116u8, 104u8, 32u8, 116u8, 105u8, 109u8, 101u8, 32u8, 116u8, 108u8, 115u8, 95u8, 97u8, 108u8, 105u8, 103u8, 110u8, 32u8, 117u8, 100u8, 105u8, 118u8, 32u8, 117u8, 110u8, 103u8, 101u8, 116u8, 99u8, 32u8, 117u8, 115u8, 101u8, 108u8, 111u8, 99u8, 97u8, 108u8, 101u8, 95u8, 48u8, 32u8, 117u8, 116u8, 105u8, 109u8, 101u8, 32u8, 119u8, 99u8, 115u8, 116u8, 111u8, 108u8, 32u8, 119u8, 99u8, 115u8, 110u8, 99u8, 112u8, 121u8, 95u8, 114u8, 101u8, 97u8, 100u8, 95u8, 111u8, 118u8, 101u8, 114u8, 102u8, 108u8, 111u8, 119u8, 32u8, 119u8, 99u8, 115u8, 115u8, 116u8, 114u8, 32u8, 119u8, 99u8, 115u8, 115u8, 116u8, 114u8, 95u8, 102u8, 97u8, 108u8, 115u8, 101u8, 95u8, 110u8, 101u8, 103u8, 97u8, 116u8, 105u8, 118u8, 101u8];
    assert(r@ =~= libctest_allowlist_spec());
    r
}

/// The bytes of `-static.exe`.
pub open spec fn static_exe_suffix_spec() -> Seq<u8> {
    seq![45u8, 115u8, 116u8, 97u8, 116u8, 105u8, 99u8, 46u8, 101u8, 120u8, 101u8]
}

/// The bytes of `-static.exe`.
pub fn static_exe_suffix() -> (r: Vec<u8>)
    ensures
        r@ == static_exe_suffix_spec(),
{
    let r: Vec<u8> = vec![45u8, 115u8, 116u8, 97u8, 116u8, 105u8, 99u8, 46u8, 101u8, 120u8, 101u8];
    assert(r@ =~= static_exe_suffix_spec());
    r
}

/// The bytes of `.exe`.
pub open spec fn exe_suffix_spec() -> Seq<u8> {
    seq![46u8, 101u8, 120u8, 101u8]
}

/// The bytes of `.exe`.
pub fn exe_suffix() -> (r: Vec<u8>)
    ensures
        r@ == exe_suffix_spec(),
{
    let r: Vec<u8> = vec![46u8, 101u8, 120u8, 101u8];
    assert(r@ =~= exe_suffix_spec());
    r
}

/// The bytes of `-static`.
pub open spec fn static_suffix_spec() -> Seq<u8> {
    seq![45u8, 115u8, 116u8, 97u8, 116u8, 105u8, 99u8]
}

/// The bytes of `-static`.
pub fn static_suffix() -> (r: Vec<u8>)
    ensures
        r@ == static_suffix_spec(),
{
    let r: Vec<u8> = vec![45u8, 115u8, 116u8, 97u8, 116u8, 105u8, 99u8];
    assert(r@ =~= static_suffix_spec());
    r
}

/// The bytes of `START`.
pub open spec fn case_kind_start_spec() -> Seq<u8> {
    seq![83u8, 84u8, 65u8, 82u8, 84u8]
}

/// The bytes of `START`.
pub fn case_kind_start() -> (r: Vec<u8>)
    ensures
        r@ == case_kind_start_spec(),
{
    let r: Vec<u8> = vec![83u8, 84u8, 65u8, 82u8, 84u8];
    assert(r@ =~= case_kind_start_spec());
    r
}

/// The bytes of `END`.
pub open spec fn case_kind_end_spec() -> Seq<u8> {
    seq![69u8, 78u8, 68u8]
}

/// The bytes of `END`.
pub fn case_kind_end() -> (r: Vec<u8>)
    ensures
        r@ == case_kind_end_spec(),
{
    let r: Vec<u8> = vec![69u8, 78u8, 68u8];
    assert(r@ =~= case_kind_end_spec());
    r
}

/// The bytes of `glibc/lib/ld-linux-riscv64-lp64d.so.1`.
pub open spec fn glibc_loader_src_spec() -> Seq<u8> {
    seq![103u8, 108u8, 105u8, 98u8, 99u8, 47u8, 108u8, 105u8, 98u8, 47u8, 108u8, 100u8, 45u8, 108u8, 105u8, 110u8, 117u8, 120u8, 45u8, 114u8, 105u8, 115u8, 99u8, 118u8, 54u8, 52u8, 45u8, 108u8, 112u8, 54u8, 52u8, 100u8, 46u8, 115u8, 111u8, 46u8, 49u8]
}

/// The bytes of `glibc/lib/ld-linux-riscv64-lp64d.so.1`.
pub fn glibc_loader_src() -> (r: Vec<u8>)
    ensures
        r@ == glibc_loader_src_spec(),
{
    let r: Vec<u8> = vec![103u8, 108u8, 105u8, 98u8, 99u8, 47u8, 108u8, 105u8, 98u8, 47u8, 108u8, 100u8, 45u8, 108u8, 105u8, 110u8, 117u8, 120u8, 45u8, 114u8, 105u8, 115u8, 99u8, 118u8, 54u8, 52u8, 45u8, 108u8, 112u8, 54u8, 52u8, 100u8, 46u8, 115u8, 111u8, 46u8, 49u8];
    assert(r@ =~= glibc_loader_src_spec());
    r
}

/// The bytes of `lib/ld-linux-riscv64-lp64d.so.1`.
pub open spec fn glibc_loader_dst_spec() -> Seq<u8> {
    seq![108u8, 105u8, 98u8, 47u8, 108u8, 100u8, 45u8, 108u8, 105u8, 110u8, 117u8, 120u8, 45u8, 114u8, 105u8, 115u8, 99u8, 118u8, 54u8, 52u8, 45u8, 108u8, 112u8, 54u8, 52u8, 100u8, 46u8, 115u8, 111u8, 46u8, 49u8]
}

/// The bytes of `lib/ld-linux-riscv64-lp64d.so.1`.
pub fn glibc_loader_dst() -> (r: Vec<u8>)
    ensures
        r@ == glibc_loader_dst_spec(),
{
    let r: Vec<u8> = vec![108u8, 105u8, 98u8, 47u8, 108u8, 100u8, 45u8, 108u8, 105u8, 110u8, 117u8, 120u8, 45u8, 114u8, 105u8, 115u8, 99u8, 118u8, 54u8, 52u8, 45u8, 108u8, 112u8, 54u8, 52u8, 100u8, 46u8, 115u8, 111u8, 46u8, 49u8];
    assert(r@ =~= glibc_loader_dst_spec());
    r
}

/// The bytes of `glibc/lib/libc.so`.
pub open spec fn glibc_libc_so_src_spec() -> Seq<u8> {
    seq![103u8, 108u8, 105u8, 98u8, 99u8, 47u8, 108u8, 105u8, 98u8, 47u8, 108u8, 105u8, 98u8, 99u8, 46u8, 115u8, 111u8]
}

/// The bytes of `glibc/lib/libc.so`.
pub fn glibc_libc_so_src() -> (r: Vec<u8>)
    ensures
        r@ == glibc_libc_so_src_spec(),
{
    let r: Vec<u8> = vec![103u8, 108u8, 105u8, 98u8, 99u8, 47u8, 108u8, 105u8, 98u8, 47u8, 108u8, 105u8, 98u8, 99u8, 46u8, 115u8, 111u8];
    assert(r@ =~= glibc_libc_so_src_spec());
    r
}

/// The bytes of `glibc/lib/libc.so.6`.
pub open spec fn glibc_libc_so6_src_spec() -> Seq<u8> {
    seq![103u8, 108u8, 105u8, 98u8, 99u8, 47u8, 108u8, 105u8, 98u8, 47u8, 108u8, 105u8, 98u8, 99u8, 46u8, 115u8, 111u8, 46u8, 54u8]
}

/// The bytes of `glibc/lib/libc.so.6`.
pub fn glibc_libc_so6_src() -> (r: Vec<u8>)
    ensures
        r@ == glibc_libc_so6_src_spec(),
{
    let r: Vec<u8> = vec![103u8, 108u8, 105u8, 98u8, 99u8, 47u8, 108u8, 105u8, 98u8, 47u8, 108u8, 105u8, 98u8, 99u8, 46u8, 115u8, 111u8, 46u8, 54u8];
    assert(r@ =~= glibc_libc_so6_src_spec());
    r
}

/// The bytes of `glibc/lib/libm.so`.
pub open spec fn glibc_libm_so_src_spec() -> Seq<u8> {
    seq![103u8, 108u8, 105u8, 98u8, 99u8, 47u8, 108u8, 105u8, 98u8, 47u8, 108u8, 105u8, 98u8, 109u8, 46u8, 115u8, 111u8]
}

/// The bytes of `glibc/lib/libm.so`.
pub fn glibc_libm_so_src() -> (r: Vec<u8>)
    ensures
        r@ == glibc_libm_so_src_spec(),
{
    let r: Vec<u8> = vec![103u8, 108u8, 105u8, 98u8, 99u8, 47u8, 108u8, 105u8, 98u8, 47u8, 108u8, 105u8, 98u8, 109u8, 46u8, 115u8, 111u8];
    assert(r@ =~= glibc_libm_so_src_spec());
    r
}

/// The bytes of `glibc/lib/libm.so.6`.
pub open spec fn glibc_libm_so6_src_spec() -> Seq<u8> {
    seq![103u8, 108u8, 105u8, 98u8, 99u8, 47u8, 108u8, 105u8, 98u8, 47u8, 108u8, 105u8, 98u8, 109u8, 46u8, 115u8, 111u8, 46u8, 54u8]
}

/// The bytes of `glibc/lib/libm.so.6`.
pub fn glibc_libm_so6_src() -> (r: Vec<u8>)
    ensures
        r@ == glibc_libm_so6_src_spec(),
{
    let r: Vec<u8> = vec![103u8, 108u8, 105u8, 98u8, 99u8, 47u8, 108u8, 105u8, 98u8, 47u8, 108u8, 105u8, 98u8, 109u8, 46u8, 115u8, 111u8, 46u8, 54u8];
    assert(r@ =~= glibc_libm_so6_src_spec());
    r
}

/// The bytes of `lib/libc.so`.
pub open spec fn lib_libc_so_spec() -> Seq<u8> {
    seq![108u8, 105u8, 98u8, 47u8, 108u8, 105u8, 98u8, 99u8, 46u8, 115u8, 111u8]
}

/// The bytes of `lib/libc.so`.
pub fn lib_libc_so() -> (r: Vec<u8>)
    ensures
        r@ == lib_libc_so_spec(),
{
    let r: Vec<u8> = vec![108u8, 105u8, 98u8, 47u8, 108u8, 105u8, 98u8, 99u8, 46u8, 115u8, 111u8];
    assert(r@ =~= lib_libc_so_spec());
    r
}

/// The bytes of `lib/libc.so.6`.
pub open spec fn lib_libc_so6_spec() -> Seq<u8> {
    seq![108u8, 105u8, 98u8, 47u8, 108u8, 105u8, 98u8, 99u8, 46u8, 115u8, 111u8, 46u8, 54u8]
}

/// The bytes of `lib/libc.so.6`.
pub fn lib_libc_so6() -> (r: Vec<u8>)
    ensures
        r@ == lib_libc_so6_spec(),
{
    let r: Vec<u8> = vec![108u8, 105u8, 98u8, 47u8, 108u8, 105u8, 98u8, 99u8, 46u8, 115u8, 111u8, 46u8, 54u8];
    assert(r@ =~= lib_libc_so6_spec());
    r
}

/// The bytes of `lib/libm.so`.
pub open spec fn lib_libm_so_spec() -> Seq<u8> {
    seq![108u8, 105u8, 98u8, 47u8, 108u8, 105u8, 98u8, 109u8, 46u8, 115u8, 111u8]
}

/// The bytes of `lib/libm.so`.
pub fn lib_libm_so() -> (r: Vec<u8>)
    ensures
        r@ == lib_libm_so_spec(),
{
    let r: Vec<u8> = vec![108u8, 105u8, 98u8, 47u8, 108u8, 105u8, 98u8, 109u8, 46u8, 115u8, 111u8];
    assert(r@ =~= lib_libm_so_spec());
    r
}

/// The bytes of `lib/libm.so.6`.
pub open spec fn lib_libm_so6_spec() -> Seq<u8> {
    seq![108u8, 105u8, 98u8, 47u8, 108u8, 105u8, 98u8, 109u8, 46u8, 115u8, 111u8, 46u8, 54u8]
}

/// The bytes of `lib/libm.so.6`.
pub fn lib_libm_so6() -> (r: Vec<u8>)
    ensures
        r@ == lib_libm_so6_spec(),
{
    let r: Vec<u8> = vec![108u8, 105u8, 98u8, 47u8, 108u8, 105u8, 98u8, 109u8, 46u8, 115u8, 111u8, 46u8, 54u8];
    assert(r@ =~= lib_libm_so6_spec());
    r
}

/// The bytes of `musl/lib/libc.so musl/lib/ld-musl-riscv64-lp64d.so.1 musl/lib/ld-musl-riscv64-lp64.so.1 musl/lib/ld-musl-riscv64.so.1 musl/lib/ld-musl-riscv64-sf.so.1 lib/ld-musl-riscv64-lp64d.so.1 lib/ld-musl-riscv64-lp64.so.1 lib/ld-musl-riscv64.so.1 lib/ld-musl-riscv64-sf.so.1`.
pub open spec fn musl_runtime_sources_spec() -> Seq<u8> {
    seq![109u8, 117u8, 115u8, 108u8, 47u8, 108u8, 105u8, 98u8, 47u8, 108u8, 105u8, 98u8, 99u8, 46u8, 115u8, 111u8, 32u8, 109u8, 117u8, 115u8, 108u8, 47u8, 108u8, 105u8, 98u8, 47u8, 108u8, 100u8, 45u8, 109u8, 117u8, 115u8, 108u8, 45u8, 114u8, 105u8, 115u8, 99u8, 118u8, 54u8, 52u8, 45u8, 108u8, 112u8, 54u8, 52u8, 100u8, 46u8, 115u8, 111u8, 46u8, 49u8, 32u8, 109u8, 117u8, 115u8, 108u8, 47u8, 108u8, 105u8, 98u8, 47u8, 108u8, 100u8, 45u8, 109u8, 117u8, 115u8, 108u8, 45u8, 114u8, 105u8, 115u8, 99u8, 118u8, 54u8, 52u8, 45u8, 108u8, 112u8, 54u8, 52u8, 46u8, 115u8, 111u8, 46u8, 49u8, 32u8, 109u8, 117u8, 115u8, 108u8, 47u8, 108u8, 105u8, 98u8, 47u8, 108u8, 100u8, 45u8, 109u8, 117u8, 115u8, 108u8, 45u8, 114u8, 105u8, 115u8, 99u8, 118u8, 54u8, 52u8, 46u8, 115u8, 111u8, 46u8, 49u8, 32u8, 109u8, 117u8, 115u8, 108u8, 47u8, 108u8, 105u8, 98u8, 47u8, 108u8, 100u8, 45u8, 109u8, 117u8, 115u8, 108u8, 45u8, 114u8, 105u8, 115u8, 99u8, 118u8, 54u8, 52u8, 45u8, 115u8, 102u8, 46u8, 115u8, 111u8, 46u8, 49u8, 32u8, 108u8, 105u8, 98u8, 47u8, 108u8, 100u8, 45u8, 109u8, 117u8, 115u8, 108u8, 45u8, 114u8, 105u8, 115u8, 99u8, 118u8, 54u8, 52u8, 45u8, 108u8, 112u8, 54u8, 52u8, 100u8, 46u8, 115u8, 111u8, 46u8, 49u8, 32u8, 108u8, 105u8, 98u8, 47u8, 108u8, 100u8, 45u8, 109u8, 117u8, 115u8, 108u8, 45u8, 114u8, 105u8, 115u8, 99u8, 118u8, 54u8, 52u8, 45u8, 108u8, 112u8, 54u8, 52u8, 46u8, 115u8, 111u8, 46u8, 49u8, 32u8, 108u8, 105u8, 98u8, 47u8, 108u8, 100u8, 45u8, 109u8, 117u8, 115u8, 108u8, 45u8, 114u8, 105u8, 115u8, 99u8, 118u8, 54u8, 52u8, 46u8, 115u8, 111u8, 46u8, 49u8, 32u8, 108u8, 105u8, 98u8, 47u8, 108u8, 100u8, 45u8, 109u8, 117u8, 115u8, 108u8, 45u8, 114u8, 105u8, 115u8, 99u8, 118u8, 54u8, 52u8, 45u8, 115u8, 102u8, 46u8, 115u8, 111u8, 46u8, 49u8]
}

/// The bytes of `musl/lib/libc.so musl/lib/ld-musl-riscv64-lp64d.so.1 musl/lib/ld-musl-riscv64-lp64.so.1 musl/lib/ld-musl-riscv64.so.1 musl/lib/ld-musl-riscv64-sf.so.1 lib/ld-musl-riscv64-lp64d.so.1 lib/ld-musl-riscv64-lp64.so.1 lib/ld-musl-riscv64.so.1 lib/ld-musl-riscv64-sf.so.1`.
pub fn musl_runtime_sources() -> (r: Vec<u8>)
    ensures
        r@ == musl_runtime_sources_spec(),
{
    let r: Vec<u8> = vec![109u8, 117u8, 115u8, 108u8, 47u8, 108u8, 105u8, 98u8, 47u8, 108u8, 105u8, 98u8, 99u8, 46u8, 115u8, 111u8, 32u8, 109u8, 117u8, 115u8, 108u8, 47u8, 108u8, 105u8, 98u8, 47u8, 108u8, 100u8, 45u8, 109u8, 117u8, 115u8, 108u8, 45u8, 114u8, 105u8, 115u8, 99u8, 118u8, 54u8, 52u8, 45u8, 108u8, 112u8, 54u8, 52u8, 100u8, 46u8, 115u8, 111u8, 46u8, 49u8, 32u8, 109u8, 117u8, 115u8, 108u8, 47u8, 108u8, 105u8, 98u8, 47u8, 108u8, 100u8, 45u8, 109u8, 117u8, 115u8, 108u8, 45u8, 114u8, 105u8, 115u8, 99u8, 118u8, 54u8, 52u8, 45u8, 108u8, 112u8, 54u8, 52u8, 46u8, 115u8, 111u8, 46u8, 49u8, 32u8, 109u8, 117u8, 115u8, 108u8, 47u8, 108u8, 105u8, 98u8, 47u8, 108u8, 100u8, 45u8, 109u8, 117u8, 115u8, 108u8, 45u8, 114u8, 105u8, 115u8, 99u8, 118u8, 54u8, 52u8, 46u8, 115u8, 111u8, 46u8, 49u8, 32u8, 109u8, 117u8, 115u8, 108u8, 47u8, 108u8, 105u8, 98u8, 47u8, 108u8, 100u8, 45u8, 109u8, 117u8, 115u8, 108u8, 45u8, 114u8, 105u8, 115u8, 99u8, 118u8, 54u8, 52u8, 45u8, 115u8, 102u8, 46u8, 115u8, 111u8, 46u8, 49u8, 32u8, 108u8, 105u8, 98u8, 47u8, 108u8, 100u8, 45u8, 109u8, 117u8, 115u8, 108u8, 45u8, 114u8, 105u8, 115u8, 99u8, 118u8, 54u8, 52u8, 45u8, 108u8, 112u8, 54u8, 52u8, 100u8, 46u8, 115u8, 111u8, 46u8, 49u8, 32u8, 108u8, 105u8, 98u8, 47u8, 108u8, 100u8, 45u8, 109u8, 117u8, 115u8, 108u8, 45u8, 114u8, 105u8, 115u8, 99u8, 118u8, 54u8, 52u8, 45u8, 108u8, 112u8, 54u8, 52u8, 46u8, 115u8, 111u8, 46u8, 49u8, 32u8, 108u8, 105u8, 98u8, 47u8, 108u8, 100u8, 45u8, 109u8, 117u8, 115u8, 108u8, 45u8, 114u8, 105u8, 115u8, 99u8, 118u8, 54u8, 52u8, 46u8, 115u8, 111u8, 46u8, 49u8, 32u8, 108u8, 105u8, 98u8, 47u8, 108u8, 100u8, 45u8, 109u8, 117u8, 115u8, 108u8, 45u8, 114u8, 105u8, 115u8, 99u8, 118u8, 54u8, 52u8, 45u8, 115u8, 102u8, 46u8, 115u8, 111u8, 46u8, 49u8];
    assert(r@ =~= musl_runtime_sources_spec());
    r
}

/// The bytes of `libc.so lib/libc.so lib/ld-musl-riscv64-lp64d.so.1 lib/ld-musl-riscv64-lp64.so.1 lib/ld-musl-riscv64.so.1 lib/ld-musl-riscv64-sf.so.1`.
pub open spec fn musl_runtime_names_spec() -> Seq<u8> {
    seq![108u8, 105u8, 98u8, 99u8, 46u8, 115u8, 111u8, 32u8, 108u8, 105u8, 98u8, 47u8, 108u8, 105u8, 98u8, 99u8, 46u8, 115u8, 111u8, 32u8, 108u8, 105u8, 98u8, 47u8, 108u8, 100u8, 45u8, 109u8, 117u8, 115u8, 108u8, 45u8, 114u8, 105u8, 115u8, 99u8, 118u8, 54u8, 52u8, 45u8, 108u8, 112u8, 54u8, 52u8, 100u8, 46u8, 115u8, 111u8, 46u8, 49u8, 32u8, 108u8, 105u8, 98u8, 47u8, 108u8, 100u8, 45u8, 109u8, 117u8, 115u8, 108u8, 45u8, 114u8, 105u8, 115u8, 99u8, 118u8, 54u8, 52u8, 45u8, 108u8, 112u8, 54u8, 52u8, 46u8, 115u8, 111u8, 46u8, 49u8, 32u8, 108u8, 105u8, 98u8, 47u8, 108u8, 100u8, 45u8, 109u8, 117u8, 115u8, 108u8, 45u8, 114u8, 105u8, 115u8, 99u8, 118u8, 54u8, 52u8, 46u8, 115u8, 111u8, 46u8, 49u8, 32u8, 108u8, 105u8, 98u8, 47u8, 108u8, 100u8, 45u8, 109u8, 117u8, 115u8, 108u8, 45u8, 114u8, 105u8, 115u8, 99u8, 118u8, 54u8, 52u8, 45u8, 115u8, 102u8, 46u8, 115u8, 111u8, 46u8, 49u8]
}

/// The bytes of `libc.so lib/libc.so lib/ld-musl-riscv64-lp64d.so.1 lib/ld-musl-riscv64-lp64.so.1 lib/ld-musl-riscv64.so.1 lib/ld-musl-riscv64-sf.so.1`.
pub fn musl_runtime_names() -> (r: Vec<u8>)
    ensures
        r@ == musl_runtime_names_spec(),
{
    let r: Vec<u8> = vec![108u8, 105u8, 98u8, 99u8, 46u8, 115u8, 111u8, 32u8, 108u8, 105u8, 98u8, 47u8, 108u8, 105u8, 98u8, 99u8, 46u8, 115u8, 111u8, 32u8, 108u8, 105u8, 98u8, 47u8, 108u8, 100u8, 45u8, 109u8, 117u8, 115u8, 108u8, 45u8, 114u8, 105u8, 115u8, 99u8, 118u8, 54u8, 52u8, 45u8, 108u8, 112u8, 54u8, 52u8, 100u8, 46u8, 115u8, 111u8, 46u8, 49u8, 32u8, 108u8, 105u8, 98u8, 47u8, 108u8, 100u8, 45u8, 109u8, 117u8, 115u8, 108u8, 45u8, 114u8, 105u8, 115u8, 99u8, 118u8, 54u8, 52u8, 45u8, 108u8, 112u8, 54u8, 52u8, 46u8, 115u8, 111u8, 46u8, 49u8, 32u8, 108u8, 105u8, 98u8, 47u8, 108u8, 100u8, 45u8, 109u8, 117u8, 115u8, 108u8, 45u8, 114u8, 105u8, 115u8, 99u8, 118u8, 54u8, 52u8, 46u8, 115u8, 111u8, 46u8, 49u8, 32u8, 108u8, 105u8, 98u8, 47u8, 108u8, 100u8, 45u8, 109u8, 117u8, 115u8, 108u8, 45u8, 114u8, 105u8, 115u8, 99u8, 118u8, 54u8, 52u8, 45u8, 115u8, 102u8, 46u8, 115u8, 111u8, 46u8, 49u8];
    assert(r@ =~= musl_runtime_names_spec());
    r
}

/// The bytes of `lib`.
pub open spec fn lib_dir_spec() -> Seq<u8> {
    seq![108u8, 105u8, 98u8]
}

/// The bytes of `lib`.
pub fn lib_dir() -> (r: Vec<u8>)
    ensures
        r@ == lib_dir_spec(),
{
    let r: Vec<u8> = vec![108u8, 105u8, 98u8];
    assert(r@ =~= lib_dir_spec());
    r
}

/// The bytes of `etc/ld-musl-riscv64.path`.
pub open spec fn musl_path_file_spec() -> Seq<u8> {
    seq![101u8, 116u8, 99u8, 47u8, 108u8, 100u8, 45u8, 109u8, 117u8, 115u8, 108u8, 45u8, 114u8, 105u8, 115u8, 99u8, 118u8, 54u8, 52u8, 46u8, 112u8, 97u8, 116u8, 104u8]
}

/// The bytes of `etc/ld-musl-riscv64.path`.
pub fn musl_path_file() -> (r: Vec<u8>)
    ensures
        r@ == musl_path_file_spec(),
{
    let r: Vec<u8> = vec![101u8, 116u8, 99u8, 47u8, 108u8, 100u8, 45u8, 109u8, 117u8, 115u8, 108u8, 45u8, 114u8, 105u8, 115u8, 99u8, 118u8, 54u8, 52u8, 46u8, 112u8, 97u8, 116u8, 104u8];
    assert(r@ =~= musl_path_file_spec());
    r
}

/// The bytes of `etc/ld-musl-riscv64-sf.path`.
pub open spec fn musl_sf_path_file_spec() -> Seq<u8> {
    seq![101u8, 116u8, 99u8, 47u8, 108u8, 100u8, 45u8, 109u8, 117u8, 115u8, 108u8, 45u8, 114u8, 105u8, 115u8, 99u8, 118u8, 54u8, 52u8, 45u8, 115u8, 102u8, 46u8, 112u8, 97u8, 116u8, 104u8]
}

/// The bytes of `etc/ld-musl-riscv64-sf.path`.
pub fn musl_sf_path_file() -> (r: Vec<u8>)
    ensures
        r@ == musl_sf_path_file_spec(),
{
    let r: Vec<u8> = vec![101u8, 116u8, 99u8, 47u8, 108u8, 100u8, 45u8, 109u8, 117u8, 115u8, 108u8, 45u8, 114u8, 105u8, 115u8, 99u8, 118u8, 54u8, 52u8, 45u8, 115u8, 102u8, 46u8, 112u8, 97u8, 116u8, 104u8];
    assert(r@ =~= musl_sf_path_file_spec());
    r
}

/// The bytes of `/\n/lib\n`.
pub open spec fn musl_path_content_spec() -> Seq<u8> {
    seq![47u8, 10u8, 47u8, 108u8, 105u8, 98u8, 10u8]
}

/// The bytes of `/\n/lib\n`.
pub fn musl_path_content() -> (r: Vec<u8>)
    ensures
        r@ == musl_path_content_spec(),
{
    let r: Vec<u8> = vec![47u8, 10u8, 47u8, 108u8, 105u8, 98u8, 10u8];
    assert(r@ =~= musl_path_content_spec());
    r
}

/// The bytes of `busybox_cmd.txt`.
pub open spec fn busybox_cmd_txt_spec() -> Seq<u8> {
    seq![98u8, 117u8, 115u8, 121u8, 98u8, 111u8, 120u8, 95u8, 99u8, 109u8, 100u8, 46u8, 116u8, 120u8, 116u8]
}

/// The bytes of `busybox_cmd.txt`.
pub fn busybox_cmd_txt() -> (r: Vec<u8>)
    ensures
        r@ == busybox_cmd_txt_spec(),
{
    let r: Vec<u8> = vec![98u8, 117u8, 115u8, 121u8, 98u8, 111u8, 120u8, 95u8, 99u8, 109u8, 100u8, 46u8, 116u8, 120u8, 116u8];
    assert(r@ =~= busybox_cmd_txt_spec());
    r
}

/// The bytes of `busybox_testcode.sh`.
pub open spec fn busybox_script_spec() -> Seq<u8> {
    seq![98u8, 117u8, 115u8, 121u8, 98u8, 111u8, 120u8, 95u8, 116u8, 101u8, 115u8, 116u8, 99u8, 111u8, 100u8, 101u8, 46u8, 115u8, 104u8]
}

/// The bytes of `busybox_testcode.sh`.
pub fn busybox_script() -> (r: Vec<u8>)
    ensures
        r@ == busybox_script_spec(),
{
    let r: Vec<u8> = vec![98u8, 117u8, 115u8, 121u8, 98u8, 111u8, 120u8, 95u8, 116u8, 101u8, 115u8, 116u8, 99u8, 111u8, 100u8, 101u8, 46u8, 115u8, 104u8];
    assert(r@ =~= busybox_script_spec());
    r
}

/// The bytes of `ls`.
pub open spec fn ls_word_spec() -> Seq<u8> {
    seq![108u8, 115u8]
}

/// The bytes of `ls`.
pub fn ls_word() -> (r: Vec<u8>)
    ensures
        r@ == ls_word_spec(),
{
    let r: Vec<u8> = vec![108u8, 115u8];
    assert(r@ =~= ls_word_spec());
    r
}

/// The bytes of `lua`.
pub open spec fn lua_word_spec() -> Seq<u8> {
    seq![108u8, 117u8, 97u8]
}

/// The bytes of `lua`.
pub fn lua_word() -> (r: Vec<u8>)
    ensures
        r@ == lua_word_spec(),
{
    let r: Vec<u8> = vec![108u8, 117u8, 97u8];
    assert(r@ =~= lua_word_spec());
    r
}

/// The bytes of `lua_testcode.sh`.
pub open spec fn lua_script_spec() -> Seq<u8> {
    seq![108u8, 117u8, 97u8, 95u8, 116u8, 101u8, 115u8, 116u8, 99u8, 111u8, 100u8, 101u8, 46u8, 115u8, 104u8]
}

/// The bytes of `lua_testcode.sh`.
pub fn lua_script() -> (r: Vec<u8>)
    ensures
        r@ == lua_script_spec(),
{
    let r: Vec<u8> = vec![108u8, 117u8, 97u8, 95u8, 116u8, 101u8, 115u8, 116u8, 99u8, 111u8, 100u8, 101u8, 46u8, 115u8, 104u8];
    assert(r@ =~= lua_script_spec());
    r
}

/// The bytes of `test.sh date.lua file_io.lua max_min.lua random.lua remove.lua round_num.lua sin30.lua sort.lua strings.lua`.
pub open spec fn lua_resources_spec() -> Seq<u8> {
    seq![116u8, 101u8, 115u8, 116u8, 46u8, 115u8, 104u8, 32u8, 100u8, 97u8, 116u8, 101u8, 46u8, 108u8, 117u8, 97u8, 32u8, 102u8, 105u8, 108u8, 101u8, 95u8, 105u8, 111u8, 46u8, 108u8, 117u8, 97u8, 32u8, 109u8, 97u8, 120u8, 95u8, 109u8, 105u8, 110u8, 46u8, 108u8, 117u8, 97u8, 32u8, 114u8, 97u8, 110u8, 100u8, 111u8, 109u8, 46u8, 108u8, 117u8, 97u8, 32u8, 114u8, 101u8, 109u8, 111u8, 118u8, 101u8, 46u8, 108u8, 117u8, 97u8, 32u8, 114u8, 111u8, 117u8, 110u8, 100u8, 95u8, 110u8, 117u8, 109u8, 46u8, 108u8, 117u8, 97u8, 32u8, 115u8, 105u8, 110u8, 51u8, 48u8, 46u8, 108u8, 117u8, 97u8, 32u8, 115u8, 111u8, 114u8, 116u8, 46u8, 108u8, 117u8, 97u8, 32u8, 115u8, 116u8, 114u8, 105u8, 110u8, 103u8, 115u8, 46u8, 108u8, 117u8, 97u8]
}

/// The bytes of `test.sh date.lua file_io.lua max_min.lua random.lua remove.lua round_num.lua sin30.lua sort.lua strings.lua`.
pub fn lua_resources() -> (r: Vec<u8>)
    ensures
        r@ == lua_resources_spec(),
{
    let r: Vec<u8> = vec![116u8, 101u8, 115u8, 116u8, 46u8, 115u8, 104u8, 32u8, 100u8, 97u8, 116u8, 101u8, 46u8, 108u8, 117u8, 97u8, 32u8, 102u8, 105u8, 108u8, 101u8, 95u8, 105u8, 111u8, 46u8, 108u8, 117u8, 97u8, 32u8, 109u8, 97u8, 120u8, 95u8, 109u8, 105u8, 110u8, 46u8, 108u8, 117u8, 97u8, 32u8, 114u8, 97u8, 110u8, 100u8, 111u8, 109u8, 46u8, 108u8, 117u8, 97u8, 32u8, 114u8, 101u8, 109u8, 111u8, 118u8, 101u8, 46u8, 108u8, 117u8, 97u8, 32u8, 114u8, 111u8, 117u8, 110u8, 100u8, 95u8, 110u8, 117u8, 109u8, 46u8, 108u8, 117u8, 97u8, 32u8, 115u8, 105u8, 110u8, 51u8, 48u8, 46u8, 108u8, 117u8, 97u8, 32u8, 115u8, 111u8, 114u8, 116u8, 46u8, 108u8, 117u8, 97u8, 32u8, 115u8, 116u8, 114u8, 105u8, 110u8, 103u8, 115u8, 46u8, 108u8, 117u8, 97u8];
    assert(r@ =~= lua_resources_spec());
    r
}

/// The bytes of `libc-bench`.
pub open spec fn libc_bench_spec() -> Seq<u8> {
    seq![108u8, 105u8, 98u8, 99u8, 45u8, 98u8, 101u8, 110u8, 99u8, 104u8]
}

/// The bytes of `libc-bench`.
pub fn libc_bench() -> (r: Vec<u8>)
    ensures
        r@ == libc_bench_spec(),
{
    let r: Vec<u8> = vec![108u8, 105u8, 98u8, 99u8, 45u8, 98u8, 101u8, 110u8, 99u8, 104u8];
    assert(r@ =~= libc_bench_spec());
    r
}

/// The bytes of `libcbench_testcode.sh`.
pub open spec fn libcbench_script_spec() -> Seq<u8> {
    seq![108u8, 105u8, 98u8, 99u8, 98u8, 101u8, 110u8, 99u8, 104u8, 95u8, 116u8, 101u8, 115u8, 116u8, 99u8, 111u8, 100u8, 101u8, 46u8, 115u8, 104u8]
}

/// The bytes of `libcbench_testcode.sh`.
pub fn libcbench_script() -> (r: Vec<u8>)
    ensures
        r@ == libcbench_script_spec(),
{
    let r: Vec<u8> = vec![108u8, 105u8, 98u8, 99u8, 98u8, 101u8, 110u8, 99u8, 104u8, 95u8, 116u8, 101u8, 115u8, 116u8, 99u8, 111u8, 100u8, 101u8, 46u8, 115u8, 104u8];
    assert(r@ =~= libcbench_script_spec());
    r
}

/// The bytes of `run-static.sh run-static libctest/run-static.sh libctest/run-static libc-test/run-static.sh libc-test/run-static`.
pub open spec fn libctest_run_static_names_spec() -> Seq<u8> {
    seq![114u8, 117u8, 110u8, 45u8, 115u8, 116u8, 97u8, 116u8, 105u8, 99u8, 46u8, 115u8, 104u8, 32u8, 114u8, 117u8, 110u8, 45u8, 115u8, 116u8, 97u8, 116u8, 105u8, 99u8, 32u8, 108u8, 105u8, 98u8, 99u8, 116u8, 101u8, 115u8, 116u8, 47u8, 114u8, 117u8, 110u8, 45u8, 115u8, 116u8, 97u8, 116u8, 105u8, 99u8, 46u8, 115u8, 104u8, 32u8, 108u8, 105u8, 98u8, 99u8, 116u8, 101u8, 115u8, 116u8, 47u8, 114u8, 117u8, 110u8, 45u8, 115u8, 116u8, 97u8, 116u8, 105u8, 99u8, 32u8, 108u8, 105u8, 98u8, 99u8, 45u8, 116u8, 101u8, 115u8, 116u8, 47u8, 114u8, 117u8, 110u8, 45u8, 115u8, 116u8, 97u8, 116u8, 105u8, 99u8, 46u8, 115u8, 104u8, 32u8, 108u8, 105u8, 98u8, 99u8, 45u8, 116u8, 101u8, 115u8, 116u8, 47u8, 114u8, 117u8, 110u8, 45u8, 115u8, 116u8, 97u8, 116u8, 105u8, 99u8]
}

/// The bytes of `run-static.sh run-static libctest/run-static.sh libctest/run-static libc-test/run-static.sh libc-test/run-static`.
pub fn libctest_run_static_names() -> (r: Vec<u8>)
    ensures
        r@ == libctest_run_static_names_spec(),
{
    let r: Vec<u8> = vec![114u8, 117u8, 110u8, 45u8, 115u8, 116u8, 97u8, 116u8, 105u8, 99u8, 46u8, 115u8, 104u8, 32u8, 114u8, 117u8, 110u8, 45u8, 115u8, 116u8, 97u8, 116u8, 105u8, 99u8, 32u8, 108u8, 105u8, 98u8, 99u8, 116u8, 101u8, 115u8, 116u8, 47u8, 114u8, 117u8, 110u8, 45u8, 115u8, 116u8, 97u8, 116u8, 105u8, 99u8, 46u8, 115u8, 104u8, 32u8, 108u8, 105u8, 98u8, 99u8, 116u8, 101u8, 115u8, 116u8, 47u8, 114u8, 117u8, 110u8, 45u8, 115u8, 116u8, 97u8, 116u8, 105u8, 99u8, 32u8, 108u8, 105u8, 98u8, 99u8, 45u8, 116u8, 101u8, 115u8, 116u8, 47u8, 114u8, 117u8, 110u8, 45u8, 115u8, 116u8, 97u8, 116u8, 105u8, 99u8, 46u8, 115u8, 104u8, 32u8, 108u8, 105u8, 98u8, 99u8, 45u8, 116u8, 101u8, 115u8, 116u8, 47u8, 114u8, 117u8, 110u8, 45u8, 115u8, 116u8, 97u8, 116u8, 105u8, 99u8];
    assert(r@ =~= libctest_run_static_names_spec());
    r
}

/// The bytes of `entry-static.exe libctest/entry-static.exe libc-test/entry-static.exe`.
pub open spec fn libctest_entry_names_spec() -> Seq<u8> {
    seq![101u8, 110u8, 116u8, 114u8, 121u8, 45u8, 115u8, 116u8, 97u8, 116u8, 105u8, 99u8, 46u8, 101u8, 120u8, 101u8, 32u8, 108u8, 105u8, 98u8, 99u8, 116u8, 101u8, 115u8, 116u8, 47u8, 101u8, 110u8, 116u8, 114u8, 121u8, 45u8, 115u8, 116u8, 97u8, 116u8, 105u8, 99u8, 46u8, 101u8, 120u8, 101u8, 32u8, 108u8, 105u8, 98u8, 99u8, 45u8, 116u8, 101u8, 115u8, 116u8, 47u8, 101u8, 110u8, 116u8, 114u8, 121u8, 45u8, 115u8, 116u8, 97u8, 116u8, 105u8, 99u8, 46u8, 101u8, 120u8, 101u8]
}

/// The bytes of `entry-static.exe libctest/entry-static.exe libc-test/entry-static.exe`.
pub fn libctest_entry_names() -> (r: Vec<u8>)
    ensures
        r@ == libctest_entry_names_spec(),
{
    let r: Vec<u8> = vec![101u8, 110u8, 116u8, 114u8, 121u8, 45u8, 115u8, 116u8, 97u8, 116u8, 105u8, 99u8, 46u8, 101u8, 120u8, 101u8, 32u8, 108u8, 105u8, 98u8, 99u8, 116u8, 101u8, 115u8, 116u8, 47u8, 101u8, 110u8, 116u8, 114u8, 121u8, 45u8, 115u8, 116u8, 97u8, 116u8, 105u8, 99u8, 46u8, 101u8, 120u8, 101u8, 32u8, 108u8, 105u8, 98u8, 99u8, 45u8, 116u8, 101u8, 115u8, 116u8, 47u8, 101u8, 110u8, 116u8, 114u8, 121u8, 45u8, 115u8, 116u8, 97u8, 116u8, 105u8, 99u8, 46u8, 101u8, 120u8, 101u8];
    assert(r@ =~= libctest_entry_names_spec());
    r
}

/// The bytes of `runtest.exe libctest/runtest.exe libc-test/runtest.exe`.
pub open spec fn libctest_runtest_names_spec() -> Seq<u8> {
    seq![114u8, 117u8, 110u8, 116u8, 101u8, 115u8, 116u8, 46u8, 101u8, 120u8, 101u8, 32u8, 108u8, 105u8, 98u8, 99u8, 116u8, 101u8, 115u8, 116u8, 47u8, 114u8, 117u8, 110u8, 116u8, 101u8, 115u8, 116u8, 46u8, 101u8, 120u8, 101u8, 32u8, 108u8, 105u8, 98u8, 99u8, 45u8, 116u8, 101u8, 115u8, 116u8, 47u8, 114u8, 117u8, 110u8, 116u8, 101u8, 115u8, 116u8, 46u8, 101u8, 120u8, 101u8]
}

/// The bytes of `runtest.exe libctest/runtest.exe libc-test/runtest.exe`.
pub fn libctest_runtest_names() -> (r: Vec<u8>)
    ensures
        r@ == libctest_runtest_names_spec(),
{
    let r: Vec<u8> = vec![114u8, 117u8, 110u8, 116u8, 101u8, 115u8, 116u8, 46u8, 101u8, 120u8, 101u8, 32u8, 108u8, 105u8, 98u8, 99u8, 116u8, 101u8, 115u8, 116u8, 47u8, 114u8, 117u8, 110u8, 116u8, 101u8, 115u8, 116u8, 46u8, 101u8, 120u8, 101u8, 32u8, 108u8, 105u8, 98u8, 99u8, 45u8, 116u8, 101u8, 115u8, 116u8, 47u8, 114u8, 117u8, 110u8, 116u8, 101u8, 115u8, 116u8, 46u8, 101u8, 120u8, 101u8];
    assert(r@ =~= libctest_runtest_names_spec());
    r
}

/// The bytes of `libctest_testcode.sh`.
pub open spec fn libctest_script_spec() -> Seq<u8> {
    seq![108u8, 105u8, 98u8, 99u8, 116u8, 101u8, 115u8, 116u8, 95u8, 116u8, 101u8, 115u8, 116u8, 99u8, 111u8, 100u8, 101u8, 46u8, 115u8, 104u8]
}

/// The bytes of `libctest_testcode.sh`.
pub fn libctest_script() -> (r: Vec<u8>)
    ensures
        r@ == libctest_script_spec(),
{
    let r: Vec<u8> = vec![108u8, 105u8, 98u8, 99u8, 116u8, 101u8, 115u8, 116u8, 95u8, 116u8, 101u8, 115u8, 116u8, 99u8, 111u8, 100u8, 101u8, 46u8, 115u8, 104u8];
    assert(r@ =~= libctest_script_spec());
    r
}

/// The bytes of `run-static.sh`.
pub open spec fn run_static_sh_spec() -> Seq<u8> {
    seq![114u8, 117u8, 110u8, 45u8, 115u8, 116u8, 97u8, 116u8, 105u8, 99u8, 46u8, 115u8, 104u8]
}

/// The bytes of `run-static.sh`.
pub fn run_static_sh() -> (r: Vec<u8>)
    ensures
        r@ == run_static_sh_spec(),
{
    let r: Vec<u8> = vec![114u8, 117u8, 110u8, 45u8, 115u8, 116u8, 97u8, 116u8, 105u8, 99u8, 46u8, 115u8, 104u8];
    assert(r@ =~= run_static_sh_spec());
    r
}

/// The bytes of `lmbench_all bin/lmbench_all lmbench/bin/lmbench_all`.
pub open spec fn lmbench_names_spec() -> Seq<u8> {
    seq![108u8, 109u8, 98u8, 101u8, 110u8, 99u8, 104u8, 95u8, 97u8, 108u8, 108u8, 32u8, 98u8, 105u8, 110u8, 47u8, 108u8, 109u8, 98u8, 101u8, 110u8, 99u8, 104u8, 95u8, 97u8, 108u8, 108u8, 32u8, 108u8, 109u8, 98u8, 101u8, 110u8, 99u8, 104u8, 47u8, 98u8, 105u8, 110u8, 47u8, 108u8, 109u8, 98u8, 101u8, 110u8, 99u8, 104u8, 95u8, 97u8, 108u8, 108u8]
}

/// The bytes of `lmbench_all bin/lmbench_all lmbench/bin/lmbench_all`.
pub fn lmbench_names() -> (r: Vec<u8>)
    ensures
        r@ == lmbench_names_spec(),
{
    let r: Vec<u8> = vec![108u8, 109u8, 98u8, 101u8, 110u8, 99u8, 104u8, 95u8, 97u8, 108u8, 108u8, 32u8, 98u8, 105u8, 110u8, 47u8, 108u8, 109u8, 98u8, 101u8, 110u8, 99u8, 104u8, 95u8, 97u8, 108u8, 108u8, 32u8, 108u8, 109u8, 98u8, 101u8, 110u8, 99u8, 104u8, 47u8, 98u8, 105u8, 110u8, 47u8, 108u8, 109u8, 98u8, 101u8, 110u8, 99u8, 104u8, 95u8, 97u8, 108u8, 108u8];
    assert(r@ =~= lmbench_names_spec());
    r
}

/// The bytes of `lmbench_testcode.sh`.
pub open spec fn lmbench_script_spec() -> Seq<u8> {
    seq![108u8, 109u8, 98u8, 101u8, 110u8, 99u8, 104u8, 95u8, 116u8, 101u8, 115u8, 116u8, 99u8, 111u8, 100u8, 101u8, 46u8, 115u8, 104u8]
}

/// The bytes of `lmbench_testcode.sh`.
pub fn lmbench_script() -> (r: Vec<u8>)
    ensures
        r@ == lmbench_script_spec(),
{
    let r: Vec<u8> = vec![108u8, 109u8, 98u8, 101u8, 110u8, 99u8, 104u8, 95u8, 116u8, 101u8, 115u8, 116u8, 99u8, 111u8, 100u8, 101u8, 46u8, 115u8, 104u8];
    assert(r@ =~= lmbench_script_spec());
    r
}

/// The bytes of `hello`.
pub open spec fn hello_word_spec() -> Seq<u8> {
    seq![104u8, 101u8, 108u8, 108u8, 111u8]
}

/// The bytes of `hello`.
pub fn hello_word() -> (r: Vec<u8>)
    ensures
        r@ == hello_word_spec(),
{
    let r: Vec<u8> = vec![104u8, 101u8, 108u8, 108u8, 111u8];
    assert(r@ =~= hello_word_spec());
    r
}

/// The bytes of `lat_sig`.
pub open spec fn lat_sig_spec() -> Seq<u8> {
    seq![108u8, 97u8, 116u8, 95u8, 115u8, 105u8, 103u8]
}

/// The bytes of `lat_sig`.
pub fn lat_sig() -> (r: Vec<u8>)
    ensures
        r@ == lat_sig_spec(),
{
    let r: Vec<u8> = vec![108u8, 97u8, 116u8, 95u8, 115u8, 105u8, 103u8];
    assert(r@ =~= lat_sig_spec());
    r
}

/// The bytes of `var/tmp`.
pub open spec fn var_tmp_spec() -> Seq<u8> {
    seq![118u8, 97u8, 114u8, 47u8, 116u8, 109u8, 112u8]
}

/// The bytes of `var/tmp`.
pub fn var_tmp() -> (r: Vec<u8>)
    ensures
        r@ == var_tmp_spec(),
{
    let r: Vec<u8> = vec![118u8, 97u8, 114u8, 47u8, 116u8, 109u8, 112u8];
    assert(r@ =~= var_tmp_spec());
    r
}

/// The bytes of `tmp`.
pub open spec fn tmp_word_spec() -> Seq<u8> {
    seq![116u8, 109u8, 112u8]
}

/// The bytes of `tmp`.
pub fn tmp_word() -> (r: Vec<u8>)
    ensures
        r@ == tmp_word_spec(),
{
    let r: Vec<u8> = vec![116u8, 109u8, 112u8];
    assert(r@ =~= tmp_word_spec());
    r
}

/// The bytes of `var/tmp/lmbench`.
pub open spec fn var_tmp_lmbench_spec() -> Seq<u8> {
    seq![118u8, 97u8, 114u8, 47u8, 116u8, 109u8, 112u8, 47u8, 108u8, 109u8, 98u8, 101u8, 110u8, 99u8, 104u8]
}

/// The bytes of `var/tmp/lmbench`.
pub fn var_tmp_lmbench() -> (r: Vec<u8>)
    ensures
        r@ == var_tmp_lmbench_spec(),
{
    let r: Vec<u8> = vec![118u8, 97u8, 114u8, 47u8, 116u8, 109u8, 112u8, 47u8, 108u8, 109u8, 98u8, 101u8, 110u8, 99u8, 104u8];
    assert(r@ =~= var_tmp_lmbench_spec());
    r
}

/// The bytes of `var/tmp/XXX`.
pub open spec fn var_tmp_xxx_spec() -> Seq<u8> {
    seq![118u8, 97u8, 114u8, 47u8, 116u8, 109u8, 112u8, 47u8, 88u8, 88u8, 88u8]
}

/// The bytes of `var/tmp/XXX`.
pub fn var_tmp_xxx() -> (r: Vec<u8>)
    ensures
        r@ == var_tmp_xxx_spec(),
{
    let r: Vec<u8> = vec![118u8, 97u8, 114u8, 47u8, 116u8, 109u8, 112u8, 47u8, 88u8, 88u8, 88u8];
    assert(r@ =~= var_tmp_xxx_spec());
    r
}

/// The bytes of `tmp/hello`.
pub open spec fn tmp_hello_spec() -> Seq<u8> {
    seq![116u8, 109u8, 112u8, 47u8, 104u8, 101u8, 108u8, 108u8, 111u8]
}

/// The bytes of `tmp/hello`.
pub fn tmp_hello() -> (r: Vec<u8>)
    ensures
        r@ == tmp_hello_spec(),
{
    let r: Vec<u8> = vec![116u8, 109u8, 112u8, 47u8, 104u8, 101u8, 108u8, 108u8, 111u8];
    assert(r@ =~= tmp_hello_spec());
    r
}

/// The bytes of `lat_syscall -P 1 -W 1 -N 10 null\nlat_syscall -P 1 -W 1 -N 10 read\nlat_syscall -P 1 -W 1 -N 10 write\nlat_syscall -P 1 -W 1 -N 10 stat /var/tmp/lmbench\nlat_syscall -P 1 -W 1 -N 10 fstat /var/tmp/lmbench\nlat_syscall -P 1 -W 1 -N 10 open /var/tmp/lmbench\nlat_select -n 100 -P 1 -W 1 -N 10 file\nlat_sig -P 1 -W 1 -N 10 install\nlat_sig -P 1 -W 1 -N 10 catch`.
pub open spec fn lmbench_commands_spec() -> Seq<u8> {
    seq![108u8, 97u8, 116u8, 95u8, 115u8, 121u8, 115u8, 99u8, 97u8, 108u8, 108u8, 32u8, 45u8, 80u8, 32u8, 49u8, 32u8, 45u8, 87u8, 32u8, 49u8, 32u8, 45u8, 78u8, 32u8, 49u8, 48u8, 32u8, 110u8, 117u8, 108u8, 108u8, 10u8, 108u8, 97u8, 116u8, 95u8, 115u8, 121u8, 115u8, 99u8, 97u8, 108u8, 108u8, 32u8, 45u8, 80u8, 32u8, 49u8, 32u8, 45u8, 87u8, 32u8, 49u8, 32u8, 45u8, 78u8, 32u8, 49u8, 48u8, 32u8, 114u8, 101u8, 97u8, 100u8, 10u8, 108u8, 97u8, 116u8, 95u8, 115u8, 121u8, 115u8, 99u8, 97u8, 108u8, 108u8, 32u8, 45u8, 80u8, 32u8, 49u8, 32u8, 45u8, 87u8, 32u8, 49u8, 32u8, 45u8, 78u8, 32u8, 49u8, 48u8, 32u8, 119u8, 114u8, 105u8, 116u8, 101u8, 10u8, 108u8, 97u8, 116u8, 95u8, 115u8, 121u8, 115u8, 99u8, 97u8, 108u8, 108u8, 32u8, 45u8, 80u8, 32u8, 49u8, 32u8, 45u8, 87u8, 32u8, 49u8, 32u8, 45u8, 78u8, 32u8, 49u8, 48u8, 32u8, 115u8, 116u8, 97u8, 116u8, 32u8, 47u8, 118u8, 97u8, 114u8, 47u8, 116u8, 109u8, 112u8, 47u8, 108u8, 109u8, 98u8, 101u8, 110u8, 99u8, 104u8, 10u8, 108u8, 97u8, 116u8, 95u8, 115u8, 121u8, 115u8, 99u8, 97u8, 108u8, 108u8, 32u8, 45u8, 80u8, 32u8, 49u8, 32u8, 45u8, 87u8, 32u8, 49u8, 32u8, 45u8, 78u8, 32u8, 49u8, 48u8, 32u8, 102u8, 115u8, 116u8, 97u8, 116u8, 32u8, 47u8, 118u8, 97u8, 114u8, 47u8, 116u8, 109u8, 112u8, 47u8, 108u8, 109u8, 98u8, 101u8, 110u8, 99u8, 104u8, 10u8, 108u8, 97u8, 116u8, 95u8, 115u8, 121u8, 115u8, 99u8, 97u8, 108u8, 108u8, 32u8, 45u8, 80u8, 32u8, 49u8, 32u8, 45u8, 87u8, 32u8, 49u8, 32u8, 45u8, 78u8, 32u8, 49u8, 48u8, 32u8, 111u8, 112u8, 101u8, 110u8, 32u8, 47u8, 118u8, 97u8, 114u8, 47u8, 116u8, 109u8, 112u8, 47u8, 108u8, 109u8, 98u8, 101u8, 110u8, 99u8, 104u8, 10u8, 108u8, 97u8, 116u8, 95u8, 115u8, 101u8, 108u8, 101u8, 99u8, 116u8, 32u8, 45u8, 110u8, 32u8, 49u8, 48u8, 48u8, 32u8, 45u8, 80u8, 32u8, 49u8, 32u8, 45u8, 87u8, 32u8, 49u8, 32u8, 45u8, 78u8, 32u8, 49u8, 48u8, 32u8, 102u8, 105u8, 108u8, 101u8, 10u8, 108u8, 97u8, 116u8, 95u8, 115u8, 105u8, 103u8, 32u8, 45u8, 80u8, 32u8, 49u8, 32u8, 45u8, 87u8, 32u8, 49u8, 32u8, 45u8, 78u8, 32u8, 49u8, 48u8, 32u8, 105u8, 110u8, 115u8, 116u8, 97u8, 108u8, 108u8, 10u8, 108u8, 97u8, 116u8, 95u8, 115u8, 105u8, 103u8, 32u8, 45u8, 80u8, 32u8, 49u8, 32u8, 45u8, 87u8, 32u8, 49u8, 32u8, 45u8, 78u8, 32u8, 49u8, 48u8, 32u8, 99u8, 97u8, 116u8, 99u8, 104u8]
}

/// The bytes of `lat_syscall -P 1 -W 1 -N 10 null\nlat_syscall -P 1 -W 1 -N 10 read\nlat_syscall -P 1 -W 1 -N 10 write\nlat_syscall -P 1 -W 1 -N 10 stat /var/tmp/lmbench\nlat_syscall -P 1 -W 1 -N 10 fstat /var/tmp/lmbench\nlat_syscall -P 1 -W 1 -N 10 open /var/tmp/lmbench\nlat_select -n 100 -P 1 -W 1 -N 10 file\nlat_sig -P 1 -W 1 -N 10 install\nlat_sig -P 1 -W 1 -N 10 catch`.
pub fn lmbench_commands() -> (r: Vec<u8>)
    ensures
        r@ == lmbench_commands_spec(),
{
    let r: Vec<u8> = vec![108u8, 97u8, 116u8, 95u8, 115u8, 121u8, 115u8, 99u8, 97u8, 108u8, 108u8, 32u8, 45u8, 80u8, 32u8, 49u8, 32u8, 45u8, 87u8, 32u8, 49u8, 32u8, 45u8, 78u8, 32u8, 49u8, 48u8, 32u8, 110u8, 117u8, 108u8, 108u8, 10u8, 108u8, 97u8, 116u8, 95u8, 115u8, 121u8, 115u8, 99u8, 97u8, 108u8, 108u8, 32u8, 45u8, 80u8, 32u8, 49u8, 32u8, 45u8, 87u8, 32u8, 49u8, 32u8, 45u8, 78u8, 32u8, 49u8, 48u8, 32u8, 114u8, 101u8, 97u8, 100u8, 10u8, 108u8, 97u8, 116u8, 95u8, 115u8, 121u8, 115u8, 99u8, 97u8, 108u8, 108u8, 32u8, 45u8, 80u8, 32u8, 49u8, 32u8, 45u8, 87u8, 32u8, 49u8, 32u8, 45u8, 78u8, 32u8, 49u8, 48u8, 32u8, 119u8, 114u8, 105u8, 116u8, 101u8, 10u8, 108u8, 97u8, 116u8, 95u8, 115u8, 121u8, 115u8, 99u8, 97u8, 108u8, 108u8, 32u8, 45u8, 80u8, 32u8, 49u8, 32u8, 45u8, 87u8, 32u8, 49u8, 32u8, 45u8, 78u8, 32u8, 49u8, 48u8, 32u8, 115u8, 116u8, 97u8, 116u8, 32u8, 47u8, 118u8, 97u8, 114u8, 47u8, 116u8, 109u8, 112u8, 47u8, 108u8, 109u8, 98u8, 101u8, 110u8, 99u8, 104u8, 10u8, 108u8, 97u8, 116u8, 95u8, 115u8, 121u8, 115u8, 99u8, 97u8, 108u8, 108u8, 32u8, 45u8, 80u8, 32u8, 49u8, 32u8, 45u8, 87u8, 32u8, 49u8, 32u8, 45u8, 78u8, 32u8, 49u8, 48u8, 32u8, 102u8, 115u8, 116u8, 97u8, 116u8, 32u8, 47u8, 118u8, 97u8, 114u8, 47u8, 116u8, 109u8, 112u8, 47u8, 108u8, 109u8, 98u8, 101u8, 110u8, 99u8, 104u8, 10u8, 108u8, 97u8, 116u8, 95u8, 115u8, 121u8, 115u8, 99u8, 97u8, 108u8, 108u8, 32u8, 45u8, 80u8, 32u8, 49u8, 32u8, 45u8, 87u8, 32u8, 49u8, 32u8, 45u8, 78u8, 32u8, 49u8, 48u8, 32u8, 111u8, 112u8, 101u8, 110u8, 32u8, 47u8, 118u8, 97u8, 114u8, 47u8, 116u8, 109u8, 112u8, 47u8, 108u8, 109u8, 98u8, 101u8, 110u8, 99u8, 104u8, 10u8, 108u8, 97u8, 116u8, 95u8, 115u8, 101u8, 108u8, 101u8, 99u8, 116u8, 32u8, 45u8, 110u8, 32u8, 49u8, 48u8, 48u8, 32u8, 45u8, 80u8, 32u8, 49u8, 32u8, 45u8, 87u8, 32u8, 49u8, 32u8, 45u8, 78u8, 32u8, 49u8, 48u8, 32u8, 102u8, 105u8, 108u8, 101u8, 10u8, 108u8, 97u8, 116u8, 95u8, 115u8, 105u8, 103u8, 32u8, 45u8, 80u8, 32u8, 49u8, 32u8, 45u8, 87u8, 32u8, 49u8, 32u8, 45u8, 78u8, 32u8, 49u8, 48u8, 32u8, 105u8, 110u8, 115u8, 116u8, 97u8, 108u8, 108u8, 10u8, 108u8, 97u8, 116u8, 95u8, 115u8, 105u8, 103u8, 32u8, 45u8, 80u8, 32u8, 49u8, 32u8, 45u8, 87u8, 32u8, 49u8, 32u8, 45u8, 78u8, 32u8, 49u8, 48u8, 32u8, 99u8, 97u8, 116u8, 99u8, 104u8];
    assert(r@ =~= lmbench_commands_spec());
    r
}

/// The bytes of `getpid01 getpid02 getppid01 getuid01 geteuid01 getgid03 getegid02 gettid01 time01 uname01 gettimeofday01 getpagesize01`.
pub open spec fn ltp_allowlist_spec() -> Seq<u8> {
    seq![103u8, 101u8, 116u8, 112u8, 105u8, 100u8, 48u8, 49u8, 32u8, 103u8, 101u8, 116u8, 112u8, 105u8, 100u8, 48u8, 50u8, 32u8, 103u8, 101u8, 116u8, 112u8, 112u8, 105u8, 100u8, 48u8, 49u8, 32u8, 103u8, 101u8, 116u8, 117u8, 105u8, 100u8, 48u8, 49u8, 32u8, 103u8, 101u8, 116u8, 101u8, 117u8, 105u8, 100u8, 48u8, 49u8, 32u8, 103u8, 101u8, 116u8, 103u8, 105u8, 100u8, 48u8, 51u8, 32u8, 103u8, 101u8, 116u8, 101u8, 103u8, 105u8, 100u8, 48u8, 50u8, 32u8, 103u8, 101u8, 116u8, 116u8, 105u8, 100u8, 48u8, 49u8, 32u8, 116u8, 105u8, 109u8, 101u8, 48u8, 49u8, 32u8, 117u8, 110u8, 97u8, 109u8, 101u8, 48u8, 49u8, 32u8, 103u8, 101u8, 116u8, 116u8, 105u8, 109u8, 101u8, 111u8, 102u8, 100u8, 97u8, 121u8, 48u8, 49u8, 32u8, 103u8, 101u8, 116u8, 112u8, 97u8, 103u8, 101u8, 115u8, 105u8, 122u8, 101u8, 48u8, 49u8]
}

/// The bytes of `getpid01 getpid02 getppid01 getuid01 geteuid01 getgid03 getegid02 gettid01 time01 uname01 gettimeofday01 getpagesize01`.
pub fn ltp_allowlist() -> (r: Vec<u8>)
    ensures
        r@ == ltp_allowlist_spec(),
{
    let r: Vec<u8> = vec![103u8, 101u8, 116u8, 112u8, 105u8, 100u8, 48u8, 49u8, 32u8, 103u8, 101u8, 116u8, 112u8, 105u8, 100u8, 48u8, 50u8, 32u8, 103u8, 101u8, 116u8, 112u8, 112u8, 105u8, 100u8, 48u8, 49u8, 32u8, 103u8, 101u8, 116u8, 117u8, 105u8, 100u8, 48u8, 49u8, 32u8, 103u8, 101u8, 116u8, 101u8, 117u8, 105u8, 100u8, 48u8, 49u8, 32u8, 103u8, 101u8, 116u8, 103u8, 105u8, 100u8, 48u8, 51u8, 32u8, 103u8, 101u8, 116u8, 101u8, 103u8, 105u8, 100u8, 48u8, 50u8, 32u8, 103u8, 101u8, 116u8, 116u8, 105u8, 100u8, 48u8, 49u8, 32u8, 116u8, 105u8, 109u8, 101u8, 48u8, 49u8, 32u8, 117u8, 110u8, 97u8, 109u8, 101u8, 48u8, 49u8, 32u8, 103u8, 101u8, 116u8, 116u8, 105u8, 109u8, 101u8, 111u8, 102u8, 100u8, 97u8, 121u8, 48u8, 49u8, 32u8, 103u8, 101u8, 116u8, 112u8, 97u8, 103u8, 101u8, 115u8, 105u8, 122u8, 101u8, 48u8, 49u8];
    assert(r@ =~= ltp_allowlist_spec());
    r
}

/// The bytes of `tests`.
pub open spec fn tests_word_spec() -> Seq<u8> {
    seq![116u8, 101u8, 115u8, 116u8, 115u8]
}

/// The bytes of `tests`.
pub fn tests_word() -> (r: Vec<u8>)
    ensures
        r@ == tests_word_spec(),
{
    let r: Vec<u8> = vec![116u8, 101u8, 115u8, 116u8, 115u8];
    assert(r@ =~= tests_word_spec());
    r
}

/// The bytes of `cd `.
pub open spec fn cd_prefix_spec() -> Seq<u8> {
    seq![99u8, 100u8, 32u8]
}

/// The bytes of `cd `.
pub fn cd_prefix() -> (r: Vec<u8>)
    ensures
        r@ == cd_prefix_spec(),
{
    let r: Vec<u8> = vec![99u8, 100u8, 32u8];
    assert(r@ =~= cd_prefix_spec());
    r
}

/// The bytes of `do`.
pub open spec fn do_word_spec() -> Seq<u8> {
    seq![100u8, 111u8]
}

/// The bytes of `do`.
pub fn do_word() -> (r: Vec<u8>)
    ensures
        r@ == do_word_spec(),
{
    let r: Vec<u8> = vec![100u8, 111u8];
    assert(r@ =~= do_word_spec());
    r
}

/// The bytes of `done`.
pub open spec fn done_word_spec() -> Seq<u8> {
    seq![100u8, 111u8, 110u8, 101u8]
}

/// The bytes of `done`.
pub fn done_word() -> (r: Vec<u8>)
    ensures
        r@ == done_word_spec(),
{
    let r: Vec<u8> = vec![100u8, 111u8, 110u8, 101u8];
    assert(r@ =~= done_word_spec());
    r
}

/// The bytes of `for `.
pub open spec fn for_prefix_spec() -> Seq<u8> {
    seq![102u8, 111u8, 114u8, 32u8]
}

/// The bytes of `for `.
pub fn for_prefix() -> (r: Vec<u8>)
    ensures
        r@ == for_prefix_spec(),
{
    let r: Vec<u8> = vec![102u8, 111u8, 114u8, 32u8];
    assert(r@ =~= for_prefix_spec());
    r
}

/// The bytes of `/busybox`.
pub open spec fn slash_busybox_spec() -> Seq<u8> {
    seq![47u8, 98u8, 117u8, 115u8, 121u8, 98u8, 111u8, 120u8]
}

/// The bytes of `/busybox`.
pub fn slash_busybox() -> (r: Vec<u8>)
    ensures
        r@ == slash_busybox_spec(),
{
    let r: Vec<u8> = vec![47u8, 98u8, 117u8, 115u8, 121u8, 98u8, 111u8, 120u8];
    assert(r@ =~= slash_busybox_spec());
    r
}

/// The bytes of `basic`.
pub open spec fn basic_word_spec() -> Seq<u8> {
    seq![98u8, 97u8, 115u8, 105u8, 99u8]
}

/// The bytes of `basic`.
pub fn basic_word() -> (r: Vec<u8>)
    ensures
        r@ == basic_word_spec(),
{
    let r: Vec<u8> = vec![98u8, 97u8, 115u8, 105u8, 99u8];
    assert(r@ =~= basic_word_spec());
    r
}

/// The bytes of `oscomp-basic-`.
pub open spec fn staged_prefix_spec() -> Seq<u8> {
    seq![111u8, 115u8, 99u8, 111u8, 109u8, 112u8, 45u8, 98u8, 97u8, 115u8, 105u8, 99u8, 45u8]
}

/// The bytes of `oscomp-basic-`.
pub fn staged_prefix() -> (r: Vec<u8>)
    ensures
        r@ == staged_prefix_spec(),
{
    let r: Vec<u8> = vec![111u8, 115u8, 99u8, 111u8, 109u8, 112u8, 45u8, 98u8, 97u8, 115u8, 105u8, 99u8, 45u8];
    assert(r@ =~= staged_prefix_spec());
    r
}

/// The bytes of `-elf`.
pub open spec fn staged_suffix_spec() -> Seq<u8> {
    seq![45u8, 101u8, 108u8, 102u8]
}

/// The bytes of `-elf`.
pub fn staged_suffix() -> (r: Vec<u8>)
    ensures
        r@ == staged_suffix_spec(),
{
    let r: Vec<u8> = vec![45u8, 101u8, 108u8, 102u8];
    assert(r@ =~= staged_suffix_spec());
    r
}

/// The bytes of `test_echo`.
pub open spec fn test_echo_spec() -> Seq<u8> {
    seq![116u8, 101u8, 115u8, 116u8, 95u8, 101u8, 99u8, 104u8, 111u8]
}

/// The bytes of `test_echo`.
pub fn test_echo() -> (r: Vec<u8>)
    ensures
        r@ == test_echo_spec(),
{
    let r: Vec<u8> = vec![116u8, 101u8, 115u8, 116u8, 95u8, 101u8, 99u8, 104u8, 111u8];
    assert(r@ =~= test_echo_spec());
    r
}

/// The bytes of `text.txt`.
pub open spec fn text_txt_spec() -> Seq<u8> {
    seq![116u8, 101u8, 120u8, 116u8, 46u8, 116u8, 120u8, 116u8]
}

/// The bytes of `text.txt`.
pub fn text_txt() -> (r: Vec<u8>)
    ensures
        r@ == text_txt_spec(),
{
    let r: Vec<u8> = vec![116u8, 101u8, 120u8, 116u8, 46u8, 116u8, 120u8, 116u8];
    assert(r@ =~= text_txt_spec());
    r
}

} // verus!
