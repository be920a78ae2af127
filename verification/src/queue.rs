//! The staged test queue: NUL-terminated records that the kernel writes at boot
//! and the user-side runner reads back.
//!
//! A record is one kind byte, a payload and a terminating NUL. Payloads of the
//! timed kinds are tab-separated fields whose first field is a decimal timeout.
use vstd::prelude::*;
use crate::bytes::{copy_all, extend_from};
use crate::text;

verus! {

/// Record kind: enter a group directory and print its start marker.
pub const KIND_GROUP: u8 = 71;
/// Record kind: run one executable of the current group.
pub const KIND_EXEC: u8 = 88;
/// Record kind: run an executable with a timeout and an argument list.
pub const KIND_ARGV: u8 = 65;
/// Record kind: run one libc-test case with a timeout.
pub const KIND_LIBCTEST: u8 = 67;
/// Record kind: print a group's end marker.
pub const KIND_END: u8 = 69;
/// Record kind: run one LTP case with a timeout.
pub const KIND_LTP: u8 = 76;
/// The field separator inside a payload.
pub const TAB: u8 = 9;
/// The record terminator.
pub const NUL: u8 = 0;
/// The first decimal digit, `0`.
pub const DIGIT_ZERO: u8 = 48;

/// The bytes of one record.
pub open spec fn record_bytes(kind: u8, payload: Seq<u8>) -> Seq<u8> {
    seq![kind] + payload + seq![NUL]
}

/// The decimal digits of `n`, most significant first, without leading zeros.
pub open spec fn decimal(n: nat) -> Seq<u8>
    decreases n,
{
    if n < 10 {
        seq![(DIGIT_ZERO + n) as u8]
    } else {
        decimal(n / 10).push((DIGIT_ZERO + n % 10) as u8)
    }
}

/// The contents of each byte vector.
pub open spec fn byte_views(s: Seq<Vec<u8>>) -> Seq<Seq<u8>> {
    Seq::new(s.len(), |i: int| s[i]@)
}

/// Each argument preceded by a tab.
pub open spec fn tab_fields(args: Seq<Seq<u8>>) -> Seq<u8>
    decreases args.len(),
{
    if args.len() == 0 {
        Seq::empty()
    } else {
        seq![TAB] + args[0] + tab_fields(args.drop_first())
    }
}

/// The payload of an argument-list record: the timeout, the executable and
/// the arguments, separated by tabs.
pub open spec fn argv_payload(timeout_ms: nat, executable: Seq<u8>, args: Seq<Seq<u8>>) -> Seq<u8> {
    decimal(timeout_ms) + seq![TAB] + executable + tab_fields(args)
}

/// The payload of a libc-test record: timeout, executable and case.
pub open spec fn libctest_payload(timeout_ms: nat, executable: Seq<u8>, case: Seq<u8>) -> Seq<u8> {
    argv_payload(timeout_ms, executable, seq![case])
}

/// The arguments with which `runtest.exe` runs one static libc-test case.
pub open spec fn runtest_args(case: Seq<u8>) -> Seq<Seq<u8>> {
    seq![text::dash_w_spec(), text::entry_static_exe_spec(), case]
}

/// The payload of an LTP record: timeout, then the case name twice.
pub open spec fn ltp_payload(timeout_ms: nat, case: Seq<u8>) -> Seq<u8> {
    argv_payload(timeout_ms, case, seq![case])
}

/// Appends one record of the given kind and payload to the queue.
pub fn push_queue_record(queue: &mut Vec<u8>, kind: u8, payload: &[u8])
    ensures
        final(queue)@ == old(queue)@ + record_bytes(kind, payload@),
{
    queue.push(kind);
    extend_from(queue, payload);
    queue.push(NUL);
    assert(queue@ =~= old(queue)@ + record_bytes(kind, payload@));
}

/// Appends the decimal digits of `n`.
pub fn push_decimal(out: &mut Vec<u8>, n: usize)
    ensures
        final(out)@ == old(out)@ + decimal(n as nat),
    decreases n,
{
    if n >= 10 {
        push_decimal(out, n / 10);
    }
    let digit: u8 = (n % 10) as u8;
    out.push(DIGIT_ZERO + digit);
    assert(out@ =~= old(out)@ + decimal(n as nat));
}

/// The decimal digits of `n`.
pub fn decimal_bytes(n: usize) -> (r: Vec<u8>)
    ensures
        r@ == decimal(n as nat),
{
    let mut out: Vec<u8> = Vec::new();
    push_decimal(&mut out, n);
    assert(out@ =~= decimal(n as nat));
    out
}

/// Appends each argument preceded by a tab.
pub fn push_tab_fields(out: &mut Vec<u8>, args: &[Vec<u8>])
    ensures
        final(out)@ == old(out)@ + tab_fields(byte_views(args@)),
{
    let mut i: usize = 0;
    assert(byte_views(args@).subrange(0, args@.len() as int) =~= byte_views(args@));
    while i < args.len()
        invariant
            i <= args@.len(),
            out@ + tab_fields(byte_views(args@).subrange(i as int, args@.len() as int))
                == old(out)@ + tab_fields(byte_views(args@)),
        decreases args@.len() - i,
    {
        let ghost rest = byte_views(args@).subrange(i as int, args@.len() as int);
        assert(rest[0] == args[i as int]@);
        assert(rest.drop_first() =~= byte_views(args@).subrange(i + 1, args@.len() as int));
        out.push(TAB);
        extend_from(out, args[i].as_slice());
        assert(seq![TAB] + args[i as int]@ + tab_fields(rest.drop_first()) == tab_fields(rest));
        assert(out@ + tab_fields(rest.drop_first()) =~= old(out)@ + tab_fields(byte_views(args@)));
        i = i + 1;
    }
    assert(byte_views(args@).subrange(i as int, args@.len() as int) =~= Seq::<Seq<u8>>::empty());
    assert(out@ =~= old(out)@ + tab_fields(byte_views(args@)));
}

/// The payload of an argument-list record.
pub fn argv_record_payload(timeout_ms: usize, executable: &[u8], args: &[Vec<u8>]) -> (r: Vec<u8>)
    ensures
        r@ == argv_payload(timeout_ms as nat, executable@, byte_views(args@)),
{
    let mut payload = decimal_bytes(timeout_ms);
    payload.push(TAB);
    extend_from(&mut payload, executable);
    push_tab_fields(&mut payload, args);
    assert(payload@ =~= argv_payload(timeout_ms as nat, executable@, byte_views(args@)));
    payload
}

/// Appends an argument-list record (`A`): run `executable` with `args`, killed
/// after `timeout_ms` milliseconds.
pub fn push_argv_record(queue: &mut Vec<u8>, timeout_ms: usize, executable: &[u8], args: &[Vec<u8>])
    ensures
        final(queue)@ == old(queue)@ + record_bytes(
            KIND_ARGV,
            argv_payload(timeout_ms as nat, executable@, byte_views(args@)),
        ),
{
    let payload = argv_record_payload(timeout_ms, executable, args);
    push_queue_record(queue, KIND_ARGV, payload.as_slice());
}

/// Appends a libc-test record (`C`): run `executable` on `case`.
pub fn push_libctest_record(queue: &mut Vec<u8>, timeout_ms: usize, executable: &[u8], case: &[u8])
    ensures
        final(queue)@ == old(queue)@ + record_bytes(
            KIND_LIBCTEST,
            libctest_payload(timeout_ms as nat, executable@, case@),
        ),
{
    let mut args: Vec<Vec<u8>> = Vec::new();
    args.push(copy_all(case));
    assert(byte_views(args@) =~= seq![case@]);
    let payload = argv_record_payload(timeout_ms, executable, args.as_slice());
    push_queue_record(queue, KIND_LIBCTEST, payload.as_slice());
}

/// Appends an argument-list record that runs `case` through `runtest.exe`.
pub fn push_libctest_runtest_record(queue: &mut Vec<u8>, timeout_ms: usize, case: &[u8])
    ensures
        final(queue)@ == old(queue)@ + record_bytes(
            KIND_ARGV,
            argv_payload(timeout_ms as nat, text::runtest_exe_spec(), runtest_args(case@)),
        ),
{
    let mut args: Vec<Vec<u8>> = Vec::new();
    args.push(text::dash_w());
    args.push(text::entry_static_exe());
    args.push(copy_all(case));
    assert(byte_views(args@) =~= runtest_args(case@));
    let exe = text::runtest_exe();
    push_argv_record(queue, timeout_ms, exe.as_slice(), args.as_slice());
}

/// Appends an LTP record (`L`) for `case`.
pub fn push_ltp_record(queue: &mut Vec<u8>, timeout_ms: usize, case: &[u8])
    ensures
        final(queue)@ == old(queue)@ + record_bytes(KIND_LTP, ltp_payload(timeout_ms as nat, case@)),
{
    let mut args: Vec<Vec<u8>> = Vec::new();
    args.push(copy_all(case));
    assert(byte_views(args@) =~= seq![case@]);
    let payload = argv_record_payload(timeout_ms, case, args.as_slice());
    push_queue_record(queue, KIND_LTP, payload.as_slice());
}

} // verus!
