//! The user-side reader of the staged test queue: splitting the queue into
//! records, splitting payloads into fields, and parsing the timed records.
use vstd::prelude::*;
use crate::bytes::{copy_all, copy_range, bytes_eq, extend_from};
use crate::queue::{
    byte_views, decimal, tab_fields, argv_payload, libctest_payload, record_bytes,
    TAB, NUL, DIGIT_ZERO, KIND_GROUP, KIND_EXEC, KIND_ARGV, KIND_LIBCTEST, KIND_END,
};
use crate::text;

verus! {

/// How many bytes of the queue file the runner reads at most.
pub const METADATA_LIMIT: usize = 65536;
/// How many bytes the runner asks for per read.
pub const METADATA_CHUNK: usize = 1024;
/// How long the runner sleeps between polls of a timed child.
pub const WAIT_POLL_MS: usize = 10;

// ---------------------------------------------------------------- records

/// The index of the last NUL in `q`, or -1.
pub open spec fn last_nul(q: Seq<u8>) -> int
    decreases q.len(),
{
    if q.len() == 0 {
        -1
    } else if q.last() == NUL {
        q.len() - 1
    } else {
        last_nul(q.drop_last())
    }
}

/// `s` as a one-element list, or the empty list when `s` is empty.
pub open spec fn nonempty_piece(s: Seq<u8>) -> Seq<Seq<u8>> {
    if s.len() == 0 {
        Seq::empty()
    } else {
        seq![s]
    }
}

/// The records of a queue: the non-empty runs of bytes between NULs.
pub open spec fn records(q: Seq<u8>) -> Seq<Seq<u8>>
    decreases q.len(),
{
    if q.len() == 0 {
        Seq::empty()
    } else {
        let j = last_nul(q);
        proof {
            lemma_last_nul_bounds(q);
        }
        if j < 0 {
            seq![q]
        } else {
            records(q.subrange(0, j)) + nonempty_piece(q.subrange(j + 1, q.len() as int))
        }
    }
}

/// `last_nul` lies within the queue.
pub proof fn lemma_last_nul_bounds(q: Seq<u8>)
    ensures
        -1 <= last_nul(q) < q.len(),
    decreases q.len(),
{
    if q.len() > 0 && q.last() != NUL {
        lemma_last_nul_bounds(q.drop_last());
    }
}

/// `last_nul` is the position after which no NUL occurs.
pub proof fn lemma_last_nul_char(q: Seq<u8>, j: int)
    requires
        -1 <= j < q.len(),
        j >= 0 ==> q[j] == NUL,
        forall|k: int| j < k < q.len() ==> q[k] != NUL,
    ensures
        last_nul(q) == j,
    decreases q.len(),
{
    if q.len() > 0 && j < q.len() - 1 {
        assert(q.last() != NUL);
        let d = q.drop_last();
        assert forall|k: int| j < k < d.len() implies d[k] != NUL by {
            assert(d[k] == q[k]);
        }
        if j >= 0 {
            assert(d[j] == q[j]);
        }
        lemma_last_nul_char(d, j);
    }
}

/// Reading a prefix up to `i`, where the bytes from `start` on hold no NUL and
/// `start` follows a NUL, adds at most one record to those before `start`.
pub proof fn lemma_records_step(q: Seq<u8>, start: int, i: int)
    requires
        0 <= start <= i <= q.len(),
        start == 0 || q[start - 1] == NUL,
        forall|k: int| start <= k < i ==> q[k] != NUL,
    ensures
        records(q.subrange(0, i)) == records(q.subrange(0, start)) + nonempty_piece(
            q.subrange(start, i),
        ),
{
    let p = q.subrange(0, i);
    if i == 0 {
        assert(records(p) =~= Seq::<Seq<u8>>::empty());
        assert(records(q.subrange(0, start)) + nonempty_piece(q.subrange(start, i))
            =~= Seq::<Seq<u8>>::empty());
    } else {
        assert forall|k: int| start - 1 < k < p.len() implies p[k] != NUL by {
            assert(p[k] == q[k]);
        }
        if start > 0 {
            assert(p[start - 1] == q[start - 1]);
        }
        lemma_last_nul_char(p, start - 1);
        if start == 0 {
            assert(records(q.subrange(0, 0)) =~= Seq::<Seq<u8>>::empty());
            assert(q.subrange(start, i) =~= p);
            assert(records(p) == seq![p]);
            assert(records(q.subrange(0, start)) + nonempty_piece(q.subrange(start, i))
                =~= seq![p]);
        } else {
            let p2 = q.subrange(0, start);
            assert forall|k: int| start - 1 < k < p2.len() implies p2[k] != NUL by {}
            assert(p2[start - 1] == q[start - 1]);
            lemma_last_nul_char(p2, start - 1);
            assert(p2.subrange(start, start as int) =~= Seq::<u8>::empty());
            assert(p2.subrange(0, start - 1) =~= q.subrange(0, start - 1));
            assert(p.subrange(0, start - 1) =~= q.subrange(0, start - 1));
            assert(p.subrange(start, p.len() as int) =~= q.subrange(start, i));
            assert(records(p2) =~= records(q.subrange(0, start - 1)));
        }
    }
}

/// The records of a queue, in order; empty runs between NULs are skipped.
pub fn split_records(queue: &[u8]) -> (r: Vec<Vec<u8>>)
    ensures
        byte_views(r@) == records(queue@),
{
    let mut out: Vec<Vec<u8>> = Vec::new();
    let mut start: usize = 0;
    let mut i: usize = 0;
    while i < queue.len()
        invariant
            start <= i <= queue@.len(),
            start == 0 || queue@[start - 1] == NUL,
            forall|k: int| start <= k < i ==> queue@[k] != NUL,
            byte_views(out@) == records(queue@.subrange(0, start as int)),
        decreases queue@.len() - i,
    {
        if queue[i] == NUL {
            proof {
                lemma_records_step(queue@, start as int, i as int);
                lemma_records_step(queue@, i + 1, i + 1);
                let p = queue@.subrange(0, i + 1);
                assert(p.last() == NUL);
                lemma_last_nul_char(p, i as int);
                assert(p.subrange(0, i as int) =~= queue@.subrange(0, i as int));
                assert(p.subrange(i + 1, i + 1) =~= Seq::<u8>::empty());
                assert(records(p) =~= records(queue@.subrange(0, i as int)));
            }
            if i > start {
                let piece = copy_range(queue, start, i);
                out.push(piece);
                assert(byte_views(out@) =~= records(queue@.subrange(0, start as int))
                    + nonempty_piece(queue@.subrange(start as int, i as int)));
            } else {
                assert(nonempty_piece(queue@.subrange(start as int, i as int))
                    =~= Seq::<Seq<u8>>::empty());
                assert(records(queue@.subrange(0, start as int)) + Seq::<Seq<u8>>::empty()
                    =~= records(queue@.subrange(0, start as int)));
            }
            start = i + 1;
        }
        i = i + 1;
    }
    proof {
        lemma_records_step(queue@, start as int, queue@.len() as int);
        assert(queue@.subrange(0, queue@.len() as int) =~= queue@);
    }
    if start < queue.len() {
        let piece = copy_range(queue, start, queue.len());
        out.push(piece);
        assert(byte_views(out@) =~= records(queue@.subrange(0, start as int))
            + nonempty_piece(queue@.subrange(start as int, queue@.len() as int)));
    } else {
        assert(nonempty_piece(queue@.subrange(start as int, queue@.len() as int))
            =~= Seq::<Seq<u8>>::empty());
        assert(records(queue@.subrange(0, start as int)) + Seq::<Seq<u8>>::empty()
            =~= records(queue@.subrange(0, start as int)));
    }
    out
}

/// Whether `s` holds no NUL byte.
pub open spec fn no_nul(s: Seq<u8>) -> bool {
    forall|k: int| 0 <= k < s.len() ==> s[k] != NUL
}

/// Whether a queue ends at a record boundary.
pub open spec fn queue_closed(q: Seq<u8>) -> bool {
    q.len() == 0 || q.last() == NUL
}

/// Appending one record to a queue that ends at a record boundary adds exactly
/// that record (its kind byte and payload) to what the runner reads back.
pub proof fn lemma_records_push(q: Seq<u8>, kind: u8, payload: Seq<u8>)
    requires
        queue_closed(q),
        kind != NUL,
        no_nul(payload),
    ensures
        records(q + record_bytes(kind, payload)) == records(q) + seq![seq![kind] + payload],
        queue_closed(q + record_bytes(kind, payload)),
{
    let full = q + record_bytes(kind, payload);
    let n = full.len() as int;
    let body = seq![kind] + payload;
    assert(full.last() == NUL);
    lemma_last_nul_char(full, n - 1);
    assert(full.subrange(n, n) =~= Seq::<u8>::empty());
    assert(records(full) =~= records(full.subrange(0, n - 1)));
    assert forall|k: int| q.len() <= k < n - 1 implies full[k] != NUL by {
        if k > q.len() {
            assert(full[k] == payload[k - q.len() - 1]);
        }
    }
    lemma_records_step(full, q.len() as int, n - 1);
    assert(full.subrange(0, n - 1).subrange(0, n - 1) =~= full.subrange(0, n - 1));
    assert(full.subrange(0, q.len() as int) =~= q);
    assert(full.subrange(q.len() as int, n - 1) =~= body);
    assert(records(full.subrange(0, n - 1)) == records(full.subrange(0, n - 1).subrange(0, n - 1)));
}

/// The queue that a sequence of records makes.
pub open spec fn queue_of(recs: Seq<(u8, Seq<u8>)>) -> Seq<u8>
    decreases recs.len(),
{
    if recs.len() == 0 {
        Seq::empty()
    } else {
        queue_of(recs.drop_last()) + record_bytes(recs.last().0, recs.last().1)
    }
}

/// What the runner reads of a record: its kind byte followed by its payload.
pub open spec fn record_body(rec: (u8, Seq<u8>)) -> Seq<u8> {
    seq![rec.0] + rec.1
}

/// A queue written record by record from nothing reads back as exactly those
/// records, in order, provided no kind is NUL and no payload holds a NUL.
pub proof fn lemma_queue_round_trip(recs: Seq<(u8, Seq<u8>)>)
    requires
        forall|i: int| 0 <= i < recs.len() ==> #[trigger] recs[i].0 != NUL && no_nul(recs[i].1),
    ensures
        records(queue_of(recs)) == Seq::new(recs.len(), |i: int| record_body(recs[i])),
        queue_closed(queue_of(recs)),
    decreases recs.len(),
{
    if recs.len() == 0 {
        assert(records(queue_of(recs)) =~= Seq::new(recs.len(), |i: int| record_body(recs[i])));
    } else {
        let init = recs.drop_last();
        assert forall|i: int| 0 <= i < init.len() implies #[trigger] init[i].0 != NUL && no_nul(
            init[i].1,
        ) by {
            assert(init[i] == recs[i]);
        }
        lemma_queue_round_trip(init);
        let last = recs.last();
        assert(recs[recs.len() - 1] == last);
        lemma_records_push(queue_of(init), last.0, last.1);
        assert(records(queue_of(recs)) =~= Seq::new(recs.len(), |i: int| record_body(recs[i])));
    }
}

// ---------------------------------------------------------------- fields

/// The index of the first `sep` byte in `r`, or its length.
pub open spec fn first_sep(r: Seq<u8>, sep: u8) -> int
    decreases r.len(),
{
    if r.len() == 0 {
        0
    } else if r[0] == sep {
        0
    } else {
        1 + first_sep(r.drop_first(), sep)
    }
}

/// `first_sep` lies within the bytes.
pub proof fn lemma_first_sep_bounds(r: Seq<u8>, sep: u8)
    ensures
        0 <= first_sep(r, sep) <= r.len(),
    decreases r.len(),
{
    if r.len() > 0 && r[0] != sep {
        lemma_first_sep_bounds(r.drop_first(), sep);
    }
}

/// `first_sep` is the first position holding `sep`.
pub proof fn lemma_first_sep_char(r: Seq<u8>, sep: u8, j: int)
    requires
        0 <= j <= r.len(),
        j < r.len() ==> r[j] == sep,
        forall|k: int| 0 <= k < j ==> r[k] != sep,
    ensures
        first_sep(r, sep) == j,
    decreases r.len(),
{
    if r.len() > 0 && j > 0 {
        let d = r.drop_first();
        assert forall|k: int| 0 <= k < j - 1 implies d[k] != sep by {
            assert(d[k] == r[k + 1]);
        }
        if j < r.len() {
            assert(d[j - 1] == r[j]);
        }
        lemma_first_sep_char(d, sep, j - 1);
    }
}

/// The runs of bytes between `sep` bytes; bytes with `n` separators make
/// `n + 1` pieces, some possibly empty.
pub open spec fn pieces(r: Seq<u8>, sep: u8) -> Seq<Seq<u8>>
    decreases r.len(),
{
    let t = first_sep(r, sep);
    proof {
        lemma_first_sep_bounds(r, sep);
    }
    if t >= r.len() {
        seq![r]
    } else {
        seq![r.subrange(0, t)] + pieces(r.subrange(t + 1, r.len() as int), sep)
    }
}

/// The tab-separated fields of a payload.
pub open spec fn fields(r: Seq<u8>) -> Seq<Seq<u8>> {
    pieces(r, TAB)
}

/// The index of the first tab in `r`, or its length.
pub open spec fn first_tab(r: Seq<u8>) -> int {
    first_sep(r, TAB)
}

/// Whether `s` holds no tab.
pub open spec fn no_tab(s: Seq<u8>) -> bool {
    forall|k: int| 0 <= k < s.len() ==> s[k] != TAB
}

/// Splits `record` at every `sep` byte.
pub fn split_on(record: &[u8], sep: u8) -> (r: Vec<Vec<u8>>)
    ensures
        byte_views(r@) == pieces(record@, sep),
        r@.len() >= 1,
{
    let mut out: Vec<Vec<u8>> = Vec::new();
    let mut start: usize = 0;
    let mut i: usize = 0;
    assert(record@.subrange(0, record@.len() as int) =~= record@);
    assert(byte_views(out@) =~= Seq::<Seq<u8>>::empty());
    assert(byte_views(out@) + pieces(record@, sep) =~= pieces(record@, sep));
    while i < record.len()
        invariant
            start <= i <= record@.len(),
            forall|k: int| start <= k < i ==> record@[k] != sep,
            byte_views(out@) + pieces(record@.subrange(start as int, record@.len() as int), sep)
                == pieces(record@, sep),
        decreases record@.len() - i,
    {
        if record[i] == sep {
            let ghost rest = record@.subrange(start as int, record@.len() as int);
            proof {
                assert forall|k: int| 0 <= k < i - start implies rest[k] != sep by {
                    assert(rest[k] == record@[start + k]);
                }
                lemma_first_sep_char(rest, sep, i - start);
                assert(rest.subrange(0, i - start) =~= record@.subrange(start as int, i as int));
                assert(rest.subrange(i - start + 1, rest.len() as int)
                    =~= record@.subrange(i + 1, record@.len() as int));
            }
            let ghost before = out@;
            let piece = copy_range(record, start, i);
            out.push(piece);
            assert(byte_views(out@) =~= byte_views(before).push(piece@));
            assert(byte_views(out@) + pieces(record@.subrange(i + 1, record@.len() as int), sep)
                =~= pieces(record@, sep));
            start = i + 1;
        }
        i = i + 1;
    }
    let ghost rest = record@.subrange(start as int, record@.len() as int);
    proof {
        assert forall|k: int| 0 <= k < rest.len() implies rest[k] != sep by {
            assert(rest[k] == record@[start + k]);
        }
        lemma_first_sep_char(rest, sep, rest.len() as int);
    }
    let piece = copy_range(record, start, record.len());
    out.push(piece);
    assert(byte_views(out@) =~= pieces(record@, sep));
    out
}

/// The fields of a payload.
pub fn split_fields(record: &[u8]) -> (r: Vec<Vec<u8>>)
    ensures
        byte_views(r@) == fields(record@),
        r@.len() >= 1,
{
    split_on(record, TAB)
}

/// A tab-free field followed by tab-separated tab-free arguments splits back
/// into that field and those arguments.
pub proof fn lemma_fields_of_tab_fields(x: Seq<u8>, args: Seq<Seq<u8>>)
    requires
        no_tab(x),
        forall|i: int| 0 <= i < args.len() ==> no_tab(#[trigger] args[i]),
    ensures
        fields(x + tab_fields(args)) == seq![x] + args,
    decreases args.len(),
{
    let r = x + tab_fields(args);
    if args.len() == 0 {
        assert(r =~= x);
        lemma_first_sep_char(r, TAB, r.len() as int);
        assert(fields(r) =~= seq![x] + args);
    } else {
        let rest = args.drop_first();
        assert forall|i: int| 0 <= i < rest.len() implies no_tab(#[trigger] rest[i]) by {
            assert(rest[i] == args[i + 1]);
        }
        assert(no_tab(args[0]));
        lemma_fields_of_tab_fields(args[0], rest);
        assert(r =~= x + (seq![TAB] + (args[0] + tab_fields(rest))));
        assert(r[x.len() as int] == TAB);
        lemma_first_sep_char(r, TAB, x.len() as int);
        assert(r.subrange(0, x.len() as int) =~= x);
        assert(r.subrange(x.len() as int + 1, r.len() as int) =~= args[0] + tab_fields(rest));
        assert(fields(r) =~= seq![x] + args);
    }
}

// ---------------------------------------------------------------- numbers

/// Whether `b` is an ASCII decimal digit.
pub open spec fn is_digit(b: u8) -> bool {
    DIGIT_ZERO <= b <= 57
}

/// Whether every byte of `s` is a decimal digit.
pub open spec fn all_digits(s: Seq<u8>) -> bool {
    forall|k: int| 0 <= k < s.len() ==> is_digit(s[k])
}

/// The value of a string of decimal digits.
pub open spec fn digits_value(s: Seq<u8>) -> nat
    decreases s.len(),
{
    if s.len() == 0 {
        0
    } else {
        digits_value(s.drop_last()) * 10 + (s.last() - DIGIT_ZERO) as nat
    }
}

/// What `parse_usize` gives: the value of a non-empty run of digits that fits
/// in `usize`, and nothing for any other input.
pub open spec fn parse_usize_spec(s: Seq<u8>) -> Option<usize> {
    if s.len() > 0 && all_digits(s) && digits_value(s) <= usize::MAX {
        Some(digits_value(s) as usize)
    } else {
        None
    }
}

/// A longer prefix of digits has at least the value of a shorter one.
pub proof fn lemma_digits_prefix_mono(s: Seq<u8>, j: int)
    requires
        all_digits(s),
        0 <= j <= s.len(),
    ensures
        digits_value(s.subrange(0, j)) <= digits_value(s),
    decreases s.len(),
{
    if j < s.len() {
        let d = s.drop_last();
        assert(all_digits(d)) by {
            assert forall|k: int| 0 <= k < d.len() implies is_digit(d[k]) by {
                assert(d[k] == s[k]);
            }
        }
        lemma_digits_prefix_mono(d, j);
        assert(d.subrange(0, j) =~= s.subrange(0, j));
    } else {
        assert(s.subrange(0, j) =~= s);
    }
}

/// Parses a non-empty run of decimal digits; `None` for anything else or on
/// overflow.
pub fn parse_usize(bytes: &[u8]) -> (r: Option<usize>)
    ensures
        r == parse_usize_spec(bytes@),
{
    if bytes.len() == 0 {
        return None;
    }
    let mut value: usize = 0;
    let mut i: usize = 0;
    while i < bytes.len()
        invariant
            0 < bytes@.len(),
            i <= bytes@.len(),
            all_digits(bytes@.subrange(0, i as int)),
            value == digits_value(bytes@.subrange(0, i as int)),
        decreases bytes@.len() - i,
    {
        let byte = bytes[i];
        if byte < DIGIT_ZERO || byte > 57 {
            assert(!all_digits(bytes@));
            return None;
        }
        let ghost next = bytes@.subrange(0, i + 1);
        assert(next.drop_last() =~= bytes@.subrange(0, i as int));
        assert(all_digits(next));
        let scaled = value.checked_mul(10);
        match scaled {
            None => {
                proof {
                    if all_digits(bytes@) {
                        lemma_digits_prefix_mono(bytes@, i + 1);
                    }
                }
                return None;
            },
            Some(scaled) => {
                let sum = scaled.checked_add((byte - DIGIT_ZERO) as usize);
                match sum {
                    None => {
                        proof {
                            if all_digits(bytes@) {
                                lemma_digits_prefix_mono(bytes@, i + 1);
                            }
                        }
                        return None;
                    },
                    Some(sum) => {
                        value = sum;
                    },
                }
            },
        }
        i = i + 1;
    }
    assert(bytes@.subrange(0, bytes@.len() as int) =~= bytes@);
    Some(value)
}

/// The decimal form of a number is a non-empty run of digits whose value is
/// that number.
pub proof fn lemma_decimal_digits(n: nat)
    ensures
        decimal(n).len() > 0,
        all_digits(decimal(n)),
        digits_value(decimal(n)) == n,
    decreases n,
{
    let d = decimal(n);
    if n < 10 {
        assert(d.drop_last() =~= Seq::<u8>::empty());
        assert(d.last() == (DIGIT_ZERO + n) as u8);
        assert(d.last() - DIGIT_ZERO == n);
        assert(digits_value(d) == digits_value(d.drop_last()) * 10 + (d.last() - DIGIT_ZERO) as nat);
    } else {
        lemma_decimal_digits(n / 10);
        assert(d.drop_last() =~= decimal(n / 10));
        assert(0 <= n % 10 < 10);
        assert(d.last() == (DIGIT_ZERO + n % 10) as u8);
        assert(d.last() - DIGIT_ZERO == n % 10);
        assert(n == (n / 10) * 10 + n % 10);
        assert(digits_value(d) == digits_value(d.drop_last()) * 10 + (d.last() - DIGIT_ZERO) as nat);
        assert forall|k: int| 0 <= k < d.len() implies is_digit(d[k]) by {
            if k < d.len() - 1 {
                assert(d[k] == decimal(n / 10)[k]);
            }
        }
    }
}

/// Reading back a decimal timeout gives the number that was written.
pub proof fn lemma_parse_decimal(n: usize)
    ensures
        parse_usize_spec(decimal(n as nat)) == Some(n),
{
    lemma_decimal_digits(n as nat);
}

/// A decimal string holds neither tabs nor NULs.
pub proof fn lemma_decimal_plain(n: nat)
    ensures
        no_tab(decimal(n)),
        no_nul(decimal(n)),
{
    lemma_decimal_digits(n);
    assert forall|k: int| 0 <= k < decimal(n).len() implies decimal(n)[k] != TAB && decimal(n)[k]
        != NUL by {
        assert(is_digit(decimal(n)[k]));
    }
}

// ---------------------------------------------------------------- records by kind

/// What the first byte of a record asks the runner to do.
#[derive(PartialEq, Eq, Structural, Clone, Copy, Debug)]
pub enum RecordKind {
    /// Enter a group directory and print its start marker.
    Group,
    /// Run one executable.
    Exec,
    /// Run an executable with arguments and a timeout.
    Argv,
    /// Run one libc-test case with a timeout.
    Libctest,
    /// Print an end marker.
    End,
    /// Anything else, which the runner reports and skips.
    Unknown,
}

/// The kind that a record's first byte names.
pub open spec fn kind_of(b: u8) -> RecordKind {
    if b == KIND_GROUP {
        RecordKind::Group
    } else if b == KIND_EXEC {
        RecordKind::Exec
    } else if b == KIND_ARGV {
        RecordKind::Argv
    } else if b == KIND_LIBCTEST {
        RecordKind::Libctest
    } else if b == KIND_END {
        RecordKind::End
    } else {
        RecordKind::Unknown
    }
}

/// The kind of a non-empty record.
pub fn record_kind(record: &[u8]) -> (r: RecordKind)
    requires
        record@.len() > 0,
    ensures
        r == kind_of(record@[0]),
{
    let b = record[0];
    if b == KIND_GROUP {
        RecordKind::Group
    } else if b == KIND_EXEC {
        RecordKind::Exec
    } else if b == KIND_ARGV {
        RecordKind::Argv
    } else if b == KIND_LIBCTEST {
        RecordKind::Libctest
    } else if b == KIND_END {
        RecordKind::End
    } else {
        RecordKind::Unknown
    }
}

/// Why a timed record could not be parsed.
#[derive(PartialEq, Eq, Structural, Clone, Copy, Debug)]
pub enum RecordError {
    /// The first field is not a decimal number that fits in `usize`.
    BadTimeout,
    /// The executable field is missing or empty.
    MissingExecutable,
    /// The case field of a libc-test record is missing or empty.
    MissingCase,
}

/// A parsed argument-list record.
pub struct ArgvRecord {
    pub timeout_ms: usize,
    pub name: Vec<u8>,
    /// The name the program sees as its own, when it differs from `name`.
    pub argv0: Option<Vec<u8>>,
    pub args: Vec<Vec<u8>>,
}

/// A parsed libc-test record.
pub struct LibctestRecord {
    pub timeout_ms: usize,
    pub name: Vec<u8>,
    pub case: Vec<u8>,
}

/// The contents of an optional byte vector.
pub open spec fn opt_bytes(o: Option<Vec<u8>>) -> Option<Seq<u8>> {
    match o {
        Some(v) => Some(v@),
        None => None,
    }
}

/// What an argument-list payload with fields `f` means: its timeout, its
/// executable, the name the program sees as its own (for `lmbench_all`, the
/// first argument) and the remaining arguments.
pub open spec fn argv_parse(f: Seq<Seq<u8>>) -> Result<
    (usize, Seq<u8>, Option<Seq<u8>>, Seq<Seq<u8>>),
    RecordError,
> {
    match parse_usize_spec(f[0]) {
        None => Err(RecordError::BadTimeout),
        Some(t) => {
            if f.len() < 2 || f[1].len() == 0 {
                Err(RecordError::MissingExecutable)
            } else {
                let rest = f.subrange(2, f.len() as int);
                if f[1] == text::lmbench_all_spec() && rest.len() > 0 {
                    Ok((t, f[1], Some(rest[0]), rest.drop_first()))
                } else {
                    Ok((t, f[1], None, rest))
                }
            }
        },
    }
}

/// Whether a parsed argument-list record holds the given meaning.
pub open spec fn argv_record_is(
    a: ArgvRecord,
    s: (usize, Seq<u8>, Option<Seq<u8>>, Seq<Seq<u8>>),
) -> bool {
    &&& a.timeout_ms == s.0
    &&& a.name@ == s.1
    &&& opt_bytes(a.argv0) == s.2
    &&& byte_views(a.args@) == s.3
}

/// A copy of `v[from..]`, as a vector of byte vectors.
fn clone_fields_from(v: &Vec<Vec<u8>>, from: usize) -> (r: Vec<Vec<u8>>)
    requires
        from <= v@.len(),
    ensures
        byte_views(r@) == byte_views(v@).subrange(from as int, v@.len() as int),
{
    let mut out: Vec<Vec<u8>> = Vec::new();
    let mut i = from;
    while i < v.len()
        invariant
            from <= i <= v@.len(),
            byte_views(out@) == byte_views(v@).subrange(from as int, i as int),
        decreases v@.len() - i,
    {
        let ghost before = out@;
        let copy = copy_all(v[i].as_slice());
        out.push(copy);
        assert(byte_views(out@) =~= byte_views(before).push(v@[i as int]@));
        assert(byte_views(out@) =~= byte_views(v@).subrange(from as int, i + 1));
        i = i + 1;
    }
    out
}

/// Parses the payload of an argument-list record.
pub fn parse_argv_record(record: &[u8]) -> (r: Result<ArgvRecord, RecordError>)
    ensures
        match r {
            Ok(a) => {
                &&& argv_parse(fields(record@)) is Ok
                &&& argv_record_is(a, argv_parse(fields(record@))->Ok_0)
            },
            Err(e) => argv_parse(fields(record@)) == Err::<
                (usize, Seq<u8>, Option<Seq<u8>>, Seq<Seq<u8>>),
                RecordError,
            >(e),
        },
{
    let f = split_fields(record);
    let ghost fv = byte_views(f@);
    assert(fv[0] == f@[0]@);
    let timeout = parse_usize(f[0].as_slice());
    let timeout_ms = match timeout {
        None => {
            return Err(RecordError::BadTimeout);
        },
        Some(t) => t,
    };
    if f.len() < 2 || f[1].len() == 0 {
        return Err(RecordError::MissingExecutable);
    }
    assert(fv[1] == f@[1]@);
    let name = copy_all(f[1].as_slice());
    let lm = text::lmbench_all();
    let is_lmbench = bytes_eq(name.as_slice(), lm.as_slice());
    if is_lmbench && f.len() > 2 {
        assert(fv[2] == f@[2]@);
        let first = copy_all(f[2].as_slice());
        let args = clone_fields_from(&f, 3);
        assert(fv.subrange(2, fv.len() as int).drop_first() =~= fv.subrange(3, fv.len() as int));
        Ok(ArgvRecord { timeout_ms, name, argv0: Some(first), args })
    } else {
        let args = clone_fields_from(&f, 2);
        Ok(ArgvRecord { timeout_ms, name, argv0: None, args })
    }
}

/// What a libc-test payload with fields `f` means: timeout, executable, case.
pub open spec fn libctest_parse(f: Seq<Seq<u8>>) -> Result<(usize, Seq<u8>, Seq<u8>), RecordError> {
    match parse_usize_spec(f[0]) {
        None => Err(RecordError::BadTimeout),
        Some(t) => {
            if f.len() < 2 || f[1].len() == 0 {
                Err(RecordError::MissingExecutable)
            } else if f.len() < 3 || f[2].len() == 0 {
                Err(RecordError::MissingCase)
            } else {
                Ok((t, f[1], f[2]))
            }
        },
    }
}

/// Parses the payload of a libc-test record.
pub fn parse_libctest_record(record: &[u8]) -> (r: Result<LibctestRecord, RecordError>)
    ensures
        match r {
            Ok(c) => libctest_parse(fields(record@)) == Ok::<(usize, Seq<u8>, Seq<u8>), RecordError>(
                (c.timeout_ms, c.name@, c.case@),
            ),
            Err(e) => libctest_parse(fields(record@)) == Err::<
                (usize, Seq<u8>, Seq<u8>),
                RecordError,
            >(e),
        },
{
    let f = split_fields(record);
    let ghost fv = byte_views(f@);
    assert(fv[0] == f@[0]@);
    let timeout = parse_usize(f[0].as_slice());
    let timeout_ms = match timeout {
        None => {
            return Err(RecordError::BadTimeout);
        },
        Some(t) => t,
    };
    if f.len() < 2 || f[1].len() == 0 {
        return Err(RecordError::MissingExecutable);
    }
    if f.len() < 3 || f[2].len() == 0 {
        assert(f.len() >= 3 ==> fv[2] == f@[2]@);
        return Err(RecordError::MissingCase);
    }
    assert(fv[1] == f@[1]@);
    assert(fv[2] == f@[2]@);
    let name = copy_all(f[1].as_slice());
    let case = copy_all(f[2].as_slice());
    Ok(LibctestRecord { timeout_ms, name, case })
}

/// What a group payload means: the directory before the first tab and the
/// marker after it; nothing when it holds no tab.
pub open spec fn group_parse(r: Seq<u8>) -> Option<(Seq<u8>, Seq<u8>)> {
    let t = first_tab(r);
    if t >= r.len() {
        None
    } else {
        Some((r.subrange(0, t), r.subrange(t + 1, r.len() as int)))
    }
}

/// Splits a group payload into its directory and its marker.
pub fn parse_group_record(record: &[u8]) -> (r: Option<(Vec<u8>, Vec<u8>)>)
    ensures
        match r {
            Some(pm) => group_parse(record@) == Some((pm.0@, pm.1@)),
            None => group_parse(record@) is None,
        },
{
    let mut i: usize = 0;
    while i < record.len()
        invariant
            i <= record@.len(),
            forall|k: int| 0 <= k < i ==> record@[k] != TAB,
        decreases record@.len() - i,
    {
        if record[i] == TAB {
            proof {
                lemma_first_sep_char(record@, TAB, i as int);
            }
            let path = copy_range(record, 0, i);
            let marker = copy_range(record, i + 1, record.len());
            return Some((path, marker));
        }
        i = i + 1;
    }
    proof {
        lemma_first_sep_char(record@, TAB, record@.len() as int);
    }
    None
}

// ---------------------------------------------------------------- read-back laws

/// No argument holds a tab.
pub open spec fn all_no_tab(args: Seq<Seq<u8>>) -> bool {
    forall|i: int| 0 <= i < args.len() ==> no_tab(#[trigger] args[i])
}

/// No argument holds a NUL.
pub open spec fn all_no_nul(args: Seq<Seq<u8>>) -> bool {
    forall|i: int| 0 <= i < args.len() ==> no_nul(#[trigger] args[i])
}

/// What the runner makes of an argument-list record that the kernel wrote.
pub open spec fn argv_meaning(timeout_ms: usize, executable: Seq<u8>, args: Seq<Seq<u8>>) -> (
    usize,
    Seq<u8>,
    Option<Seq<u8>>,
    Seq<Seq<u8>>,
) {
    if executable == text::lmbench_all_spec() && args.len() > 0 {
        (timeout_ms, executable, Some(args[0]), args.drop_first())
    } else {
        (timeout_ms, executable, None, args)
    }
}

/// Tab-joined NUL-free fields hold no NUL.
pub proof fn lemma_tab_fields_no_nul(args: Seq<Seq<u8>>)
    requires
        all_no_nul(args),
    ensures
        no_nul(tab_fields(args)),
    decreases args.len(),
{
    if args.len() > 0 {
        let rest = args.drop_first();
        assert forall|i: int| 0 <= i < rest.len() implies no_nul(#[trigger] rest[i]) by {
            assert(rest[i] == args[i + 1]);
        }
        lemma_tab_fields_no_nul(rest);
        assert(no_nul(args[0]));
        let t = tab_fields(args);
        assert(t =~= seq![TAB] + args[0] + tab_fields(rest));
        assert forall|k: int| 0 <= k < t.len() implies t[k] != NUL by {
            if k > 0 && k < 1 + args[0].len() {
                assert(t[k] == args[0][k - 1]);
            } else if k >= 1 + args[0].len() {
                assert(t[k] == tab_fields(rest)[k - 1 - args[0].len()]);
            }
        }
    }
}

/// The runner reads an argument-list payload back as the timeout, executable
/// and arguments that the kernel wrote, provided none of them holds a tab and
/// the executable is not empty.
pub proof fn lemma_argv_round_trip(timeout_ms: usize, executable: Seq<u8>, args: Seq<Seq<u8>>)
    requires
        executable.len() > 0,
        no_tab(executable),
        all_no_tab(args),
    ensures
        argv_parse(fields(argv_payload(timeout_ms as nat, executable, args))) == Ok::<
            (usize, Seq<u8>, Option<Seq<u8>>, Seq<Seq<u8>>),
            RecordError,
        >(argv_meaning(timeout_ms, executable, args)),
{
    let d = decimal(timeout_ms as nat);
    lemma_decimal_plain(timeout_ms as nat);
    lemma_parse_decimal(timeout_ms);
    let all = seq![executable] + args;
    assert forall|i: int| 0 <= i < all.len() implies no_tab(#[trigger] all[i]) by {
        if i > 0 {
            assert(all[i] == args[i - 1]);
        }
    }
    assert(all.drop_first() =~= args);
    assert(tab_fields(all) == seq![TAB] + executable + tab_fields(args));
    assert(argv_payload(timeout_ms as nat, executable, args) =~= d + tab_fields(all));
    lemma_fields_of_tab_fields(d, all);
    let f = seq![d] + all;
    assert(f[0] == d);
    assert(f[1] == executable);
    assert(f.subrange(2, f.len() as int) =~= args);
}

/// The runner reads a libc-test payload back as the timeout, executable and
/// case that the kernel wrote.
pub proof fn lemma_libctest_round_trip(timeout_ms: usize, executable: Seq<u8>, case: Seq<u8>)
    requires
        executable.len() > 0,
        case.len() > 0,
        no_tab(executable),
        no_tab(case),
    ensures
        libctest_parse(fields(libctest_payload(timeout_ms as nat, executable, case))) == Ok::<
            (usize, Seq<u8>, Seq<u8>),
            RecordError,
        >((timeout_ms, executable, case)),
{
    let d = decimal(timeout_ms as nat);
    lemma_decimal_plain(timeout_ms as nat);
    lemma_parse_decimal(timeout_ms);
    let all = seq![executable, case];
    assert forall|i: int| 0 <= i < all.len() implies no_tab(#[trigger] all[i]) by {}
    assert(all.drop_first() =~= seq![case]);
    assert(seq![case].drop_first() =~= Seq::<Seq<u8>>::empty());
    assert(seq![case][0] == case);
    assert(tab_fields(seq![case].drop_first()) =~= Seq::<u8>::empty());
    assert(tab_fields(seq![case]) =~= seq![TAB] + case);
    assert(libctest_payload(timeout_ms as nat, executable, case) =~= d + tab_fields(all));
    lemma_fields_of_tab_fields(d, all);
    let f = seq![d] + all;
    assert(f[0] == d);
    assert(f[1] == executable);
    assert(f[2] == case);
}

/// The runner splits a group payload back into the directory and marker that
/// the kernel joined with a tab, provided the directory holds no tab.
pub proof fn lemma_group_round_trip(path: Seq<u8>, marker: Seq<u8>)
    requires
        no_tab(path),
    ensures
        group_parse(path + seq![TAB] + marker) == Some((path, marker)),
{
    let r = path + seq![TAB] + marker;
    assert(r[path.len() as int] == TAB);
    lemma_first_sep_char(r, TAB, path.len() as int);
    assert(r.subrange(0, path.len() as int) =~= path);
    assert(r.subrange(path.len() as int + 1, r.len() as int) =~= marker);
}

/// After the kernel appends an argument-list record to a queue that ends at a
/// record boundary, the runner reads one more record, of kind `A`, whose
/// payload parses to exactly what was written.
pub proof fn lemma_argv_record_read_back(
    q: Seq<u8>,
    timeout_ms: usize,
    executable: Seq<u8>,
    args: Seq<Seq<u8>>,
)
    requires
        queue_closed(q),
        executable.len() > 0,
        no_tab(executable),
        no_nul(executable),
        all_no_tab(args),
        all_no_nul(args),
    ensures
        ({
            let payload = argv_payload(timeout_ms as nat, executable, args);
            &&& records(q + record_bytes(KIND_ARGV, payload)) == records(q) + seq![
                seq![KIND_ARGV] + payload,
            ]
            &&& kind_of(KIND_ARGV) == RecordKind::Argv
            &&& argv_parse(fields(payload)) == Ok::<
                (usize, Seq<u8>, Option<Seq<u8>>, Seq<Seq<u8>>),
                RecordError,
            >(argv_meaning(timeout_ms, executable, args))
        }),
{
    let payload = argv_payload(timeout_ms as nat, executable, args);
    lemma_decimal_plain(timeout_ms as nat);
    lemma_tab_fields_no_nul(args);
    let d = decimal(timeout_ms as nat);
    let t = tab_fields(args);
    assert(payload =~= d + (seq![TAB] + (executable + t)));
    assert forall|k: int| 0 <= k < payload.len() implies payload[k] != NUL by {
        if k < d.len() {
            assert(payload[k] == d[k]);
        } else if k > d.len() && k < d.len() + 1 + executable.len() {
            assert(payload[k] == executable[k - d.len() - 1]);
        } else if k >= d.len() + 1 + executable.len() {
            assert(payload[k] == t[k - d.len() - 1 - executable.len()]);
        }
    }
    lemma_records_push(q, KIND_ARGV, payload);
    lemma_argv_round_trip(timeout_ms, executable, args);
}

// ---------------------------------------------------------------- running

/// The path the runner executes for a queued name: `./name` with a NUL.
pub open spec fn exec_path_spec(name: Seq<u8>) -> Seq<u8> {
    text::dot_slash_spec() + name + seq![NUL]
}

/// The NUL-terminated path `./name`.
pub fn exec_path(name: &[u8]) -> (r: Vec<u8>)
    ensures
        r@ == exec_path_spec(name@),
{
    let mut path = text::dot_slash();
    extend_from(&mut path, name);
    path.push(NUL);
    assert(path@ =~= exec_path_spec(name@));
    path
}

/// The argument strings of a run: the program's own name, then each argument,
/// each terminated by a NUL.
pub open spec fn argv_strings_spec(
    name: Seq<u8>,
    argv0: Option<Seq<u8>>,
    args: Seq<Seq<u8>>,
) -> Seq<Seq<u8>> {
    let first = match argv0 {
        Some(a) => a + seq![NUL],
        None => exec_path_spec(name),
    };
    seq![first] + Seq::new(args.len(), |i: int| args[i] + seq![NUL])
}

/// The NUL-terminated argument strings of a run.
pub fn argv_strings(name: &[u8], argv0: &Option<Vec<u8>>, args: &[Vec<u8>]) -> (r: Vec<Vec<u8>>)
    ensures
        byte_views(r@) == argv_strings_spec(name@, opt_bytes(*argv0), byte_views(args@)),
{
    let mut out: Vec<Vec<u8>> = Vec::new();
    let first = match argv0 {
        Some(a) => {
            let mut b = copy_all(a.as_slice());
            b.push(NUL);
            b
        },
        None => exec_path(name),
    };
    let ghost first_view0 = first@;
    out.push(first);
    let ghost whole = argv_strings_spec(name@, opt_bytes(*argv0), byte_views(args@));
    assert(whole.len() == args@.len() + 1);
    assert(whole[0] == first_view0) by {
        match argv0 {
            Some(a) => {},
            None => {},
        }
    }
    assert(byte_views(out@)[0] == first_view0);
    assert(byte_views(out@) =~= whole.subrange(0, 1));
    let mut i: usize = 0;
    while i < args.len()
        invariant
            i <= args@.len(),
            whole == argv_strings_spec(name@, opt_bytes(*argv0), byte_views(args@)),
            byte_views(out@) == whole.subrange(0, i + 1),
        decreases args@.len() - i,
    {
        let ghost before = out@;
        let arg: &Vec<u8> = &args[i];
        let mut b = copy_all(arg.as_slice());
        b.push(NUL);
        let ghost bv = b@;
        assert(bv =~= args@[i as int]@ + seq![NUL]);
        out.push(b);
        assert(byte_views(args@)[i as int] == args@[i as int]@);
        assert(whole[i + 1] == args@[i as int]@ + seq![NUL]);
        assert(whole.len() == args@.len() + 1);
        assert(byte_views(out@) =~= byte_views(before).push(args@[i as int]@ + seq![NUL]));
        assert(byte_views(out@) =~= whole.subrange(0, i + 2));
        i = i + 1;
    }
    assert(byte_views(out@) =~= argv_strings_spec(name@, opt_bytes(*argv0), byte_views(args@)));
    out
}

/// What the runner does after one poll of a timed child.
#[derive(PartialEq, Eq, Structural, Clone, Copy, Debug)]
pub enum WaitStep {
    /// The child exited; its status is final.
    Exited,
    /// The wait itself failed.
    Failed,
    /// The timeout has passed: kill the child.
    Kill,
    /// Sleep one poll interval and poll again.
    Sleep,
}

/// The runner's decision after polling a timed child: `ret` is what the
/// non-blocking wait returned for `pid`.
pub fn wait_step(ret: isize, pid: isize, elapsed_ms: usize, timeout_ms: usize) -> (r: WaitStep)
    ensures
        r == (if ret == pid {
            WaitStep::Exited
        } else if ret < 0 {
            WaitStep::Failed
        } else if elapsed_ms >= timeout_ms {
            WaitStep::Kill
        } else {
            WaitStep::Sleep
        }),
{
    if ret == pid {
        WaitStep::Exited
    } else if ret < 0 {
        WaitStep::Failed
    } else if elapsed_ms >= timeout_ms {
        WaitStep::Kill
    } else {
        WaitStep::Sleep
    }
}

/// How many bytes of a chunk of `count` bytes the runner keeps when it has
/// already read `data_len` bytes of the queue file.
pub fn metadata_take(data_len: usize, count: usize) -> (r: usize)
    requires
        data_len <= METADATA_LIMIT,
    ensures
        r == (if count < METADATA_LIMIT - data_len { count } else { (METADATA_LIMIT - data_len) as usize }),
{
    let remaining = METADATA_LIMIT - data_len;
    if count < remaining {
        count
    } else {
        remaining
    }
}

} // verus!
