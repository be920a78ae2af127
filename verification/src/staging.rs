//! Text handling for staging the competition's test groups: paths, shell
//! words, script markers and libc-test case names.
use vstd::prelude::*;
use crate::bytes::{copy_all, copy_range, bytes_eq, extend_from, ends_with, has_suffix};
use crate::queue::{byte_views, TAB};
use crate::runner::{pieces, split_on, nonempty_piece, first_sep, lemma_first_sep_char};
use crate::script::{basename, find_from, find_bytes_from, lemma_find_from, path_basename_eq};
use crate::text;

verus! {

/// `/`.
pub const SLASH: u8 = 47;
/// `"`.
pub const DQUOTE: u8 = 34;
/// `'`.
pub const SQUOTE: u8 = 39;
/// ` `.
pub const SPACE: u8 = 32;
/// `=`.
pub const EQUALS: u8 = 61;

// ---------------------------------------------------------------- paths

/// The last component of `path`, if it is not empty.
pub fn file_name(path: &[u8]) -> (r: Option<Vec<u8>>)
    ensures
        match r {
            Some(n) => n@ == basename(path@) && n@.len() > 0,
            None => basename(path@).len() == 0,
        },
{
    let mut start: usize = 0;
    let mut index: usize = 0;
    while index < path.len()
        invariant
            index <= path@.len(),
            start <= index,
            basename(path@.subrange(0, index as int)) == path@.subrange(start as int, index as int),
        decreases path@.len() - index,
    {
        let ghost p = path@.subrange(0, index + 1);
        assert(p.drop_last() =~= path@.subrange(0, index as int));
        if path[index] == SLASH {
            start = index + 1;
            assert(path@.subrange(start as int, index + 1) =~= Seq::<u8>::empty());
        } else {
            assert(path@.subrange(start as int, index + 1) =~= path@.subrange(
                start as int,
                index as int,
            ).push(path@[index as int]));
        }
        index = index + 1;
    }
    assert(path@.subrange(0, path@.len() as int) =~= path@);
    if start == path.len() {
        None
    } else {
        Some(copy_range(path, start, path.len()))
    }
}

/// The non-empty pieces, in order.
pub open spec fn nonempty_pieces(parts: Seq<Seq<u8>>) -> Seq<Seq<u8>>
    decreases parts.len(),
{
    if parts.len() == 0 {
        Seq::empty()
    } else {
        nonempty_pieces(parts.drop_last()) + nonempty_piece(parts.last())
    }
}

/// One component applied to a stack of directory names: empty and `.` are
/// skipped, `..` drops the last name (if any), anything else is appended.
pub open spec fn path_step(stack: Seq<Seq<u8>>, part: Seq<u8>) -> Seq<Seq<u8>> {
    if part.len() == 0 || part == text::dot_spec() {
        stack
    } else if part == text::dotdot_spec() {
        if stack.len() > 0 {
            stack.drop_last()
        } else {
            stack
        }
    } else {
        stack.push(part)
    }
}

/// The components applied in order to `stack`.
pub open spec fn walk_parts(stack: Seq<Seq<u8>>, parts: Seq<Seq<u8>>) -> Seq<Seq<u8>>
    decreases parts.len(),
{
    if parts.len() == 0 {
        stack
    } else {
        path_step(walk_parts(stack, parts.drop_last()), parts.last())
    }
}

/// The names joined with slashes.
pub open spec fn join_slash(parts: Seq<Seq<u8>>) -> Seq<u8>
    decreases parts.len(),
{
    if parts.len() == 0 {
        Seq::empty()
    } else if parts.len() == 1 {
        parts[0]
    } else {
        join_slash(parts.drop_last()) + seq![SLASH] + parts.last()
    }
}

/// `path` resolved against the directory `base`, as a relative path without
/// leading or trailing slashes. An absolute `path` ignores `base`; the names
/// of `base` are taken as they stand.
pub open spec fn resolve_spec(base: Seq<u8>, path: Seq<u8>) -> Seq<u8> {
    let init = if path.len() > 0 && path[0] == SLASH {
        Seq::empty()
    } else {
        nonempty_pieces(pieces(base, SLASH))
    };
    join_slash(walk_parts(init, pieces(path, SLASH)))
}

/// The names joined with slashes.
pub fn join_with_slash(parts: &Vec<Vec<u8>>) -> (r: Vec<u8>)
    ensures
        r@ == join_slash(byte_views(parts@)),
{
    let mut out: Vec<u8> = Vec::new();
    let mut i: usize = 0;
    while i < parts.len()
        invariant
            i <= parts@.len(),
            out@ == join_slash(byte_views(parts@).subrange(0, i as int)),
        decreases parts@.len() - i,
    {
        let ghost pre = byte_views(parts@).subrange(0, i + 1);
        assert(pre.drop_last() =~= byte_views(parts@).subrange(0, i as int));
        assert(pre.last() == parts@[i as int]@);
        if i > 0 {
            out.push(SLASH);
        } else {
            assert(out@ =~= Seq::<u8>::empty());
        }
        extend_from(&mut out, parts[i].as_slice());
        assert(out@ =~= join_slash(pre));
        i = i + 1;
    }
    assert(byte_views(parts@).subrange(0, parts@.len() as int) =~= byte_views(parts@));
    out
}

/// Applies `path_step` to a stack held in a vector.
fn apply_path_step(stack: &mut Vec<Vec<u8>>, part: &Vec<u8>)
    ensures
        byte_views(final(stack)@) == path_step(byte_views(old(stack)@), part@),
{
    let dot = text::dot();
    let dotdot = text::dotdot();
    if part.len() == 0 || bytes_eq(part.as_slice(), dot.as_slice()) {
    } else if bytes_eq(part.as_slice(), dotdot.as_slice()) {
        if stack.len() > 0 {
            let _ = stack.pop();
            assert(byte_views(stack@) =~= byte_views(old(stack)@).drop_last());
        }
    } else {
        let copy = copy_all(part.as_slice());
        stack.push(copy);
        assert(byte_views(stack@) =~= byte_views(old(stack)@).push(part@));
    }
}

/// `path` resolved against the directory `base` (see `resolve_spec`).
pub fn resolve_path(base: &[u8], path: &[u8]) -> (r: Vec<u8>)
    ensures
        r@ == resolve_spec(base@, path@),
{
    let mut stack: Vec<Vec<u8>> = Vec::new();
    let absolute = path.len() > 0 && path[0] == SLASH;
    if !absolute {
        let base_parts = split_on(base, SLASH);
        let ghost bp = byte_views(base_parts@);
        let mut i: usize = 0;
        while i < base_parts.len()
            invariant
                i <= base_parts@.len(),
                bp == byte_views(base_parts@),
                byte_views(stack@) == nonempty_pieces(bp.subrange(0, i as int)),
            decreases base_parts@.len() - i,
        {
            let ghost pre = bp.subrange(0, i + 1);
            assert(pre.drop_last() =~= bp.subrange(0, i as int));
            assert(pre.last() == base_parts@[i as int]@);
            if base_parts[i].len() > 0 {
                let copy = copy_all(base_parts[i].as_slice());
                let ghost before = stack@;
                stack.push(copy);
                assert(byte_views(stack@) =~= byte_views(before).push(base_parts@[i as int]@));
            } else {
                assert(nonempty_piece(pre.last()) =~= Seq::<Seq<u8>>::empty());
            }
            assert(byte_views(stack@) =~= nonempty_pieces(pre));
            i = i + 1;
        }
        assert(bp.subrange(0, base_parts@.len() as int) =~= bp);
    } else {
        assert(byte_views(stack@) =~= Seq::<Seq<u8>>::empty());
    }
    let ghost init = byte_views(stack@);
    let parts = split_on(path, SLASH);
    let ghost pp = byte_views(parts@);
    let mut j: usize = 0;
    assert(pp.subrange(0, 0) =~= Seq::<Seq<u8>>::empty());
    while j < parts.len()
        invariant
            j <= parts@.len(),
            pp == byte_views(parts@),
            byte_views(stack@) == walk_parts(init, pp.subrange(0, j as int)),
        decreases parts@.len() - j,
    {
        let ghost pre = pp.subrange(0, j + 1);
        assert(pre.drop_last() =~= pp.subrange(0, j as int));
        assert(pre.last() == parts@[j as int]@);
        apply_path_step(&mut stack, &parts[j]);
        j = j + 1;
    }
    assert(pp.subrange(0, parts@.len() as int) =~= pp);
    join_with_slash(&stack)
}

// ---------------------------------------------------------------- scripts

/// The bytes of `name="`.
pub open spec fn assignment_prefix(name: Seq<u8>) -> Seq<u8> {
    name + seq![EQUALS, DQUOTE]
}

/// The value of the first `name="..."` assignment in a script: the bytes up to
/// the next double quote.
pub open spec fn quoted_assignment_spec(script: Seq<u8>, name: Seq<u8>) -> Option<Seq<u8>> {
    let pre = assignment_prefix(name);
    match find_from(script, pre, 0) {
        None => None,
        Some(k) => match find_from(script, seq![DQUOTE], k + pre.len()) {
            None => None,
            Some(e) => Some(script.subrange(k + pre.len(), e)),
        },
    }
}

/// The value of the first `name="..."` assignment in a script.
pub fn quoted_assignment(script: &[u8], name: &[u8]) -> (r: Option<Vec<u8>>)
    ensures
        opt_view(r) == quoted_assignment_spec(script@, name@),
{
    let mut pre = copy_all(name);
    pre.push(EQUALS);
    pre.push(DQUOTE);
    assert(pre@ =~= assignment_prefix(name@));
    let script_len = script.len();
    let found = find_bytes_from(script, pre.as_slice(), 0);
    let k = match found {
        None => {
            assert(script@.len() == 0 ==> find_from(script@, pre@, 0) is None);
            return None;
        },
        Some(k) => k,
    };
    proof {
        lemma_find_from(script@, pre@, 0);
        assert(find_from(script@, pre@, 0) == Some(k as int));
    }
    assert(k + pre@.len() <= script@.len());
    let start = k + pre.len();
    let quote: Vec<u8> = vec![DQUOTE];
    assert(quote@ =~= seq![DQUOTE]);
    let end = find_bytes_from(script, quote.as_slice(), start);
    match end {
        None => {
            assert(start >= script@.len() ==> find_from(script@, seq![DQUOTE], start as int) is None);
            None
        },
        Some(e) => {
            proof {
                lemma_find_from(script@, seq![DQUOTE], start as int);
                assert(find_from(script@, quote@, start as int) == Some(e as int));
            }
            Some(copy_range(script, start, e))
        },
    }
}

/// The contents of an optional byte vector.
pub open spec fn opt_view(o: Option<Vec<u8>>) -> Option<Seq<u8>> {
    match o {
        Some(v) => Some(v@),
        None => None,
    }
}

/// `#### OS COMP TEST GROUP <kind> `.
pub open spec fn marker_prefix(kind: Seq<u8>) -> Seq<u8> {
    text::group_marker_prefix_spec() + kind + seq![SPACE]
}

/// The first group marker of the given kind in a script: from its prefix to
/// the next `####`, inclusive.
pub open spec fn group_marker_spec(script: Seq<u8>, kind: Seq<u8>) -> Option<Seq<u8>> {
    let pre = marker_prefix(kind);
    match find_from(script, pre, 0) {
        None => None,
        Some(k) => match find_from(script, text::marker_end_spec(), k + pre.len()) {
            None => None,
            Some(m) => Some(script.subrange(k, m + 4)),
        },
    }
}

/// The first `#### OS COMP TEST GROUP <kind> ... ####` marker in a script.
pub fn find_group_marker(script: &[u8], kind: &[u8]) -> (r: Option<Vec<u8>>)
    ensures
        opt_view(r) == group_marker_spec(script@, kind@),
{
    let mut pre = text::group_marker_prefix();
    extend_from(&mut pre, kind);
    pre.push(SPACE);
    assert(pre@ =~= marker_prefix(kind@));
    let script_len = script.len();
    let found = find_bytes_from(script, pre.as_slice(), 0);
    let k = match found {
        None => {
            assert(script@.len() == 0 ==> find_from(script@, pre@, 0) is None);
            return None;
        },
        Some(k) => k,
    };
    proof {
        lemma_find_from(script@, pre@, 0);
        assert(find_from(script@, pre@, 0) == Some(k as int));
    }
    assert(k + pre@.len() <= script@.len());
    let start = k + pre.len();
    let end_mark = text::marker_end();
    let end = find_bytes_from(script, end_mark.as_slice(), start);
    match end {
        None => {
            assert(start >= script@.len() ==> find_from(script@, end_mark@, start as int) is None);
            None
        },
        Some(m) => {
            proof {
                lemma_find_from(script@, end_mark@, start as int);
                assert(find_from(script@, end_mark@, start as int) == Some(m as int));
                assert(end_mark@.len() == 4);
            }
            Some(copy_range(script, k, m + 4))
        },
    }
}

/// `value` without one pair of matching surrounding double or single quotes.
pub open spec fn trim_quotes_spec(v: Seq<u8>) -> Seq<u8> {
    if v.len() >= 2 && v[0] == DQUOTE && v.last() == DQUOTE {
        v.subrange(1, v.len() - 1)
    } else if v.len() >= 2 && v[0] == SQUOTE && v.last() == SQUOTE {
        v.subrange(1, v.len() - 1)
    } else {
        v
    }
}

/// `value` without one pair of matching surrounding quotes.
pub fn trim_shell_quotes(value: &[u8]) -> (r: Vec<u8>)
    ensures
        r@ == trim_quotes_spec(value@),
{
    let n = value.len();
    if n >= 2 && ((value[0] == DQUOTE && value[n - 1] == DQUOTE) || (value[0] == SQUOTE && value[n
        - 1] == SQUOTE)) {
        copy_range(value, 1, n - 1)
    } else {
        copy_all(value)
    }
}

/// The state of splitting a line into shell words: the finished words, the
/// word being read, and the quote that is open.
pub open spec fn shell_step(
    st: (Seq<Seq<u8>>, Seq<u8>, Option<u8>),
    ch: u8,
) -> (Seq<Seq<u8>>, Seq<u8>, Option<u8>) {
    match st.2 {
        Some(q) => if ch == q {
            (st.0, st.1, None)
        } else {
            (st.0, st.1.push(ch), Some(q))
        },
        None => if ch == SQUOTE || ch == DQUOTE {
            (st.0, st.1, Some(ch))
        } else if ch == SPACE || ch == TAB {
            if st.1.len() > 0 {
                (st.0.push(st.1), Seq::empty(), None)
            } else {
                st
            }
        } else {
            (st.0, st.1.push(ch), None)
        },
    }
}

/// The splitting state after reading all of `line`.
pub open spec fn shell_scan(line: Seq<u8>) -> (Seq<Seq<u8>>, Seq<u8>, Option<u8>)
    decreases line.len(),
{
    if line.len() == 0 {
        (Seq::empty(), Seq::empty(), None)
    } else {
        shell_step(shell_scan(line.drop_last()), line.last())
    }
}

/// The shell words of a line: runs separated by unquoted spaces and tabs,
/// with quote characters removed; an unterminated quote runs to the end.
pub open spec fn shell_words(line: Seq<u8>) -> Seq<Seq<u8>> {
    let st = shell_scan(line);
    st.0 + nonempty_piece(st.1)
}

/// The shell words of a line.
pub fn split_shell_words(line: &[u8]) -> (r: Vec<Vec<u8>>)
    ensures
        byte_views(r@) == shell_words(line@),
{
    let mut words: Vec<Vec<u8>> = Vec::new();
    let mut current: Vec<u8> = Vec::new();
    let mut quote: Option<u8> = None;
    let mut i: usize = 0;
    assert(line@.subrange(0, 0) =~= Seq::<u8>::empty());
    while i < line.len()
        invariant
            i <= line@.len(),
            (byte_views(words@), current@, quote) == shell_scan(line@.subrange(0, i as int)),
        decreases line@.len() - i,
    {
        let ghost pre = line@.subrange(0, i + 1);
        assert(pre.drop_last() =~= line@.subrange(0, i as int));
        let ch = line[i];
        match quote {
            Some(q) => {
                if ch == q {
                    quote = None;
                } else {
                    current.push(ch);
                }
            },
            None => {
                if ch == SQUOTE || ch == DQUOTE {
                    quote = Some(ch);
                } else if ch == SPACE || ch == TAB {
                    if current.len() > 0 {
                        let ghost before = words@;
                        let word = copy_all(current.as_slice());
                        words.push(word);
                        assert(byte_views(words@) =~= byte_views(before).push(current@));
                        current = Vec::new();
                    }
                } else {
                    current.push(ch);
                }
            },
        }
        i = i + 1;
    }
    assert(line@.subrange(0, line@.len() as int) =~= line@);
    if current.len() > 0 {
        let ghost before = words@;
        words.push(current);
        assert(byte_views(words@) =~= byte_views(before) + nonempty_piece(current@));
    } else {
        assert(byte_views(words@) =~= byte_views(words@) + nonempty_piece(current@));
    }
    words
}

// ---------------------------------------------------------------- libc-test cases

/// At most this many libc-test cases are staged.
pub const MAX_LIBCTEST_CASES: usize = 107;
/// `#`.
pub const HASH: u8 = 35;
/// A line feed.
pub const NEWLINE: u8 = 10;

/// Whether `b` is ASCII whitespace.
pub open spec fn is_ws(b: u8) -> bool {
    b == SPACE || b == TAB || b == NEWLINE || b == 11 || b == 12 || b == 13
}

/// One byte of splitting at whitespace: the finished words and the word being read.
pub open spec fn ws_step(st: (Seq<Seq<u8>>, Seq<u8>), b: u8) -> (Seq<Seq<u8>>, Seq<u8>) {
    if is_ws(b) {
        if st.1.len() > 0 {
            (st.0.push(st.1), Seq::empty())
        } else {
            st
        }
    } else {
        (st.0, st.1.push(b))
    }
}

/// The state of splitting `s` at whitespace after reading all of it.
pub open spec fn ws_scan(s: Seq<u8>) -> (Seq<Seq<u8>>, Seq<u8>)
    decreases s.len(),
{
    if s.len() == 0 {
        (Seq::empty(), Seq::empty())
    } else {
        ws_step(ws_scan(s.drop_last()), s.last())
    }
}

/// The whitespace-separated words of `s`.
pub open spec fn ws_words(s: Seq<u8>) -> Seq<Seq<u8>> {
    ws_scan(s).0 + nonempty_piece(ws_scan(s).1)
}

/// The whitespace-separated words of `s`.
pub fn split_whitespace(s: &[u8]) -> (r: Vec<Vec<u8>>)
    ensures
        byte_views(r@) == ws_words(s@),
{
    let mut words: Vec<Vec<u8>> = Vec::new();
    let mut current: Vec<u8> = Vec::new();
    let mut i: usize = 0;
    assert(s@.subrange(0, 0) =~= Seq::<u8>::empty());
    while i < s.len()
        invariant
            i <= s@.len(),
            (byte_views(words@), current@) == ws_scan(s@.subrange(0, i as int)),
        decreases s@.len() - i,
    {
        let ghost pre = s@.subrange(0, i + 1);
        assert(pre.drop_last() =~= s@.subrange(0, i as int));
        let b = s[i];
        if b == SPACE || b == TAB || b == NEWLINE || b == 11 || b == 12 || b == 13 {
            if current.len() > 0 {
                let ghost before = words@;
                let word = copy_all(current.as_slice());
                words.push(word);
                assert(byte_views(words@) =~= byte_views(before).push(current@));
                current = Vec::new();
            }
        } else {
            current.push(b);
        }
        i = i + 1;
    }
    assert(s@.subrange(0, s@.len() as int) =~= s@);
    if current.len() > 0 {
        let ghost before = words@;
        words.push(current);
        assert(byte_views(words@) =~= byte_views(before) + nonempty_piece(current@));
    } else {
        assert(byte_views(words@) =~= byte_views(words@) + nonempty_piece(current@));
    }
    words
}

/// `s` without leading whitespace.
pub open spec fn trim_ws_start(s: Seq<u8>) -> Seq<u8>
    decreases s.len(),
{
    if s.len() > 0 && is_ws(s[0]) {
        trim_ws_start(s.drop_first())
    } else {
        s
    }
}

/// `s` without trailing whitespace.
pub open spec fn trim_ws_end(s: Seq<u8>) -> Seq<u8>
    decreases s.len(),
{
    if s.len() > 0 && is_ws(s.last()) {
        trim_ws_end(s.drop_last())
    } else {
        s
    }
}

/// `s` without surrounding whitespace.
pub open spec fn trim_ws(s: Seq<u8>) -> Seq<u8> {
    trim_ws_end(trim_ws_start(s))
}

/// The bounds of `trim_ws_start(s[lo..hi])` within `s`.
proof fn lemma_trim_start_at(s: Seq<u8>, lo: int, hi: int)
    requires
        0 <= lo <= hi <= s.len(),
        lo < hi ==> !is_ws(s[lo]),
    ensures
        trim_ws_start(s.subrange(lo, hi)) == s.subrange(lo, hi),
{
}

/// `s` without surrounding whitespace.
pub fn trim_whitespace(s: &[u8]) -> (r: Vec<u8>)
    ensures
        r@ == trim_ws(s@),
{
    let mut lo: usize = 0;
    assert(s@.subrange(0, s@.len() as int) =~= s@);
    while lo < s.len() && (s[lo] == SPACE || s[lo] == TAB || s[lo] == NEWLINE || s[lo] == 11
        || s[lo] == 12 || s[lo] == 13)
        invariant
            lo <= s@.len(),
            trim_ws_start(s@.subrange(lo as int, s@.len() as int)) == trim_ws_start(s@),
        decreases s@.len() - lo,
    {
        assert(s@.subrange(lo as int, s@.len() as int).drop_first() =~= s@.subrange(
            lo + 1,
            s@.len() as int,
        ));
        lo = lo + 1;
    }
    let mut hi: usize = s.len();
    let ghost front = s@.subrange(lo as int, s@.len() as int);
    assert(trim_ws_start(front) == front);
    while hi > lo && (s[hi - 1] == SPACE || s[hi - 1] == TAB || s[hi - 1] == NEWLINE || s[hi - 1]
        == 11 || s[hi - 1] == 12 || s[hi - 1] == 13)
        invariant
            lo <= hi <= s@.len(),
            front == s@.subrange(lo as int, s@.len() as int),
            trim_ws_end(s@.subrange(lo as int, hi as int)) == trim_ws_end(front),
        decreases hi,
    {
        assert(s@.subrange(lo as int, hi as int).drop_last() =~= s@.subrange(lo as int, hi - 1));
        hi = hi - 1;
    }
    assert(trim_ws_end(s@.subrange(lo as int, hi as int)) == s@.subrange(lo as int, hi as int));
    copy_range(s, lo, hi)
}

/// Whether `b` is punctuation trimmed off a libc-test case name.
pub open spec fn is_case_punct(b: u8) -> bool {
    b == 59 || b == 44 || b == 40 || b == 41 || b == 91 || b == 93
}

/// `s` without leading punctuation.
pub open spec fn trim_punct_start(s: Seq<u8>) -> Seq<u8>
    decreases s.len(),
{
    if s.len() > 0 && is_case_punct(s[0]) {
        trim_punct_start(s.drop_first())
    } else {
        s
    }
}

/// `s` without trailing punctuation.
pub open spec fn trim_punct_end(s: Seq<u8>) -> Seq<u8>
    decreases s.len(),
{
    if s.len() > 0 && is_case_punct(s.last()) {
        trim_punct_end(s.drop_last())
    } else {
        s
    }
}

/// `name` without a `-static.exe`, `.exe` or `-static` suffix (the first that fits).
pub open spec fn strip_case_suffix(name: Seq<u8>) -> Seq<u8> {
    if has_suffix(name, text::static_exe_suffix_spec()) {
        name.subrange(0, name.len() - text::static_exe_suffix_spec().len())
    } else if has_suffix(name, text::exe_suffix_spec()) {
        name.subrange(0, name.len() - text::exe_suffix_spec().len())
    } else if has_suffix(name, text::static_suffix_spec()) {
        name.subrange(0, name.len() - text::static_suffix_spec().len())
    } else {
        name
    }
}

/// The case name a word of a run script stands for: quotes and surrounding
/// punctuation removed, the last path component, without executable suffix.
pub open spec fn normalize_case_spec(word: Seq<u8>) -> Seq<u8> {
    strip_case_suffix(basename(trim_punct_end(trim_punct_start(trim_quotes_spec(word)))))
}

/// The case name a word of a run script stands for.
pub fn normalize_libctest_case(value: &[u8]) -> (r: Vec<u8>)
    ensures
        r@ == normalize_case_spec(value@),
{
    let t = trim_shell_quotes(value);
    let mut lo: usize = 0;
    assert(t@.subrange(0, t@.len() as int) =~= t@);
    while lo < t.len() && (t[lo] == 59 || t[lo] == 44 || t[lo] == 40 || t[lo] == 41 || t[lo] == 91
        || t[lo] == 93)
        invariant
            lo <= t@.len(),
            trim_punct_start(t@.subrange(lo as int, t@.len() as int)) == trim_punct_start(t@),
        decreases t@.len() - lo,
    {
        assert(t@.subrange(lo as int, t@.len() as int).drop_first() =~= t@.subrange(
            lo + 1,
            t@.len() as int,
        ));
        lo = lo + 1;
    }
    let ghost front = t@.subrange(lo as int, t@.len() as int);
    assert(t@.subrange(0, t@.len() as int) =~= t@);
    assert(trim_punct_start(front) == front);
    let mut hi: usize = t.len();
    while hi > lo && (t[hi - 1] == 59 || t[hi - 1] == 44 || t[hi - 1] == 40 || t[hi - 1] == 41
        || t[hi - 1] == 91 || t[hi - 1] == 93)
        invariant
            lo <= hi <= t@.len(),
            front == t@.subrange(lo as int, t@.len() as int),
            trim_punct_end(t@.subrange(lo as int, hi as int)) == trim_punct_end(front),
        decreases hi,
    {
        assert(t@.subrange(lo as int, hi as int).drop_last() =~= t@.subrange(lo as int, hi - 1));
        hi = hi - 1;
    }
    let trimmed = copy_range(t.as_slice(), lo, hi);
    assert(trim_punct_end(trimmed@) == trimmed@);
    let name = match file_name(trimmed.as_slice()) {
        Some(n) => n,
        None => Vec::new(),
    };
    assert(name@ =~= basename(trimmed@));
    let s1 = text::static_exe_suffix();
    let s2 = text::exe_suffix();
    let s3 = text::static_suffix();
    if ends_with(name.as_slice(), s1.as_slice()) {
        copy_range(name.as_slice(), 0, name.len() - s1.len())
    } else if ends_with(name.as_slice(), s2.as_slice()) {
        copy_range(name.as_slice(), 0, name.len() - s2.len())
    } else if ends_with(name.as_slice(), s3.as_slice()) {
        copy_range(name.as_slice(), 0, name.len() - s3.len())
    } else {
        name
    }
}

/// Whether `name` is one of the libc-test cases the harness runs.
pub open spec fn libctest_allowed(name: Seq<u8>) -> bool {
    pieces(text::libctest_allowlist_spec(), SPACE).contains(name)
}

/// Whether `name` is one of the libc-test cases the harness runs.
pub fn is_allowed_libctest_case(name: &[u8]) -> (r: bool)
    ensures
        r == libctest_allowed(name@),
{
    let list = text::libctest_allowlist();
    let names = split_on(list.as_slice(), SPACE);
    let ghost nv = byte_views(names@);
    let mut i: usize = 0;
    while i < names.len()
        invariant
            i <= names@.len(),
            nv == byte_views(names@),
            nv == pieces(text::libctest_allowlist_spec(), SPACE),
            forall|k: int| 0 <= k < i ==> nv[k] != name@,
        decreases names@.len() - i,
    {
        if bytes_eq(names[i].as_slice(), name) {
            assert(nv[i as int] == name@);
            return true;
        }
        i = i + 1;
    }
    false
}

/// Whether `cases` holds `name`.
pub fn contains_bytes(cases: &Vec<Vec<u8>>, name: &[u8]) -> (r: bool)
    ensures
        r == byte_views(cases@).contains(name@),
{
    let mut i: usize = 0;
    while i < cases.len()
        invariant
            i <= cases@.len(),
            forall|k: int| 0 <= k < i ==> byte_views(cases@)[k] != name@,
        decreases cases@.len() - i,
    {
        if bytes_eq(cases[i].as_slice(), name) {
            assert(byte_views(cases@)[i as int] == name@);
            return true;
        }
        i = i + 1;
    }
    false
}

/// One word of a run script considered as a case: once the limit is reached
/// nothing more is added; an allowed case not yet seen is appended.
pub open spec fn case_step(cases: Seq<Seq<u8>>, word: Seq<u8>) -> Seq<Seq<u8>> {
    let c = normalize_case_spec(word);
    if cases.len() >= MAX_LIBCTEST_CASES || !libctest_allowed(c) || cases.contains(c) {
        cases
    } else {
        cases.push(c)
    }
}

/// The words considered in order.
pub open spec fn cases_fold(cases: Seq<Seq<u8>>, words: Seq<Seq<u8>>) -> Seq<Seq<u8>>
    decreases words.len(),
{
    if words.len() == 0 {
        cases
    } else {
        case_step(cases_fold(cases, words.drop_last()), words.last())
    }
}

/// Considers one word as a case (see `case_step`).
fn consider_case(cases: &mut Vec<Vec<u8>>, word: &[u8])
    ensures
        byte_views(final(cases)@) == case_step(byte_views(old(cases)@), word@),
{
    if cases.len() < MAX_LIBCTEST_CASES {
        let candidate = normalize_libctest_case(word);
        if is_allowed_libctest_case(candidate.as_slice()) && !contains_bytes(cases, candidate.as_slice()) {
            cases.push(candidate);
            assert(byte_views(cases@) =~= byte_views(old(cases)@).push(candidate@));
        }
    }
}

/// Adds the allowed cases named by the whitespace-separated words of `value`.
pub fn push_libctest_words(value: &[u8], cases: &mut Vec<Vec<u8>>)
    ensures
        byte_views(final(cases)@) == cases_fold(byte_views(old(cases)@), ws_words(value@)),
{
    let words = split_whitespace(value);
    let ghost wv = byte_views(words@);
    let mut i: usize = 0;
    assert(wv.subrange(0, 0) =~= Seq::<Seq<u8>>::empty());
    while i < words.len()
        invariant
            i <= words@.len(),
            wv == byte_views(words@),
            wv == ws_words(value@),
            byte_views(cases@) == cases_fold(byte_views(old(cases)@), wv.subrange(0, i as int)),
        decreases words@.len() - i,
    {
        let ghost pre = wv.subrange(0, i + 1);
        assert(pre.drop_last() =~= wv.subrange(0, i as int));
        assert(pre.last() == words@[i as int]@);
        consider_case(cases, words[i].as_slice());
        i = i + 1;
    }
    assert(wv.subrange(0, words@.len() as int) =~= wv);
}

/// A run-script word as a case candidate: the part after its first `=`, if it has one.
pub open spec fn after_equals(w: Seq<u8>) -> Seq<u8> {
    let e = first_sep(w, EQUALS);
    if e < w.len() {
        w.subrange(e + 1, w.len() as int)
    } else {
        w
    }
}

/// The part of a word after its first `=`, or the word.
pub fn value_after_equals(w: &[u8]) -> (r: Vec<u8>)
    ensures
        r@ == after_equals(w@),
{
    let mut i: usize = 0;
    while i < w.len()
        invariant
            i <= w@.len(),
            forall|k: int| 0 <= k < i ==> w@[k] != EQUALS,
        decreases w@.len() - i,
    {
        if w[i] == EQUALS {
            proof {
                lemma_first_sep_char(w@, EQUALS, i as int);
            }
            return copy_range(w, i + 1, w.len());
        }
        i = i + 1;
    }
    proof {
        lemma_first_sep_char(w@, EQUALS, w@.len() as int);
    }
    copy_all(w)
}

/// The shell words of a line considered in order.
pub open spec fn shell_words_fold(cases: Seq<Seq<u8>>, ws: Seq<Seq<u8>>) -> Seq<Seq<u8>>
    decreases ws.len(),
{
    if ws.len() == 0 {
        cases
    } else {
        cases_fold(shell_words_fold(cases, ws.drop_last()), ws_words(after_equals(ws.last())))
    }
}

/// A run-script line without its comment and surrounding whitespace.
pub open spec fn clean_line(line: Seq<u8>) -> Seq<u8> {
    trim_ws(line.subrange(0, first_sep(line, HASH)))
}

/// The lines considered in order.
pub open spec fn lines_fold(cases: Seq<Seq<u8>>, lines: Seq<Seq<u8>>) -> Seq<Seq<u8>>
    decreases lines.len(),
{
    if lines.len() == 0 {
        cases
    } else {
        shell_words_fold(lines_fold(cases, lines.drop_last()), shell_words(clean_line(lines.last())))
    }
}

/// The libc-test cases a run script names, in order of first mention, at
/// most `MAX_LIBCTEST_CASES` of them.
pub open spec fn libctest_cases_spec(script: Seq<u8>) -> Seq<Seq<u8>> {
    lines_fold(Seq::empty(), pieces(script, NEWLINE))
}

/// A line without its comment and surrounding whitespace.
pub fn clean_script_line(line: &[u8]) -> (r: Vec<u8>)
    ensures
        r@ == clean_line(line@),
{
    let mut i: usize = 0;
    while i < line.len() && line[i] != HASH
        invariant
            i <= line@.len(),
            forall|k: int| 0 <= k < i ==> line@[k] != HASH,
        decreases line@.len() - i,
    {
        i = i + 1;
    }
    proof {
        lemma_first_sep_char(line@, HASH, i as int);
    }
    let before = copy_range(line, 0, i);
    trim_whitespace(before.as_slice())
}

/// The libc-test cases that a run script names.
pub fn find_libctest_cases(script: &[u8]) -> (r: Vec<Vec<u8>>)
    ensures
        byte_views(r@) == libctest_cases_spec(script@),
{
    let lines = split_on(script, NEWLINE);
    let ghost lv = byte_views(lines@);
    let mut cases: Vec<Vec<u8>> = Vec::new();
    let mut i: usize = 0;
    assert(lv.subrange(0, 0) =~= Seq::<Seq<u8>>::empty());
    assert(byte_views(cases@) =~= Seq::<Seq<u8>>::empty());
    while i < lines.len()
        invariant
            i <= lines@.len(),
            lv == byte_views(lines@),
            lv == pieces(script@, NEWLINE),
            byte_views(cases@) == lines_fold(Seq::empty(), lv.subrange(0, i as int)),
        decreases lines@.len() - i,
    {
        let ghost pre = lv.subrange(0, i + 1);
        assert(pre.drop_last() =~= lv.subrange(0, i as int));
        assert(pre.last() == lines@[i as int]@);
        let line = clean_script_line(lines[i].as_slice());
        let words = split_shell_words(line.as_slice());
        let ghost sv = byte_views(words@);
        let ghost start = byte_views(cases@);
        let mut j: usize = 0;
        assert(sv.subrange(0, 0) =~= Seq::<Seq<u8>>::empty());
        while j < words.len()
            invariant
                j <= words@.len(),
                sv == byte_views(words@),
                byte_views(cases@) == shell_words_fold(start, sv.subrange(0, j as int)),
            decreases words@.len() - j,
        {
            let ghost wpre = sv.subrange(0, j + 1);
            assert(wpre.drop_last() =~= sv.subrange(0, j as int));
            assert(wpre.last() == words@[j as int]@);
            let value = value_after_equals(words[j].as_slice());
            push_libctest_words(value.as_slice(), &mut cases);
            j = j + 1;
        }
        assert(sv.subrange(0, words@.len() as int) =~= sv);
        i = i + 1;
    }
    assert(lv.subrange(0, lines@.len() as int) =~= lv);
    cases
}

} // verus!
