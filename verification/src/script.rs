//! Parsing of the test scripts found on the test disk: tokens, lines, paths and the
//! `#### OS COMP TEST GROUP ... ####` markers.
use vstd::prelude::*;
use crate::bytes::{starts_with_at, copy_range, extend_from};
use crate::text;

verus! {

/// Longest path a script command keeps.
pub const SCRIPT_PATH_MAX: usize = 128;

/// Bytes that separate tokens before a token starts.
pub open spec fn is_lead_sep(c: u8) -> bool {
    c == 32u8 || c == 9u8 || c == 13u8 || c == 59u8
}

/// Bytes that end an unquoted token.
pub open spec fn is_token_end(c: u8) -> bool {
    c == 32u8 || c == 9u8 || c == 13u8 || c == 10u8 || c == 59u8 || c == 124u8 || c == 0u8
}

/// The first position at or after `i` that is not a leading separator.
pub open spec fn skip_seps(b: Seq<u8>, i: int) -> int
    decreases b.len() - i,
{
    if 0 <= i < b.len() && is_lead_sep(b[i]) { skip_seps(b, i + 1) } else { i }
}

/// The end of a token that starts at `i`, closed by `quote` (or by a delimiter when `quote` is 0).
pub open spec fn token_scan(b: Seq<u8>, i: int, quote: u8) -> int
    decreases b.len() - i,
{
    if 0 <= i < b.len() && !(if quote != 0 { b[i] == quote } else { is_token_end(b[i]) }) {
        token_scan(b, i + 1, quote)
    } else {
        i
    }
}

/// An unquoted token with no delimiter from `i` on runs to the end of `b`.
pub proof fn lemma_token_scan_to_end(b: Seq<u8>, i: int)
    requires
        0 <= i <= b.len(),
        forall|k: int| i <= k < b.len() ==> !is_token_end(#[trigger] b[k]),
    ensures
        token_scan(b, i, 0u8) == b.len(),
    decreases b.len() - i,
{
    if i < b.len() {
        lemma_token_scan_to_end(b, i + 1);
    }
}

/// The next shell token from `i`: its start, its end, and where scanning goes on.
pub open spec fn token_at(b: Seq<u8>, i: int) -> Option<(int, int, int)> {
    let k = skip_seps(b, i);
    if k >= b.len() || b[k] == 35u8 || b[k] == 0u8 {
        None
    } else {
        let quote: u8 = if b[k] == 34u8 || b[k] == 39u8 { b[k] } else { 0u8 };
        let start = if quote != 0 { k + 1 } else { k };
        let end = token_scan(b, start, quote);
        let next = if quote != 0 && end < b.len() { end + 1 } else { end };
        Some((start, end, next))
    }
}

proof fn lemma_skip_seps(b: Seq<u8>, i: int)
    requires
        0 <= i,
    ensures
        i <= skip_seps(b, i),
        i <= b.len() ==> skip_seps(b, i) <= b.len(),
    decreases b.len() - i,
{
    if 0 <= i < b.len() && is_lead_sep(b[i]) {
        lemma_skip_seps(b, i + 1);
    }
}

proof fn lemma_token_scan(b: Seq<u8>, i: int, quote: u8)
    requires
        0 <= i <= b.len(),
    ensures
        i <= token_scan(b, i, quote) <= b.len(),
    decreases b.len() - i,
{
    if 0 <= i < b.len() && !(if quote != 0 { b[i] == quote } else { is_token_end(b[i]) }) {
        lemma_token_scan(b, i + 1, quote);
    }
}

/// The next token of `buffer` from `index`: `None` at the end, at a comment or at a NUL.
pub fn next_token(buffer: &[u8], index: usize) -> (r: Option<(usize, usize, usize)>)
    ensures
        r matches Some(t) ==> token_at(buffer@, index as int) == Some((t.0 as int, t.1 as int, t.2 as int)),
        r is None ==> token_at(buffer@, index as int) is None,
        r matches Some(t) ==> index <= t.0 <= t.1 <= t.2 <= buffer@.len(),
{
    let mut index = index;
    let ghost b = buffer@;
    let ghost i0 = index as int;
    proof {
        lemma_skip_seps(b, i0);
    }
    while index < buffer.len() && (buffer[index] == 32u8 || buffer[index] == 9u8 || buffer[index] == 13u8
        || buffer[index] == 59u8)
        invariant
            b == buffer@,
            i0 <= index,
            index <= b.len() || index == i0,
            skip_seps(b, i0) == skip_seps(b, index as int),
        decreases b.len() - index,
    {
        index = index + 1;
    }
    if index >= buffer.len() || buffer[index] == 35u8 || buffer[index] == 0u8 {
        return None;
    }
    let quote: u8 = if buffer[index] == 34u8 || buffer[index] == 39u8 {
        let q = buffer[index];
        index = index + 1;
        q
    } else {
        0
    };
    let start = index;
    proof {
        lemma_token_scan(b, start as int, quote);
    }
    while index < buffer.len()
        invariant
            b == buffer@,
            start <= index <= b.len(),
            token_scan(b, start as int, quote) == token_scan(b, index as int, quote),
        ensures
            start <= index <= b.len(),
            token_scan(b, start as int, quote) == index,
        decreases b.len() - index,
    {
        let byte = buffer[index];
        if quote != 0 {
            if byte == quote {
                break;
            }
        } else if byte == 32u8 || byte == 9u8 || byte == 13u8 || byte == 10u8 || byte == 59u8 || byte == 124u8
            || byte == 0u8 {
            break;
        }
        index = index + 1;
    }
    let end = index;
    if quote != 0 && index < buffer.len() {
        index = index + 1;
    }
    Some((start, end, index))
}

/// The end of the line starting at `i`: the next newline or NUL, or the end of the buffer.
pub open spec fn line_end(b: Seq<u8>, i: int) -> int
    decreases b.len() - i,
{
    if 0 <= i < b.len() && b[i] != 10u8 && b[i] != 0u8 { line_end(b, i + 1) } else { i }
}

/// A line ends at or after its start, within the buffer.
pub proof fn lemma_line_end(b: Seq<u8>, i: int)
    requires
        0 <= i <= b.len(),
    ensures
        i <= line_end(b, i) <= b.len(),
    decreases b.len() - i,
{
    if 0 <= i < b.len() && b[i] != 10u8 && b[i] != 0u8 {
        lemma_line_end(b, i + 1);
    }
}

/// Where the line that starts at `start` ends.
pub fn find_line_end(buffer: &[u8], start: usize) -> (r: usize)
    ensures
        r == line_end(buffer@, start as int),
{
    let mut index = start;
    while index < buffer.len() && buffer[index] != 10u8 && buffer[index] != 0u8
        invariant
            start <= index,
            line_end(buffer@, start as int) == line_end(buffer@, index as int),
        decreases buffer@.len() - index,
    {
        index = index + 1;
    }
    index
}

/// `s` cut to its first `n` bytes.
pub open spec fn clip(s: Seq<u8>, n: int) -> Seq<u8> {
    if s.len() <= n { s } else { s.subrange(0, n) }
}

/// Appending `part` to a path of at most 128 bytes, with a slash between, cut at 128 bytes.
pub open spec fn append_part(out: Seq<u8>, part: Seq<u8>) -> Seq<u8> {
    if part.len() == 0 {
        out
    } else {
        let with_slash = if out.len() > 0 && out.len() < 128 { out.push(47u8) } else { out };
        with_slash + clip(part, 128 - with_slash.len())
    }
}

/// Appends `part` to the path in `output`.
pub fn append_path_part(output: &mut Vec<u8>, part: &[u8])
    requires
        old(output)@.len() <= SCRIPT_PATH_MAX,
    ensures
        final(output)@ == append_part(old(output)@, part@),
        final(output)@.len() <= SCRIPT_PATH_MAX,
{
    if part.len() == 0 {
        return;
    }
    if output.len() > 0 && output.len() < SCRIPT_PATH_MAX {
        output.push(47u8);
    }
    let room = SCRIPT_PATH_MAX - output.len();
    let copy_len = if part.len() < room { part.len() } else { room };
    let piece = copy_range(part, 0, copy_len);
    extend_from(output, piece.as_slice());
    assert(clip(part@, room as int) =~= piece@);
}

/// A copy of `input` cut to 128 bytes.
pub fn copy_path(input: &[u8]) -> (r: Vec<u8>)
    ensures
        r@ == clip(input@, 128),
{
    let copy_len = if input.len() < SCRIPT_PATH_MAX { input.len() } else { SCRIPT_PATH_MAX };
    let r = copy_range(input, 0, copy_len);
    assert(r@ =~= clip(input@, 128));
    r
}

/// `p` without its leading slashes.
pub open spec fn trim_slashes(p: Seq<u8>) -> Seq<u8>
    decreases p.len(),
{
    if p.len() > 0 && p[0] == 47u8 { trim_slashes(p.subrange(1, p.len() as int)) } else { p }
}

/// `p` without leading `./` pairs.
pub open spec fn trim_dot_slash(p: Seq<u8>) -> Seq<u8>
    decreases p.len(),
{
    if p.len() >= 2 && p[0] == 46u8 && p[1] == 47u8 { trim_dot_slash(p.subrange(2, p.len() as int)) } else { p }
}

/// `path` without its leading slashes.
pub fn trim_leading_slashes(path: &[u8]) -> (r: Vec<u8>)
    ensures
        r@ == trim_slashes(path@),
{
    let mut start: usize = 0;
    assert(path@.subrange(0, path@.len() as int) =~= path@);
    while start < path.len() && path[start] == 47u8
        invariant
            start <= path@.len(),
            trim_slashes(path@) == trim_slashes(path@.subrange(start as int, path@.len() as int)),
        decreases path@.len() - start,
    {
        assert(path@.subrange(start as int, path@.len() as int).subrange(1, path@.len() - start)
            =~= path@.subrange(start + 1, path@.len() as int));
        start = start + 1;
    }
    copy_range(path, start, path.len())
}

/// `path` resolved against working directory `cwd`, as a script command sees it.
pub open spec fn resolve(cwd: Seq<u8>, path: Seq<u8>) -> Seq<u8> {
    if path.len() > 0 && path[0] == 47u8 {
        append_part(Seq::<u8>::empty(), trim_slashes(path))
    } else {
        let base = if cwd.len() > 0 { append_part(Seq::<u8>::empty(), cwd) } else { Seq::<u8>::empty() };
        append_part(base, trim_dot_slash(path))
    }
}

/// How paths resolve: an absolute path names the same file from any working directory
/// (`other`); a relative name that starts with neither `/` nor `./` is `cwd/name` in a
/// working directory `cwd` (where both fit in the path limit together); and a leading
/// `./` on a relative path changes nothing.
pub proof fn lemma_resolve_laws(cwd: Seq<u8>, other: Seq<u8>, name: Seq<u8>)
    ensures
        name.len() > 0 && name[0] == 47u8 ==> resolve(cwd, name) == resolve(other, name),
        name.len() > 0 && name[0] != 47u8 && !(name.len() >= 2 && name[0] == 46u8 && name[1] == 47u8)
            && cwd.len() > 0 && cwd.len() + 1 + name.len() <= SCRIPT_PATH_MAX
            ==> resolve(cwd, name) == cwd + seq![47u8] + name,
        !(name.len() > 0 && name[0] == 47u8) ==> resolve(cwd, seq![46u8, 47u8] + name) == resolve(cwd, name),
{
    let dotted = seq![46u8, 47u8] + name;
    assert(dotted.subrange(2, dotted.len() as int) =~= name);
    assert(trim_dot_slash(dotted) == trim_dot_slash(name));
    if name.len() > 0 && name[0] != 47u8 && !(name.len() >= 2 && name[0] == 46u8 && name[1] == 47u8)
        && cwd.len() > 0 && cwd.len() + 1 + name.len() <= SCRIPT_PATH_MAX {
        assert(trim_dot_slash(name) == name);
        assert(clip(cwd, 128) == cwd);
        assert(append_part(Seq::<u8>::empty(), cwd) =~= cwd);
        assert(clip(name, 128 - (cwd.len() + 1)) == name);
        assert(append_part(cwd, name) =~= cwd + seq![47u8] + name);
    }
}

/// Resolves `path` against `cwd`: absolute paths lose their leading slashes, relative
/// ones their leading `./` and get `cwd/` in front.
pub fn resolve_path(cwd: &[u8], path: &[u8]) -> (r: Vec<u8>)
    ensures
        r@ == resolve(cwd@, path@),
        r@.len() <= SCRIPT_PATH_MAX,
{
    let mut output: Vec<u8> = Vec::new();
    if path.len() > 0 && path[0] == 47u8 {
        let source = trim_leading_slashes(path);
        append_path_part(&mut output, source.as_slice());
        return output;
    }
    let mut start: usize = 0;
    assert(path@.subrange(0, path@.len() as int) =~= path@);
    while start < path.len() && path.len() - start >= 2 && path[start] == 46u8 && path[start + 1] == 47u8
        invariant
            start <= path@.len(),
            trim_dot_slash(path@) == trim_dot_slash(path@.subrange(start as int, path@.len() as int)),
        decreases path@.len() - start,
    {
        assert(path@.subrange(start as int, path@.len() as int).subrange(2, path@.len() - start)
            =~= path@.subrange(start + 2, path@.len() as int));
        start = start + 2;
    }
    if cwd.len() > 0 {
        append_path_part(&mut output, cwd);
    }
    let source = copy_range(path, start, path.len());
    append_path_part(&mut output, source.as_slice());
    output
}

/// The part of `p` after its last slash.
pub open spec fn basename(p: Seq<u8>) -> Seq<u8>
    decreases p.len(),
{
    if p.len() == 0 {
        p
    } else if p.last() == 47u8 {
        Seq::<u8>::empty()
    } else {
        basename(p.drop_last()).push(p.last())
    }
}

/// The position after the last slash of `p[..n]`, or 0.
pub open spec fn after_last_slash(p: Seq<u8>, n: int) -> int
    decreases n,
{
    if n <= 0 { 0 } else if p[n - 1] == 47u8 { n } else { after_last_slash(p, n - 1) }
}

proof fn lemma_after_last_slash(p: Seq<u8>, n: int)
    requires
        0 <= n <= p.len(),
    ensures
        0 <= after_last_slash(p, n) <= n,
        basename(p.subrange(0, n)) == p.subrange(after_last_slash(p, n), n),
    decreases n,
{
    let q = p.subrange(0, n);
    if n > 0 {
        assert(q.drop_last() =~= p.subrange(0, n - 1));
        if p[n - 1] != 47u8 {
            lemma_after_last_slash(p, n - 1);
            assert(p.subrange(after_last_slash(p, n - 1), n - 1).push(p[n - 1])
                =~= p.subrange(after_last_slash(p, n), n));
        } else {
            assert(p.subrange(n, n) =~= Seq::<u8>::empty());
        }
    } else {
        assert(q =~= Seq::<u8>::empty());
    }
}

/// Whether the last component of `path` is `name`.
pub fn path_basename_eq(path: &[u8], name: &[u8]) -> (r: bool)
    ensures
        r == (basename(path@) == name@),
{
    let mut start: usize = 0;
    let mut index: usize = 0;
    while index < path.len()
        invariant
            index <= path@.len(),
            start == after_last_slash(path@, index as int),
        decreases path@.len() - index,
    {
        if path[index] == 47u8 {
            start = index + 1;
        }
        index = index + 1;
    }
    proof {
        lemma_after_last_slash(path@, path@.len() as int);
        assert(path@.subrange(0, path@.len() as int) =~= path@);
    }
    let tail = copy_range(path, start, path.len());
    crate::bytes::bytes_eq(tail.as_slice(), name)
}

/// Whether the directory of `path` ends before its last slash: that slash's position.
pub open spec fn last_slash(p: Seq<u8>) -> Option<int> {
    let k = after_last_slash(p, p.len() as int);
    if k == 0 { None } else { Some(k - 1) }
}

/// The directory part of `path` (before its last slash), or nothing.
pub fn parent_of(path: &[u8]) -> (r: Vec<u8>)
    ensures
        r@ == match last_slash(path@) {
            Some(k) => path@.subrange(0, k),
            None => Seq::<u8>::empty(),
        },
{
    let mut last: usize = 0;
    let mut index: usize = 0;
    while index < path.len()
        invariant
            index <= path@.len(),
            last == after_last_slash(path@, index as int),
        decreases path@.len() - index,
    {
        if path[index] == 47u8 {
            last = index + 1;
        }
        index = index + 1;
    }
    proof {
        lemma_after_last_slash(path@, path@.len() as int);
    }
    if last == 0 {
        Vec::new()
    } else {
        copy_range(path, 0, last - 1)
    }
}

/// Whether the command is `busybox echo ...`, which scripts use to print.
pub open spec fn busybox_echo(command: Seq<u8>, line: Seq<u8>, next: int) -> bool {
    basename(command) == text::busybox_word_spec() && match token_at(line, next) {
        Some(t) => line.subrange(t.0, t.1) == text::echo_word_spec(),
        None => false,
    }
}

/// Whether `command` followed by the rest of `line` is `busybox echo`.
pub fn is_busybox_echo(command: &[u8], line: &[u8], next_index: usize) -> (r: bool)
    ensures
        r == busybox_echo(command@, line@, next_index as int),
{
    let busybox = text::busybox_word();
    if !path_basename_eq(command, busybox.as_slice()) {
        return false;
    }
    match next_token(line, next_index) {
        Some((arg_start, arg_end, _next)) => {
            let word = copy_range(line, arg_start, arg_end);
            let echo = text::echo_word();
            crate::bytes::bytes_eq(word.as_slice(), echo.as_slice())
        },
        None => false,
    }
}

/// The first position at or after `i` where `p` occurs in `b`.
pub open spec fn find_from(b: Seq<u8>, p: Seq<u8>, i: int) -> Option<int>
    decreases b.len() - i,
{
    if i < 0 || i + p.len() > b.len() || i >= b.len() {
        None
    } else if b.subrange(i, i + p.len()) == p {
        Some(i)
    } else {
        find_from(b, p, i + 1)
    }
}

/// The first occurrence of a non-empty `pattern` in `buffer` at or after `start`.
pub fn find_bytes_from(buffer: &[u8], pattern: &[u8], start: usize) -> (r: Option<usize>)
    ensures
        r == (if pattern@.len() == 0 || start >= buffer@.len() {
            None
        } else {
            match find_from(buffer@, pattern@, start as int) {
                Some(k) => Some(k as usize),
                None => None,
            }
        }),
{
    let total: usize = buffer.len();
    if pattern.len() == 0 || start >= buffer.len() {
        return None;
    }
    let mut index = start;
    while pattern.len() <= buffer.len() && index <= buffer.len() - pattern.len()
        invariant
            start <= index,
            pattern@.len() > 0,
            buffer@.len() <= usize::MAX,
            find_from(buffer@, pattern@, start as int) == find_from(buffer@, pattern@, index as int),
        decreases buffer@.len() - index,
    {
        if starts_with_at(buffer, index, pattern) {
            return Some(index);
        }
        index = index + 1;
    }
    None
}

/// The marker lines a script carries, from position `i`.
pub open spec fn markers_from(s: Seq<u8>, i: int) -> Seq<Seq<u8>>
    decreases s.len() - i,
{
    let p = text::group_marker_prefix_spec();
    if i < 0 || i + p.len() > s.len() {
        Seq::empty()
    } else if s.subrange(i, i + p.len()) == p && find_from(s, text::marker_end_spec(), i + p.len()) is Some
        && i + p.len() < s.len() {
        let e = find_from(s, text::marker_end_spec(), i + p.len())->0 + 4;
        if e > i && e <= s.len() {
            seq![s.subrange(i, e)].add(markers_from(s, e))
        } else {
            Seq::empty()
        }
    } else {
        markers_from(s, i + 1)
    }
}

pub proof fn lemma_find_from(b: Seq<u8>, p: Seq<u8>, i: int)
    requires
        0 <= i,
    ensures
        find_from(b, p, i) matches Some(k) ==> i <= k && k + p.len() <= b.len() && b.subrange(k, k + p.len()) == p,
    decreases b.len() - i,
{
    if !(i < 0 || i + p.len() > b.len() || i >= b.len()) && b.subrange(i, i + p.len()) != p {
        lemma_find_from(b, p, i + 1);
    }
}

/// The `#### OS COMP TEST GROUP ... ####` marker lines of a script, in order.
pub fn group_markers_from_script(script: &[u8]) -> (r: Vec<Vec<u8>>)
    ensures
        r@.map_values(|l: Vec<u8>| l@) == markers_from(script@, 0),
{
    let prefix = text::group_marker_prefix();
    let end_mark = text::marker_end();
    let mut lines: Vec<Vec<u8>> = Vec::new();
    let mut index: usize = 0;
    while prefix.len() <= script.len() && index <= script.len() - prefix.len()
        invariant
            prefix@ == text::group_marker_prefix_spec(),
            end_mark@ == text::marker_end_spec(),
            lines@.map_values(|l: Vec<u8>| l@) + markers_from(script@, index as int) == markers_from(script@, 0),
        decreases script@.len() - index,
    {
        if starts_with_at(script, index, prefix.as_slice()) {
            let search_start = index + prefix.len();
            match find_bytes_from(script, end_mark.as_slice(), search_start) {
                Some(marker_end_start) => {
                    proof {
                        lemma_find_from(script@, end_mark@, search_start as int);
                    }
                    let marker_end = marker_end_start + 4;
                    let line = copy_range(script, index, marker_end);
                    let ghost before = lines@.map_values(|l: Vec<u8>| l@);
                    lines.push(line);
                    assert(lines@.map_values(|l: Vec<u8>| l@) =~= before.push(line@));
                    assert(before.push(line@) + markers_from(script@, marker_end as int)
                        =~= before + (seq![line@] + markers_from(script@, marker_end as int)));
                    index = marker_end;
                    continue;
                },
                None => {},
            }
        }
        index = index + 1;
    }
    assert(lines@.map_values(|l: Vec<u8>| l@) + Seq::<Seq<u8>>::empty() =~= lines@.map_values(|l: Vec<u8>| l@));
    lines
}

/// `hi` moved back over the spaces that end `s[lo..hi]`.
pub open spec fn trim_spaces_end(s: Seq<u8>, lo: int, hi: int) -> int
    decreases hi - lo,
{
    if hi > lo && s[hi - 1] == 32u8 {
        trim_spaces_end(s, lo, hi - 1)
    } else {
        hi
    }
}

/// The group name of a `#### OS COMP TEST GROUP START <name> ####` marker at `i`, without
/// trailing spaces, when it is there and not empty.
pub open spec fn group_name_at(s: Seq<u8>, i: int) -> Option<(int, int)> {
    let p = text::group_start_prefix_spec();
    if 0 <= i && i + p.len() <= s.len() && s.subrange(i, i + p.len()) == p {
        match find_from(s, text::marker_end_spec(), i + p.len()) {
            Some(e) => {
                let ge = trim_spaces_end(s, i + p.len(), e);
                if ge > i + p.len() { Some((i + p.len(), ge)) } else { None }
            },
            None => None,
        }
    } else {
        None
    }
}

/// The first group name that a start marker at or after `i` gives.
pub open spec fn first_group_name(s: Seq<u8>, i: int) -> Option<(int, int)>
    decreases s.len() - i,
{
    if i < 0 || i + text::group_start_prefix_spec().len() > s.len() {
        None
    } else if group_name_at(s, i) is Some {
        group_name_at(s, i)
    } else {
        first_group_name(s, i + 1)
    }
}

proof fn lemma_trim_spaces_end(s: Seq<u8>, lo: int, hi: int)
    requires
        lo <= hi,
    ensures
        lo <= trim_spaces_end(s, lo, hi) <= hi,
    decreases hi - lo,
{
    if hi > lo && s[hi - 1] == 32u8 {
        lemma_trim_spaces_end(s, lo, hi - 1);
    }
}

/// The name of the first test group a script starts, from its first start marker that
/// names one.
pub fn first_group_start_name(script: &[u8]) -> (r: Option<Vec<u8>>)
    ensures
        r is Some == first_group_name(script@, 0) is Some,
        r matches Some(v) ==> v@ == script@.subrange(first_group_name(script@, 0).unwrap().0, first_group_name(script@, 0).unwrap().1),
{
    let prefix = text::group_start_prefix();
    let end_mark = text::marker_end();
    let plen: usize = prefix.len();
    let mut index: usize = 0;
    while plen <= script.len() && index <= script.len() - plen
        invariant
            prefix@ == text::group_start_prefix_spec(),
            end_mark@ == text::marker_end_spec(),
            plen == prefix@.len(),
            first_group_name(script@, index as int) == first_group_name(script@, 0),
        decreases script@.len() - index,
    {
        if starts_with_at(script, index, prefix.as_slice()) {
            let group_start = index + plen;
            match find_bytes_from(script, end_mark.as_slice(), group_start) {
                Some(marker_end_start) => {
                    proof {
                        lemma_find_from(script@, end_mark@, group_start as int);
                    }
                    let mut group_end = marker_end_start;
                    while group_end > group_start && script[group_end - 1] == 32u8
                        invariant
                            group_start <= group_end <= marker_end_start,
                            marker_end_start <= script@.len(),
                            trim_spaces_end(script@, group_start as int, group_end as int)
                                == trim_spaces_end(script@, group_start as int, marker_end_start as int),
                        decreases group_end - group_start,
                    {
                        group_end = group_end - 1;
                    }
                    if group_end > group_start {
                        return Some(copy_range(script, group_start, group_end));
                    }
                },
                None => {},
            }
        }
        index = index + 1;
    }
    None
}

/// The line of the first `#### OS COMP TEST GROUP START ... ####` marker at or after `i`.
pub open spec fn first_start_line(s: Seq<u8>, i: int) -> Option<Seq<u8>>
    decreases s.len() - i,
{
    let p = text::group_start_prefix_spec();
    if i < 0 || i + p.len() > s.len() {
        None
    } else if s.subrange(i, i + p.len()) == p && find_from(s, text::marker_end_spec(), i + p.len()) is Some {
        Some(s.subrange(i, find_from(s, text::marker_end_spec(), i + p.len())->0 + 4))
    } else {
        first_start_line(s, i + 1)
    }
}

/// The script's first group start marker line, if it has one.
pub fn first_group_start_line(script: &[u8]) -> (r: Option<Vec<u8>>)
    ensures
        r is Some == first_start_line(script@, 0) is Some,
        r matches Some(v) ==> v@ == first_start_line(script@, 0)->0,
{
    let prefix = text::group_start_prefix();
    let end_mark = text::marker_end();
    let plen: usize = prefix.len();
    let mut index: usize = 0;
    while plen <= script.len() && index <= script.len() - plen
        invariant
            prefix@ == text::group_start_prefix_spec(),
            end_mark@ == text::marker_end_spec(),
            plen == prefix@.len(),
            first_start_line(script@, index as int) == first_start_line(script@, 0),
        decreases script@.len() - index,
    {
        if starts_with_at(script, index, prefix.as_slice()) {
            match find_bytes_from(script, end_mark.as_slice(), index + plen) {
                Some(marker_end_start) => {
                    proof {
                        lemma_find_from(script@, end_mark@, (index + plen) as int);
                    }
                    return Some(copy_range(script, index, marker_end_start + 4));
                },
                None => {},
            }
        }
        index = index + 1;
    }
    None
}

/// The group a test script stands for: its name without the `_testcode.sh` ending.
pub open spec fn script_group(name: Seq<u8>) -> Seq<u8> {
    name.subrange(0, name.len() - text::test_script_suffix_spec().len())
}

/// `#### OS COMP TEST GROUP START <group> ####` for the script `name`.
pub open spec fn fallback_start_spec(name: Seq<u8>) -> Seq<u8> {
    text::group_start_prefix_spec() + script_group(name) + text::marker_tail_spec()
}

/// `#### OS COMP TEST GROUP END <group> ####` for the script `name`.
pub open spec fn fallback_end_spec(name: Seq<u8>) -> Seq<u8> {
    text::group_end_prefix_spec() + script_group(name) + text::marker_tail_spec()
}

/// The start marker line made up from the script's name.
pub fn fallback_group_start(name: &[u8]) -> (r: Vec<u8>)
    requires
        name@.len() >= 12,
    ensures
        r@ == fallback_start_spec(name@),
{
    let mut line = text::group_start_prefix();
    let group = copy_range(name, 0, name.len() - 12);
    crate::bytes::extend_from(&mut line, group.as_slice());
    let tail = text::marker_tail();
    crate::bytes::extend_from(&mut line, tail.as_slice());
    line
}

/// The end marker line made up from the script's name.
pub fn fallback_group_end(name: &[u8]) -> (r: Vec<u8>)
    requires
        name@.len() >= 12,
    ensures
        r@ == fallback_end_spec(name@),
{
    let mut line = text::group_end_prefix();
    let group = copy_range(name, 0, name.len() - 12);
    crate::bytes::extend_from(&mut line, group.as_slice());
    let tail = text::marker_tail();
    crate::bytes::extend_from(&mut line, tail.as_slice());
    line
}

/// Both marker lines made up from the script's name.
pub fn fallback_group_markers(name: &[u8]) -> (r: Vec<Vec<u8>>)
    requires
        name@.len() >= 12,
    ensures
        r@.len() == 2,
        r@[0]@ == fallback_start_spec(name@),
        r@[1]@ == fallback_end_spec(name@),
{
    let mut lines: Vec<Vec<u8>> = Vec::new();
    lines.push(fallback_group_start(name));
    lines.push(fallback_group_end(name));
    lines
}

/// The group start line for a script: its own first start marker, else one made up from
/// its name.
pub fn group_start_from_script_or_fallback(name: &[u8], script: &[u8]) -> (r: Vec<u8>)
    requires
        name@.len() >= 12,
    ensures
        r@ == match first_start_line(script@, 0) {
            Some(l) => l,
            None => fallback_start_spec(name@),
        },
{
    match first_group_start_line(script) {
        Some(line) => line,
        None => fallback_group_start(name),
    }
}

/// The group a script runs: the name in its first start marker, else its own name
/// without the `_testcode.sh` ending.
pub open spec fn group_of_script(name: Seq<u8>, script: Seq<u8>) -> Seq<u8> {
    match first_group_name(script, 0) {
        Some(g) => script.subrange(g.0, g.1),
        None => script_group(name),
    }
}

/// Whether `name` is `basic_testcode.sh`.
pub fn is_basic_test_script(name: &[u8]) -> (r: bool)
    ensures
        r == (name@ == text::basic_script_name_spec()),
{
    let b = text::basic_script_name();
    crate::bytes::bytes_eq(name, b.as_slice())
}

/// Whether `name` is `.` or `..`.
pub fn is_dot_entry(name: &[u8]) -> (r: bool)
    ensures
        r == (name@ == text::dot_spec() || name@ == text::dotdot_spec()),
{
    let d = text::dot();
    let dd = text::dotdot();
    crate::bytes::bytes_eq(name, d.as_slice()) || crate::bytes::bytes_eq(name, dd.as_slice())
}

} // verus!
