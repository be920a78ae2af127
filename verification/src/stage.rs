//! Staging the competition's test groups from the read-only test disk: which
//! files are copied into the in-memory file system, under which names, and
//! which queue records announce them.
//!
//! Staging only decides. It returns the directories and files to create, in
//! order, and the queue records to append; whoever holds the in-memory file
//! system carries them out.
use vstd::prelude::*;
use crate::bytes::{copy_all, copy_range, extend_from, bytes_eq, starts_with, ends_with, has_prefix, has_suffix};
use crate::ext4::{Ext4Error, Ext4Fs, FileInfo, lookup_path, EXT4_ROOT_INO};
use crate::ext4_driver::{lookup, is_regular, file_read, read_root_file_into, elf_magic, is_elf};
use crate::queue::{
    byte_views, push_queue_record, push_argv_record, record_bytes, argv_payload, libctest_payload, runtest_args,
    push_libctest_record, push_libctest_runtest_record, push_ltp_record, ltp_payload, KIND_LTP, KIND_GROUP, KIND_EXEC, KIND_END, KIND_ARGV,
    KIND_LIBCTEST, TAB,
};
use crate::runner::{pieces, split_on, no_nul};
use crate::script::{basename, find_from, find_bytes_from, trim_slashes, trim_leading_slashes, last_slash, parent_of};
use crate::staging::{
    file_name, resolve_path, resolve_spec, trim_whitespace, trim_ws, find_group_marker, group_marker_spec,
    find_libctest_cases, libctest_cases_spec, opt_view, quoted_assignment, quoted_assignment_spec,
    split_whitespace, ws_words, split_shell_words, shell_words, trim_shell_quotes, trim_quotes_spec, SPACE, SLASH,
};
use crate::utf8::{is_utf8, is_utf8_spec};
use crate::text;

verus! {

/// Files larger than this are not staged.
pub const MAX_TEST_FILE_SIZE: u64 = 16777216;

/// Which executable of a group failed the ELF check.
#[derive(PartialEq, Eq, Structural, Clone, Copy, Debug)]
pub enum ElfRole {
    Busybox,
    Lua,
    LibcBench,
    EntryStatic,
    Runtest,
    Lmbench,
    BasicCommand,
}

/// Why a group could not be staged.
#[derive(PartialEq, Eq, Structural, Clone, Copy, Debug)]
pub enum StageError {
    /// The disk could not be read.
    Disk(Ext4Error),
    /// The file does not exist.
    NotFound,
    /// The path does not name a regular file.
    NotRegular,
    /// The file is larger than `MAX_TEST_FILE_SIZE`.
    TooLarge,
    /// A script is not UTF-8.
    NotUtf8,
    /// Scripts call each other too deeply.
    ScriptDepth,
    /// A basic script names no runnable command.
    NoCommand,
    /// A command listed in a basic script does not exist.
    CommandMissing,
    /// A command listed in a basic script is not a regular file.
    CommandNotRegular,
    /// An executable does not start with the ELF magic.
    NotElf(ElfRole),
    /// None of the places a required executable may be holds it.
    ExecutableMissing,
    /// A libc-test run script names no allowed case.
    NoLibctestCase,
    /// The LTP case directory is a regular file.
    LtpNotDirectory,
    /// A file of the dynamic runtime is missing.
    RuntimeMissing,
    /// No musl runtime is on the disk.
    MuslRuntimeMissing,
    /// A group staged from the disk root has no runtime of its own.
    RootRuntime,
    /// An ELF interpreter path is empty or climbs with `..`.
    BadInterpreter,
    /// A command path has no file name.
    BadBasicPath,
    /// A basic plan holds no command.
    EmptyPlan,
    /// An ELF file's interpreter segment is unusable.
    BadInterpreterSegment,
    /// An ELF interpreter path is not UTF-8.
    InterpreterNotUtf8,
    /// An ELF interpreter path is empty.
    EmptyInterpreter,
}

/// The message the kernel prints for a staging error.
pub open spec fn stage_message(e: StageError) -> Seq<char> {
    match e {
        StageError::Disk(d) => crate::ext4::ext4_message(d),
        StageError::NotFound => "file not found"@,
        StageError::NotRegular => "path is not a regular file"@,
        StageError::TooLarge => "file exceeds staging limit"@,
        StageError::NotUtf8 => "script is not UTF-8"@,
        StageError::ScriptDepth => "nested script limit reached"@,
        StageError::NoCommand => "no executable command found"@,
        StageError::CommandMissing => "basic ELF not found"@,
        StageError::CommandNotRegular => "basic command is not a regular file"@,
        StageError::NotElf(role) => match role {
            ElfRole::Busybox => "busybox is not an ELF file"@,
            ElfRole::Lua => "lua is not an ELF file"@,
            ElfRole::LibcBench => "libc-bench is not an ELF file"@,
            ElfRole::EntryStatic => "entry-static.exe is not an ELF file"@,
            ElfRole::Runtest => "runtest.exe is not an ELF file"@,
            ElfRole::Lmbench => "lmbench_all is not an ELF file"@,
            ElfRole::BasicCommand => "basic command is not an ELF file"@,
        },
        StageError::ExecutableMissing => "required executable not found"@,
        StageError::NoLibctestCase => "no allowed libctest case found"@,
        StageError::LtpNotDirectory => "ltp source path is not a directory"@,
        StageError::RuntimeMissing => "required dynamic runtime file not found"@,
        StageError::MuslRuntimeMissing => "required musl runtime not found"@,
        StageError::RootRuntime => "dynamic root basic group has no isolated runtime"@,
        StageError::BadInterpreter => "invalid ELF interpreter path"@,
        StageError::BadBasicPath => "invalid basic path"@,
        StageError::EmptyPlan => "empty basic command queue"@,
        StageError::BadInterpreterSegment => "invalid ELF interpreter segment"@,
        StageError::InterpreterNotUtf8 => "ELF interpreter path is not UTF-8"@,
        StageError::EmptyInterpreter => "empty ELF interpreter path"@,
    }
}

impl StageError {
    /// The message the kernel prints for this error.
    pub fn message(&self) -> (r: &'static str)
        ensures
            r@ == stage_message(*self),
    {
        match self {
            StageError::Disk(e) => e.message(),
            StageError::NotFound => "file not found",
            StageError::NotRegular => "path is not a regular file",
            StageError::TooLarge => "file exceeds staging limit",
            StageError::NotUtf8 => "script is not UTF-8",
            StageError::ScriptDepth => "nested script limit reached",
            StageError::NoCommand => "no executable command found",
            StageError::CommandMissing => "basic ELF not found",
            StageError::CommandNotRegular => "basic command is not a regular file",
            StageError::NotElf(role) => match role {
                ElfRole::Busybox => "busybox is not an ELF file",
                ElfRole::Lua => "lua is not an ELF file",
                ElfRole::LibcBench => "libc-bench is not an ELF file",
                ElfRole::EntryStatic => "entry-static.exe is not an ELF file",
                ElfRole::Runtest => "runtest.exe is not an ELF file",
                ElfRole::Lmbench => "lmbench_all is not an ELF file",
                ElfRole::BasicCommand => "basic command is not an ELF file",
            },
            StageError::ExecutableMissing => "required executable not found",
            StageError::NoLibctestCase => "no allowed libctest case found",
            StageError::LtpNotDirectory => "ltp source path is not a directory",
            StageError::RuntimeMissing => "required dynamic runtime file not found",
            StageError::MuslRuntimeMissing => "required musl runtime not found",
            StageError::RootRuntime => "dynamic root basic group has no isolated runtime",
            StageError::BadInterpreter => "invalid ELF interpreter path",
            StageError::BadBasicPath => "invalid basic path",
            StageError::EmptyPlan => "empty basic command queue",
            StageError::BadInterpreterSegment => "invalid ELF interpreter segment",
            StageError::InterpreterNotUtf8 => "ELF interpreter path is not UTF-8",
            StageError::EmptyInterpreter => "empty ELF interpreter path",
        }
    }
}

/// Something to create in the in-memory file system, by a path relative to its root.
pub enum StageOp {
    /// A directory, with any missing parents.
    Dir(Vec<u8>),
    /// A file with the given contents, replacing any earlier contents.
    File(Vec<u8>, Vec<u8>),
}

/// The meaning of a `StageOp`.
pub enum OpView {
    Dir(Seq<u8>),
    File(Seq<u8>, Seq<u8>),
}

/// The meaning of a `StageOp`.
pub open spec fn op_view(op: StageOp) -> OpView {
    match op {
        StageOp::Dir(p) => OpView::Dir(p@),
        StageOp::File(p, d) => OpView::File(p@, d@),
    }
}

/// The meanings of a list of `StageOp`s.
pub open spec fn op_views(ops: Seq<StageOp>) -> Seq<OpView> {
    Seq::new(ops.len(), |i: int| op_view(ops[i]))
}

/// Appends a directory to create.
pub fn push_dir(ops: &mut Vec<StageOp>, path: Vec<u8>)
    ensures
        op_views(final(ops)@) == op_views(old(ops)@).push(OpView::Dir(path@)),
{
    let ghost p = path@;
    ops.push(StageOp::Dir(path));
    assert(op_views(ops@) =~= op_views(old(ops)@).push(OpView::Dir(p)));
}

/// Appends a file to create.
pub fn push_file(ops: &mut Vec<StageOp>, path: Vec<u8>, data: &[u8])
    ensures
        op_views(final(ops)@) == op_views(old(ops)@).push(OpView::File(path@, data@)),
{
    let ghost p = path@;
    let copy = copy_all(data);
    ops.push(StageOp::File(path, copy));
    assert(op_views(ops@) =~= op_views(old(ops)@).push(OpView::File(p, data@)));
}

/// `dir/name`.
pub open spec fn child(dir: Seq<u8>, name: Seq<u8>) -> Seq<u8> {
    dir + seq![SLASH] + name
}

/// `dir/name`.
pub fn child_path(dir: &[u8], name: &[u8]) -> (r: Vec<u8>)
    ensures
        r@ == child(dir@, name@),
{
    let mut p = copy_all(dir);
    p.push(SLASH);
    extend_from(&mut p, name);
    assert(p@ =~= child(dir@, name@));
    p
}

// ---------------------------------------------------------------- reading the disk

/// What reading a whole file from the test disk gives.
pub open spec fn read_file_spec(d: Seq<u8>, fs: Ext4Fs, path: Seq<u8>) -> Result<Seq<u8>, StageError> {
    read_file_within_spec(d, fs, path, MAX_TEST_FILE_SIZE)
}

/// Reading a whole regular file of at most `limit` bytes.
pub open spec fn read_file_within_spec(d: Seq<u8>, fs: Ext4Fs, path: Seq<u8>, limit: u64) -> Result<Seq<u8>, StageError> {
    match lookup(d, fs, path) {
        Err(e) => Err(StageError::Disk(e)),
        Ok(None) => Err(StageError::NotFound),
        Ok(Some(info)) => if !is_regular(info) {
            Err(StageError::NotRegular)
        } else if info.size > limit {
            Err(StageError::TooLarge)
        } else {
            match file_read(d, fs, info, info.size as int) {
                Err(e) => Err(StageError::Disk(e)),
                Ok(v) => Ok(v),
            }
        },
    }
}

/// The contents of a byte-vector result.
pub open spec fn bytes_result(r: Result<Vec<u8>, StageError>) -> Result<Seq<u8>, StageError> {
    match r {
        Ok(v) => Ok(v@),
        Err(e) => Err(e),
    }
}

/// Reads a whole regular file of the test disk.
pub fn read_file(disk: &[u8], fs: &Ext4Fs, path: &[u8]) -> (r: Result<Vec<u8>, StageError>)
    requires
        fs.wf(),
    ensures
        bytes_result(r) == read_file_spec(disk@, *fs, path@),
{
    read_file_within(disk, fs, path, MAX_TEST_FILE_SIZE)
}

/// Reads a whole regular file of the test disk of at most `limit` bytes.
pub fn read_file_within(disk: &[u8], fs: &Ext4Fs, path: &[u8], limit: u64) -> (r: Result<Vec<u8>, StageError>)
    requires
        fs.wf(),
        limit <= MAX_TEST_FILE_SIZE,
    ensures
        bytes_result(r) == read_file_within_spec(disk@, *fs, path@, limit),
{
    let info = match lookup_path(disk, fs, path) {
        Err(e) => return Err(StageError::Disk(e)),
        Ok(None) => return Err(StageError::NotFound),
        Ok(Some(info)) => info,
    };
    if info.mode & crate::ext4::EXT4_MODE_TYPE_MASK != crate::ext4::EXT4_S_IFREG {
        return Err(StageError::NotRegular);
    }
    if info.size > limit {
        return Err(StageError::TooLarge);
    }
    match read_root_file_into(disk, fs, info, info.size as usize) {
        Err(e) => Err(StageError::Disk(e)),
        Ok(v) => Ok(v),
    }
}

/// Whether `path` names a regular file of the test disk.
pub open spec fn regular_at(d: Seq<u8>, fs: Ext4Fs, path: Seq<u8>) -> bool {
    match lookup(d, fs, path) {
        Ok(Some(info)) => is_regular(info),
        _ => false,
    }
}

/// Whether `path` names a regular file of the test disk.
pub fn is_regular_path(disk: &[u8], fs: &Ext4Fs, path: &[u8]) -> (r: bool)
    requires
        fs.wf(),
    ensures
        r == regular_at(disk@, *fs, path@),
{
    match lookup_path(disk, fs, path) {
        Ok(Some(info)) => info.mode & crate::ext4::EXT4_MODE_TYPE_MASK == crate::ext4::EXT4_S_IFREG,
        _ => false,
    }
}

/// The index of the first path that names a regular file.
pub open spec fn first_regular(d: Seq<u8>, fs: Ext4Fs, paths: Seq<Seq<u8>>) -> Option<int>
    decreases paths.len(),
{
    if paths.len() == 0 {
        None
    } else if regular_at(d, fs, paths[0]) {
        Some(0)
    } else {
        match first_regular(d, fs, paths.drop_first()) {
            Some(k) => Some(k + 1),
            None => None,
        }
    }
}

/// An index moved on by `i`.
pub open spec fn shift_index(o: Option<int>, i: int) -> Option<int> {
    match o {
        Some(k) => Some(k + i),
        None => None,
    }
}

/// `first_regular` points at a regular file of the list, with none before it.
pub proof fn lemma_first_regular(d: Seq<u8>, fs: Ext4Fs, paths: Seq<Seq<u8>>, i: int)
    requires
        0 <= i <= paths.len(),
        forall|k: int| 0 <= k < i ==> !regular_at(d, fs, #[trigger] paths[k]),
    ensures
        first_regular(d, fs, paths) == shift_index(
            first_regular(d, fs, paths.subrange(i, paths.len() as int)),
            i,
        ),
    decreases i,
{
    if i > 0 {
        let rest = paths.drop_first();
        assert forall|k: int| 0 <= k < i - 1 implies !regular_at(d, fs, #[trigger] rest[k]) by {
            assert(rest[k] == paths[k + 1]);
        }
        lemma_first_regular(d, fs, rest, i - 1);
        assert(rest.subrange(i - 1, rest.len() as int) =~= paths.subrange(i, paths.len() as int));
        assert(!regular_at(d, fs, paths[0]));
    } else {
        assert(paths.subrange(0, paths.len() as int) =~= paths);
        match first_regular(d, fs, paths) {
            Some(k) => {},
            None => {},
        }
    }
}

/// The first of `paths` that names a regular file, if any.
pub fn find_optional_regular_path(disk: &[u8], fs: &Ext4Fs, paths: &Vec<Vec<u8>>) -> (r: Option<Vec<u8>>)
    requires
        fs.wf(),
    ensures
        match first_regular(disk@, *fs, byte_views(paths@)) {
            Some(k) => r matches Some(p) && p@ == byte_views(paths@)[k],
            None => r is None,
        },
{
    let ghost pv = byte_views(paths@);
    let mut i: usize = 0;
    while i < paths.len()
        invariant
            fs.wf(),
            i <= paths@.len(),
            pv == byte_views(paths@),
            forall|k: int| 0 <= k < i ==> !regular_at(disk@, *fs, #[trigger] pv[k]),
        decreases paths@.len() - i,
    {
        if is_regular_path(disk, fs, paths[i].as_slice()) {
            proof {
                lemma_first_regular(disk@, *fs, pv, i as int);
                let rest = pv.subrange(i as int, pv.len() as int);
                assert(rest[0] == pv[i as int]);
            }
            return Some(copy_all(paths[i].as_slice()));
        }
        i = i + 1;
    }
    proof {
        lemma_first_regular(disk@, *fs, pv, i as int);
        assert(pv.subrange(i as int, pv.len() as int) =~= Seq::<Seq<u8>>::empty());
    }
    None
}

/// The first of `paths` that names a regular file; an error when none does.
pub fn find_first_regular_path(disk: &[u8], fs: &Ext4Fs, paths: &Vec<Vec<u8>>) -> (r: Result<Vec<u8>, StageError>)
    requires
        fs.wf(),
    ensures
        match first_regular(disk@, *fs, byte_views(paths@)) {
            Some(k) => r matches Ok(p) && p@ == byte_views(paths@)[k],
            None => r == Err::<Vec<u8>, StageError>(StageError::ExecutableMissing),
        },
{
    match find_optional_regular_path(disk, fs, paths) {
        Some(p) => Ok(p),
        None => Err(StageError::ExecutableMissing),
    }
}

/// The contents of the first of `paths` that can be read whole.
pub open spec fn first_readable(d: Seq<u8>, fs: Ext4Fs, paths: Seq<Seq<u8>>) -> Option<Seq<u8>>
    decreases paths.len(),
{
    if paths.len() == 0 {
        None
    } else {
        match read_file_spec(d, fs, paths[0]) {
            Ok(v) => Some(v),
            Err(_) => first_readable(d, fs, paths.drop_first()),
        }
    }
}

/// The contents of the first of `paths` that can be read whole.
pub fn read_first_disk_file(disk: &[u8], fs: &Ext4Fs, paths: &Vec<Vec<u8>>) -> (r: Option<Vec<u8>>)
    requires
        fs.wf(),
    ensures
        match r {
            Some(v) => first_readable(disk@, *fs, byte_views(paths@)) == Some(v@),
            None => first_readable(disk@, *fs, byte_views(paths@)) is None,
        },
{
    let ghost pv = byte_views(paths@);
    let mut i: usize = 0;
    assert(pv.subrange(0, pv.len() as int) =~= pv);
    while i < paths.len()
        invariant
            fs.wf(),
            i <= paths@.len(),
            pv == byte_views(paths@),
            first_readable(disk@, *fs, pv) == first_readable(disk@, *fs, pv.subrange(
                i as int,
                pv.len() as int,
            )),
        decreases paths@.len() - i,
    {
        let ghost rest = pv.subrange(i as int, pv.len() as int);
        assert(rest[0] == pv[i as int]);
        assert(rest.drop_first() =~= pv.subrange(i + 1, pv.len() as int));
        match read_file(disk, fs, paths[i].as_slice()) {
            Ok(v) => {
                return Some(v);
            },
            Err(_) => {},
        }
        i = i + 1;
    }
    None
}

// ---------------------------------------------------------------- interpreters

/// The NUL byte.
pub const NUL_BYTE: u8 = 0;

/// `interp` added to the list unless it is already there.
pub open spec fn remember_spec(interps: Seq<Seq<u8>>, interp: Seq<u8>) -> Seq<Seq<u8>> {
    if interps.contains(interp) {
        interps
    } else {
        interps.push(interp)
    }
}

/// Adds an interpreter path to the list unless it is already there.
pub fn remember_interp(interps: &mut Vec<Vec<u8>>, interp: &[u8])
    ensures
        byte_views(final(interps)@) == remember_spec(byte_views(old(interps)@), interp@),
{
    if !crate::staging::contains_bytes(interps, interp) {
        let copy = copy_all(interp);
        interps.push(copy);
        assert(byte_views(interps@) =~= byte_views(old(interps)@).push(interp@));
    }
}

/// The destination of an interpreter alias inside a group: the interpreter
/// path without leading slashes; an error when that is empty or holds `..`.
pub open spec fn interp_alias_spec(group_dir: Seq<u8>, interp: Seq<u8>) -> Result<Seq<u8>, StageError> {
    let path = trim_slashes(interp);
    if path.len() == 0 || find_from(path, text::dotdot_spec(), 0) is Some {
        Err(StageError::BadInterpreter)
    } else {
        Ok(child(group_dir, path))
    }
}

/// Where an interpreter alias goes inside a group.
pub fn install_interp_alias(group_dir: &[u8], interp: &[u8]) -> (r: Result<Vec<u8>, StageError>)
    ensures
        bytes_result(r) == interp_alias_spec(group_dir@, interp@),
{
    let path = trim_leading_slashes(interp);
    let dotdot = text::dotdot();
    if path.len() == 0 {
        return Err(StageError::BadInterpreter);
    }
    if find_bytes_from(path.as_slice(), dotdot.as_slice(), 0).is_some() {
        return Err(StageError::BadInterpreter);
    }
    Ok(child_path(group_dir, path.as_slice()))
}

/// Which runtime a group gets.
#[derive(PartialEq, Eq, Structural, Clone, Copy, Debug)]
pub enum BasicFlavor {
    Glibc,
    Musl,
    Root,
}

/// The alias files for each interpreter, all holding `data`; for musl also a
/// copy under `lib/` by the interpreter's file name.
pub open spec fn alias_ops(
    group_dir: Seq<u8>,
    interps: Seq<Seq<u8>>,
    data: Seq<u8>,
    musl: bool,
) -> Result<Seq<OpView>, StageError>
    decreases interps.len(),
{
    if interps.len() == 0 {
        Ok(Seq::empty())
    } else {
        match alias_ops(group_dir, interps.drop_last(), data, musl) {
            Err(e) => Err(e),
            Ok(prev) => match interp_alias_spec(group_dir, interps.last()) {
                Err(e) => Err(e),
                Ok(dest) => {
                    let name = basename(interps.last());
                    if musl && name.len() > 0 {
                        Ok(prev.push(OpView::File(dest, data)).push(
                            OpView::File(child(child(group_dir, text::lib_dir_spec()), name), data),
                        ))
                    } else {
                        Ok(prev.push(OpView::File(dest, data)))
                    }
                },
            },
        }
    }
}

/// The alias files written before the first interpreter whose alias cannot be made
/// (all of them where every alias can be made).
pub open spec fn alias_done(group_dir: Seq<u8>, interps: Seq<Seq<u8>>, data: Seq<u8>, musl: bool) -> Seq<OpView>
    decreases interps.len(),
{
    if interps.len() == 0 {
        Seq::empty()
    } else {
        match alias_ops(group_dir, interps.drop_last(), data, musl) {
            Err(_) => alias_done(group_dir, interps.drop_last(), data, musl),
            Ok(prev) => match alias_ops(group_dir, interps, data, musl) {
                Ok(all) => all,
                Err(_) => prev,
            },
        }
    }
}

/// Where the aliases of the first `i` interpreters can be made and that of the next
/// cannot, what is written before the failure is the aliases of the first `i`.
proof fn lemma_alias_done(group_dir: Seq<u8>, interps: Seq<Seq<u8>>, data: Seq<u8>, musl: bool, i: int, n: int)
    requires
        0 <= i < n <= interps.len(),
        alias_ops(group_dir, interps.subrange(0, i), data, musl) is Ok,
        alias_ops(group_dir, interps.subrange(0, i + 1), data, musl) is Err,
    ensures
        alias_done(group_dir, interps.subrange(0, n), data, musl) == alias_ops(group_dir, interps.subrange(0, i), data,
            musl)->Ok_0,
        alias_ops(group_dir, interps.subrange(0, n), data, musl) is Err,
    decreases n - i,
{
    let cur = interps.subrange(0, n);
    assert(cur.drop_last() =~= interps.subrange(0, n - 1));
    if n == i + 1 {
    } else {
        lemma_alias_done(group_dir, interps, data, musl, i, n - 1);
    }
}

/// Appends the alias files for each interpreter; where one cannot be made, the aliases
/// before it stay appended.
fn push_alias_ops(
    ops: &mut Vec<StageOp>,
    group_dir: &[u8],
    interps: &Vec<Vec<u8>>,
    data: &[u8],
    musl: bool,
) -> (r: Result<(), StageError>)
    ensures
        match alias_ops(group_dir@, byte_views(interps@), data@, musl) {
            Ok(v) => r is Ok && op_views(final(ops)@) == op_views(old(ops)@) + v,
            Err(e) => r == Err::<(), StageError>(e) && op_views(final(ops)@) == op_views(old(ops)@) + alias_done(
                group_dir@,
                byte_views(interps@),
                data@,
                musl,
            ),
        },
{
    let ghost iv = byte_views(interps@);
    let mut i: usize = 0;
    assert(iv.subrange(0, 0) =~= Seq::<Seq<u8>>::empty());
    assert(op_views(ops@) =~= op_views(old(ops)@) + Seq::<OpView>::empty());
    while i < interps.len()
        invariant
            i <= interps@.len(),
            iv == byte_views(interps@),
            alias_ops(group_dir@, iv.subrange(0, i as int), data@, musl) matches Ok(v)
                && op_views(ops@) == op_views(old(ops)@) + v,
        decreases interps@.len() - i,
    {
        let ghost pre = iv.subrange(0, i + 1);
        let ghost prev = alias_ops(group_dir@, iv.subrange(0, i as int), data@, musl)->Ok_0;
        assert(pre.drop_last() =~= iv.subrange(0, i as int));
        assert(pre.last() == interps@[i as int]@);
        let dest = match install_interp_alias(group_dir, interps[i].as_slice()) {
            Ok(d) => d,
            Err(e) => {
                proof {
                    lemma_alias_ops_err(group_dir@, iv, data@, musl, i + 1);
                    lemma_alias_done(group_dir@, iv, data@, musl, i as int, iv.len() as int);
                    assert(iv.subrange(0, iv.len() as int) =~= iv);
                }
                return Err(e);
            },
        };
        push_file(ops, dest, data);
        if musl {
            match file_name(interps[i].as_slice()) {
                Some(name) => {
                    let lib = text::lib_dir();
                    let lib_dir = child_path(group_dir, lib.as_slice());
                    let path = child_path(lib_dir.as_slice(), name.as_slice());
                    push_file(ops, path, data);
                },
                None => {},
            }
        }
        i = i + 1;
    }
    assert(iv.subrange(0, interps@.len() as int) =~= iv);
    Ok(())
}

/// An error for a prefix of the interpreters is the error for all of them.
proof fn lemma_alias_ops_err(group_dir: Seq<u8>, interps: Seq<Seq<u8>>, data: Seq<u8>, musl: bool, n: int)
    requires
        0 < n <= interps.len(),
        alias_ops(group_dir, interps.subrange(0, n), data, musl) is Err,
    ensures
        alias_ops(group_dir, interps, data, musl) == alias_ops(group_dir, interps.subrange(0, n), data, musl),
    decreases interps.len() - n,
{
    if n < interps.len() {
        let next = interps.subrange(0, n + 1);
        assert(next.drop_last() =~= interps.subrange(0, n));
        lemma_alias_ops_err(group_dir, interps, data, musl, n + 1);
    } else {
        assert(interps.subrange(0, n) =~= interps);
    }
}

// ---------------------------------------------------------------- runtimes

/// Copying `source` to `dest` when it exists: nothing when it does not, an
/// error when the lookup or the read fails.
pub open spec fn optional_disk_file_spec(
    d: Seq<u8>,
    fs: Ext4Fs,
    source: Seq<u8>,
    dest: Seq<u8>,
) -> Result<Seq<OpView>, StageError> {
    match lookup(d, fs, source) {
        Err(e) => Err(StageError::Disk(e)),
        Ok(None) => Ok(Seq::empty()),
        Ok(Some(_)) => match read_file_spec(d, fs, source) {
            Err(e) => Err(e),
            Ok(v) => Ok(seq![OpView::File(dest, v)]),
        },
    }
}

/// Appends a copy of `source` to `dest` when `source` exists.
pub fn install_optional_disk_file(
    disk: &[u8],
    fs: &Ext4Fs,
    source: &[u8],
    dest: Vec<u8>,
    ops: &mut Vec<StageOp>,
) -> (r: Result<(), StageError>)
    requires
        fs.wf(),
    ensures
        match optional_disk_file_spec(disk@, *fs, source@, dest@) {
            Ok(v) => r is Ok && op_views(final(ops)@) == op_views(old(ops)@) + v,
            Err(e) => r == Err::<(), StageError>(e) && final(ops)@ == old(ops)@,
        },
{
    match lookup_path(disk, fs, source) {
        Err(e) => Err(StageError::Disk(e)),
        Ok(None) => {
            assert(op_views(ops@) =~= op_views(old(ops)@) + Seq::<OpView>::empty());
            Ok(())
        },
        Ok(Some(_)) => match read_file(disk, fs, source) {
            Err(e) => Err(e),
            Ok(v) => {
                push_file(ops, dest, v.as_slice());
                assert(op_views(ops@) =~= op_views(old(ops)@) + seq![OpView::File(dest@, v@)]);
                Ok(())
            },
        },
    }
}

/// A copy of `source` to `dest`; a missing or unreadable source is a missing runtime.
pub open spec fn required_disk_file_spec(
    d: Seq<u8>,
    fs: Ext4Fs,
    source: Seq<u8>,
    dest: Seq<u8>,
) -> Result<Seq<OpView>, StageError> {
    match read_file_spec(d, fs, source) {
        Err(_) => Err(StageError::RuntimeMissing),
        Ok(v) => Ok(seq![OpView::File(dest, v)]),
    }
}

/// Appends a copy of `source` to `dest`, which must exist.
pub fn install_required_disk_file(
    disk: &[u8],
    fs: &Ext4Fs,
    source: &[u8],
    dest: Vec<u8>,
    ops: &mut Vec<StageOp>,
) -> (r: Result<(), StageError>)
    requires
        fs.wf(),
    ensures
        match required_disk_file_spec(disk@, *fs, source@, dest@) {
            Ok(v) => r is Ok && op_views(final(ops)@) == op_views(old(ops)@) + v,
            Err(e) => r == Err::<(), StageError>(e) && final(ops)@ == old(ops)@,
        },
{
    match read_file(disk, fs, source) {
        Err(_) => Err(StageError::RuntimeMissing),
        Ok(v) => {
            push_file(ops, dest, v.as_slice());
            assert(op_views(ops@) =~= op_views(old(ops)@) + seq![OpView::File(dest@, v@)]);
            Ok(())
        },
    }
}

/// `dir/lib/name`.
pub open spec fn lib_child(dir: Seq<u8>, name: Seq<u8>) -> Seq<u8> {
    child(dir, text::lib_dir_spec() + seq![SLASH] + name)
}

/// The glibc runtime of a group: the dynamic loader, its aliases under each
/// interpreter path, libc, and libm where the disk has it.
pub open spec fn glibc_runtime_spec(
    d: Seq<u8>,
    fs: Ext4Fs,
    g: Seq<u8>,
    interps: Seq<Seq<u8>>,
) -> Result<Seq<OpView>, StageError> {
    match read_file_spec(d, fs, text::glibc_loader_src_spec()) {
        Err(_) => Err(StageError::RuntimeMissing),
        Ok(loader) => match alias_ops(g, interps, loader, false) {
            Err(e) => Err(e),
            Ok(aliases) => match required_disk_file_spec(d, fs, text::glibc_libc_so_src_spec(), child(g, text::lib_libc_so_spec())) {
                Err(e) => Err(e),
                Ok(libc) => match required_disk_file_spec(d, fs, text::glibc_libc_so6_src_spec(), child(g, text::lib_libc_so6_spec())) {
                    Err(e) => Err(e),
                    Ok(libc6) => match optional_disk_file_spec(d, fs, text::glibc_libm_so_src_spec(), child(g, text::lib_libm_so_spec())) {
                        Err(e) => Err(e),
                        Ok(libm) => match optional_disk_file_spec(d, fs, text::glibc_libm_so6_src_spec(), child(g, text::lib_libm_so6_spec())) {
                            Err(e) => Err(e),
                            Ok(libm6) => Ok(seq![OpView::File(child(g, text::glibc_loader_dst_spec()), loader)] + aliases + libc + libc6 + libm + libm6),
                        },
                    },
                },
            },
        },
    }
}

/// The musl runtime of a group: the first musl libc the disk has, under the
/// usual loader names, under each interpreter path and its file name in
/// `lib/`, and the loader's search path files.
pub open spec fn musl_runtime_spec(
    d: Seq<u8>,
    fs: Ext4Fs,
    g: Seq<u8>,
    interps: Seq<Seq<u8>>,
) -> Result<Seq<OpView>, StageError> {
    match first_readable(d, fs, pieces(text::musl_runtime_sources_spec(), SPACE)) {
        None => Err(StageError::MuslRuntimeMissing),
        Some(libc) => {
            let names = pieces(text::musl_runtime_names_spec(), SPACE);
            let base = Seq::new(names.len(), |i: int| OpView::File(child(g, names[i]), libc));
            match alias_ops(g, interps, libc, true) {
                Err(e) => Err(e),
                Ok(aliases) => Ok(base + aliases + seq![
                    OpView::File(child(g, text::musl_path_file_spec()), text::musl_path_content_spec()),
                    OpView::File(child(g, text::musl_sf_path_file_spec()), text::musl_path_content_spec()),
                ]),
            }
        },
    }
}

/// The runtime a group of the given flavour needs for its dynamic executables.
pub open spec fn group_runtime_spec(
    d: Seq<u8>,
    fs: Ext4Fs,
    flavor: BasicFlavor,
    g: Seq<u8>,
    interps: Seq<Seq<u8>>,
) -> Result<Seq<OpView>, StageError> {
    match flavor {
        BasicFlavor::Glibc => glibc_runtime_spec(d, fs, g, interps),
        BasicFlavor::Musl => musl_runtime_spec(d, fs, g, interps),
        BasicFlavor::Root => Err(StageError::RootRuntime),
    }
}

/// What installing the glibc runtime of a group writes before a step fails: the loader
/// once it is read, the aliases made before a bad interpreter, then each library up to
/// the first that cannot be copied.
pub open spec fn glibc_runtime_done(d: Seq<u8>, fs: Ext4Fs, g: Seq<u8>, interps: Seq<Seq<u8>>) -> Seq<OpView> {
    match read_file_spec(d, fs, text::glibc_loader_src_spec()) {
        Err(_) => Seq::empty(),
        Ok(loader) => {
            let head = seq![OpView::File(child(g, text::glibc_loader_dst_spec()), loader)];
            match alias_ops(g, interps, loader, false) {
                Err(_) => head + alias_done(g, interps, loader, false),
                Ok(aliases) => match required_disk_file_spec(d, fs, text::glibc_libc_so_src_spec(), child(g, text::lib_libc_so_spec())) {
                    Err(_) => head + aliases,
                    Ok(libc) => match required_disk_file_spec(d, fs, text::glibc_libc_so6_src_spec(), child(g, text::lib_libc_so6_spec())) {
                        Err(_) => head + aliases + libc,
                        Ok(libc6) => match optional_disk_file_spec(d, fs, text::glibc_libm_so_src_spec(), child(g, text::lib_libm_so_spec())) {
                            Err(_) => head + aliases + libc + libc6,
                            Ok(libm) => head + aliases + libc + libc6 + libm,
                        },
                    },
                },
            }
        },
    }
}

/// What installing the musl runtime of a group writes before a step fails: nothing
/// without a musl libc, else its copies under the loader names and the aliases made
/// before a bad interpreter.
pub open spec fn musl_runtime_done(d: Seq<u8>, fs: Ext4Fs, g: Seq<u8>, interps: Seq<Seq<u8>>) -> Seq<OpView> {
    match first_readable(d, fs, pieces(text::musl_runtime_sources_spec(), SPACE)) {
        None => Seq::empty(),
        Some(libc) => {
            let names = pieces(text::musl_runtime_names_spec(), SPACE);
            Seq::new(names.len(), |i: int| OpView::File(child(g, names[i]), libc)) + alias_done(g, interps, libc, true)
        },
    }
}

/// What installing a group's runtime writes before a step fails.
pub open spec fn group_runtime_done(d: Seq<u8>, fs: Ext4Fs, flavor: BasicFlavor, g: Seq<u8>, interps: Seq<Seq<u8>>)
    -> Seq<OpView>
{
    match flavor {
        BasicFlavor::Glibc => glibc_runtime_done(d, fs, g, interps),
        BasicFlavor::Musl => musl_runtime_done(d, fs, g, interps),
        BasicFlavor::Root => Seq::empty(),
    }
}

/// The meaning of a staging result that keeps, on failure, what was written before it.
pub open spec fn partial_ops_result(r: Result<Vec<StageOp>, (StageError, Vec<StageOp>)>) -> Result<
    Seq<OpView>,
    StageError,
> {
    match r {
        Ok(v) => Ok(op_views(v@)),
        Err(f) => Err(f.0),
    }
}

/// The files of the glibc runtime of a group.
#[verifier::rlimit(30)]
fn install_glibc_runtime(disk: &[u8], fs: &Ext4Fs, group_dir: &[u8], interps: &Vec<Vec<u8>>)
    -> (r: Result<Vec<StageOp>, (StageError, Vec<StageOp>)>)
    requires
        fs.wf(),
    ensures
        partial_ops_result(r) == glibc_runtime_spec(disk@, *fs, group_dir@, byte_views(interps@)),
        r matches Err(f) ==> op_views(f.1@) == glibc_runtime_done(disk@, *fs, group_dir@, byte_views(interps@)),
{
    let src = text::glibc_loader_src();
    let loader = match read_file(disk, fs, src.as_slice()) {
        Err(_) => {
            let none: Vec<StageOp> = Vec::new();
            assert(op_views(none@) =~= Seq::<OpView>::empty());
            return Err((StageError::RuntimeMissing, none));
        },
        Ok(v) => v,
    };
    let mut ops: Vec<StageOp> = Vec::new();
    let dst = text::glibc_loader_dst();
    push_file(&mut ops, child_path(group_dir, dst.as_slice()), loader.as_slice());
    let ghost after_loader = op_views(ops@);
    proof {
        assert(after_loader =~= seq![OpView::File(child(group_dir@, text::glibc_loader_dst_spec()), loader@)]);
    }
    match push_alias_ops(&mut ops, group_dir, interps, loader.as_slice(), false) {
        Err(e) => return Err((e, ops)),
        Ok(()) => {},
    }
    let ghost after_alias = op_views(ops@);
    let s1 = text::glibc_libc_so_src();
    let d1 = text::lib_libc_so();
    match install_required_disk_file(disk, fs, s1.as_slice(), child_path(group_dir, d1.as_slice()), &mut ops) {
        Err(e) => return Err((e, ops)),
        Ok(()) => {},
    }
    let ghost after_libc = op_views(ops@);
    let s2 = text::glibc_libc_so6_src();
    let d2 = text::lib_libc_so6();
    match install_required_disk_file(disk, fs, s2.as_slice(), child_path(group_dir, d2.as_slice()), &mut ops) {
        Err(e) => return Err((e, ops)),
        Ok(()) => {},
    }
    let ghost after_libc6 = op_views(ops@);
    let s3 = text::glibc_libm_so_src();
    let d3 = text::lib_libm_so();
    match install_optional_disk_file(disk, fs, s3.as_slice(), child_path(group_dir, d3.as_slice()), &mut ops) {
        Err(e) => return Err((e, ops)),
        Ok(()) => {},
    }
    let ghost after_libm = op_views(ops@);
    let s4 = text::glibc_libm_so6_src();
    let d4 = text::lib_libm_so6();
    match install_optional_disk_file(disk, fs, s4.as_slice(), child_path(group_dir, d4.as_slice()), &mut ops) {
        Err(e) => return Err((e, ops)),
        Ok(()) => {},
    }
    proof {
        let g = group_dir@;
        let aliases = alias_ops(g, byte_views(interps@), loader@, false)->Ok_0;
        let libc = required_disk_file_spec(disk@, *fs, text::glibc_libc_so_src_spec(), child(g, text::lib_libc_so_spec()))->Ok_0;
        let libc6 = required_disk_file_spec(disk@, *fs, text::glibc_libc_so6_src_spec(), child(g, text::lib_libc_so6_spec()))->Ok_0;
        let libm = optional_disk_file_spec(disk@, *fs, text::glibc_libm_so_src_spec(), child(g, text::lib_libm_so_spec()))->Ok_0;
        let libm6 = optional_disk_file_spec(disk@, *fs, text::glibc_libm_so6_src_spec(), child(g, text::lib_libm_so6_spec()))->Ok_0;
        assert(after_loader =~= seq![OpView::File(child(g, text::glibc_loader_dst_spec()), loader@)]);
        assert(op_views(ops@) =~= seq![OpView::File(child(g, text::glibc_loader_dst_spec()), loader@)] + aliases + libc + libc6 + libm + libm6);
    }
    Ok(ops)
}

/// The files of the musl runtime of a group.
fn install_musl_runtime(disk: &[u8], fs: &Ext4Fs, group_dir: &[u8], interps: &Vec<Vec<u8>>)
    -> (r: Result<Vec<StageOp>, (StageError, Vec<StageOp>)>)
    requires
        fs.wf(),
    ensures
        partial_ops_result(r) == musl_runtime_spec(disk@, *fs, group_dir@, byte_views(interps@)),
        r matches Err(f) ==> op_views(f.1@) == musl_runtime_done(disk@, *fs, group_dir@, byte_views(interps@)),
{
    let sources_text = text::musl_runtime_sources();
    let sources = split_on(sources_text.as_slice(), SPACE);
    let libc = match read_first_disk_file(disk, fs, &sources) {
        None => {
            let none: Vec<StageOp> = Vec::new();
            assert(op_views(none@) =~= Seq::<OpView>::empty());
            return Err((StageError::MuslRuntimeMissing, none));
        },
        Some(v) => v,
    };
    let names_text = text::musl_runtime_names();
    let names = split_on(names_text.as_slice(), SPACE);
    let ghost nv = byte_views(names@);
    let ghost g = group_dir@;
    let mut ops: Vec<StageOp> = Vec::new();
    let mut i: usize = 0;
    while i < names.len()
        invariant
            i <= names@.len(),
            nv == byte_views(names@),
            g == group_dir@,
            op_views(ops@) == Seq::new(i as nat, |k: int| OpView::File(child(g, nv[k]), libc@)),
        decreases names@.len() - i,
    {
        let ghost before = op_views(ops@);
        push_file(&mut ops, child_path(group_dir, names[i].as_slice()), libc.as_slice());
        assert(nv[i as int] == names@[i as int]@);
        assert(op_views(ops@) =~= Seq::new((i + 1) as nat, |k: int| OpView::File(child(g, nv[k]), libc@)));
        i = i + 1;
    }
    let ghost base = op_views(ops@);
    proof {
        assert(base =~= Seq::new(nv.len(), |k: int| OpView::File(child(g, nv[k]), libc@)));
    }
    match push_alias_ops(&mut ops, group_dir, interps, libc.as_slice(), true) {
        Err(e) => return Err((e, ops)),
        Ok(()) => {},
    }
    let content = text::musl_path_content();
    let f1 = text::musl_path_file();
    let f2 = text::musl_sf_path_file();
    push_file(&mut ops, child_path(group_dir, f1.as_slice()), content.as_slice());
    push_file(&mut ops, child_path(group_dir, f2.as_slice()), content.as_slice());
    proof {
        let aliases = alias_ops(g, byte_views(interps@), libc@, true)->Ok_0;
        assert(base =~= Seq::new(nv.len(), |k: int| OpView::File(child(g, nv[k]), libc@)));
        assert(op_views(ops@) =~= base + aliases + seq![
            OpView::File(child(g, text::musl_path_file_spec()), text::musl_path_content_spec()),
            OpView::File(child(g, text::musl_sf_path_file_spec()), text::musl_path_content_spec()),
        ]);
    }
    Ok(ops)
}

/// The runtime files a group needs for its dynamic executables. Where a step fails, the
/// error comes back with the files written before it, which stay in place.
pub fn install_group_runtime(
    disk: &[u8],
    fs: &Ext4Fs,
    flavor: BasicFlavor,
    group_dir: &[u8],
    interps: &Vec<Vec<u8>>,
) -> (r: Result<Vec<StageOp>, (StageError, Vec<StageOp>)>)
    requires
        fs.wf(),
    ensures
        partial_ops_result(r) == group_runtime_spec(disk@, *fs, flavor, group_dir@, byte_views(interps@)),
        r matches Err(f) ==> op_views(f.1@) == group_runtime_done(disk@, *fs, flavor, group_dir@, byte_views(interps@)),
{
    match flavor {
        BasicFlavor::Glibc => install_glibc_runtime(disk, fs, group_dir, interps),
        BasicFlavor::Musl => install_musl_runtime(disk, fs, group_dir, interps),
        BasicFlavor::Root => {
            let none: Vec<StageOp> = Vec::new();
            assert(op_views(none@) =~= Seq::<OpView>::empty());
            Err((StageError::RootRuntime, none))
        },
    }
}

// ---------------------------------------------------------------- interpreter paths

/// The interpreter path an ELF interpreter segment names: without one
/// trailing NUL, UTF-8, without surrounding whitespace, not empty.
pub open spec fn interp_from_segment_spec(data: Seq<u8>) -> Result<Seq<u8>, StageError> {
    let d = if data.len() > 0 && data.last() == NUL_BYTE { data.drop_last() } else { data };
    if !is_utf8_spec(d) {
        Err(StageError::InterpreterNotUtf8)
    } else if trim_ws(d).len() == 0 {
        Err(StageError::EmptyInterpreter)
    } else {
        Ok(trim_ws(d))
    }
}

/// The interpreter path an ELF interpreter segment names.
pub fn interp_path_from_segment(data: &[u8]) -> (r: Result<Vec<u8>, StageError>)
    ensures
        bytes_result(r) == interp_from_segment_spec(data@),
{
    let n = data.len();
    let body = if n > 0 && data[n - 1] == NUL_BYTE {
        copy_range(data, 0, n - 1)
    } else {
        copy_all(data)
    };
    assert(n > 0 && data@.last() == NUL_BYTE ==> body@ =~= data@.drop_last());
    if !is_utf8(body.as_slice()) {
        return Err(StageError::InterpreterNotUtf8);
    }
    let t = trim_whitespace(body.as_slice());
    if t.len() == 0 {
        return Err(StageError::EmptyInterpreter);
    }
    Ok(t)
}

// ---------------------------------------------------------------- groups

/// What staging one group produces: the file system entries to create, the
/// queue records that announce the group, and the positions in `ops` of the
/// executables whose ELF interpreters decide which runtime the group needs.
pub struct GroupStage {
    pub ops: Vec<StageOp>,
    pub records: Vec<u8>,
    pub inspect: Vec<usize>,
    /// How many test commands the records run.
    pub commands: usize,
}

/// The meaning of a staged group.
pub open spec fn stage_view(s: GroupStage) -> (Seq<OpView>, Seq<u8>, Seq<usize>, usize) {
    (op_views(s.ops@), s.records@, s.inspect@, s.commands)
}

/// The meaning of a staging result.
pub open spec fn stage_result(r: Result<GroupStage, StageError>) -> Result<
    (Seq<OpView>, Seq<u8>, Seq<usize>, usize),
    StageError,
> {
    match r {
        Ok(s) => Ok(stage_view(s)),
        Err(e) => Err(e),
    }
}

/// The directory part of a path (before its last slash), or nothing.
pub open spec fn parent_spec(p: Seq<u8>) -> Seq<u8> {
    match last_slash(p) {
        Some(k) => p.subrange(0, k),
        None => Seq::<u8>::empty(),
    }
}

/// `/dir` followed by a tab and `marker`: the payload of a group record.
pub open spec fn group_payload(g: Seq<u8>, marker: Seq<u8>) -> Seq<u8> {
    seq![SLASH] + g + seq![TAB] + marker
}

/// The payload of a group record.
pub fn group_record_payload(group_dir: &[u8], marker: &[u8]) -> (r: Vec<u8>)
    ensures
        r@ == group_payload(group_dir@, marker@),
{
    let mut p: Vec<u8> = Vec::new();
    p.push(SLASH);
    extend_from(&mut p, group_dir);
    p.push(TAB);
    extend_from(&mut p, marker);
    assert(p@ =~= group_payload(group_dir@, marker@));
    p
}

/// The records of a group that runs one script: enter the group (no marker),
/// then run the script.
pub open spec fn script_group_records(g: Seq<u8>, script_name: Seq<u8>) -> Seq<u8> {
    record_bytes(KIND_GROUP, group_payload(g, Seq::empty())) + record_bytes(KIND_EXEC, script_name)
}

/// The records of a group that runs one script.
fn push_script_group_records(records: &mut Vec<u8>, group_dir: &[u8], script_name: &[u8])
    ensures
        final(records)@ == old(records)@ + script_group_records(group_dir@, script_name@),
{
    let empty: Vec<u8> = Vec::new();
    let payload = group_record_payload(group_dir, empty.as_slice());
    push_queue_record(records, KIND_GROUP, payload.as_slice());
    push_queue_record(records, KIND_EXEC, script_name);
    assert(records@ =~= old(records)@ + script_group_records(group_dir@, script_name@));
}

/// Staging the busybox group of `script_path` as `g`: busybox (at the root
/// and in the group, also as `ls`), the script and its command list.
pub open spec fn busybox_group_spec(d: Seq<u8>, fs: Ext4Fs, script_path: Seq<u8>, g: Seq<u8>) -> Result<
    (Seq<OpView>, Seq<u8>, Seq<usize>, usize),
    StageError,
> {
    let src = parent_spec(script_path);
    match read_file_spec(d, fs, script_path) {
        Err(e) => Err(e),
        Ok(script) => match read_file_spec(d, fs, resolve_spec(src, text::busybox_cmd_txt_spec())) {
            Err(e) => Err(e),
            Ok(cmds) => match read_file_spec(d, fs, resolve_spec(src, text::busybox_word_spec())) {
                Err(e) => Err(e),
                Ok(bb) => if !elf_magic(bb) {
                    Err(StageError::NotElf(ElfRole::Busybox))
                } else {
                    Ok((
                        seq![
                            OpView::File(text::busybox_word_spec(), bb),
                            OpView::Dir(g),
                            OpView::File(child(g, text::busybox_word_spec()), bb),
                            OpView::File(child(g, text::ls_word_spec()), bb),
                            OpView::File(child(g, text::busybox_script_spec()), script),
                            OpView::File(child(g, text::busybox_cmd_txt_spec()), cmds),
                        ],
                        script_group_records(g, text::busybox_script_spec()),
                        Seq::empty(),
                        1,
                    ))
                },
            },
        },
    }
}

/// Stages a busybox test group.
pub fn install_busybox_group(disk: &[u8], fs: &Ext4Fs, script_path: &[u8], group_dir: &[u8])
    -> (r: Result<GroupStage, StageError>)
    requires
        fs.wf(),
    ensures
        stage_result(r) == busybox_group_spec(disk@, *fs, script_path@, group_dir@),
{
    let source_dir = parent_of(script_path);
    let bb_name = text::busybox_word();
    let cmd_name = text::busybox_cmd_txt();
    let busybox_path = resolve_path(source_dir.as_slice(), bb_name.as_slice());
    let command_path = resolve_path(source_dir.as_slice(), cmd_name.as_slice());
    let script = match read_file(disk, fs, script_path) {
        Err(e) => return Err(e),
        Ok(v) => v,
    };
    let commands = match read_file(disk, fs, command_path.as_slice()) {
        Err(e) => return Err(e),
        Ok(v) => v,
    };
    let busybox = match read_file(disk, fs, busybox_path.as_slice()) {
        Err(e) => return Err(e),
        Ok(v) => v,
    };
    if !is_elf(busybox.as_slice()) {
        return Err(StageError::NotElf(ElfRole::Busybox));
    }
    let mut ops: Vec<StageOp> = Vec::new();
    let script_name = text::busybox_script();
    let ls = text::ls_word();
    push_file(&mut ops, text::busybox_word(), busybox.as_slice());
    push_dir(&mut ops, copy_all(group_dir));
    push_file(&mut ops, child_path(group_dir, bb_name.as_slice()), busybox.as_slice());
    push_file(&mut ops, child_path(group_dir, ls.as_slice()), busybox.as_slice());
    push_file(&mut ops, child_path(group_dir, script_name.as_slice()), script.as_slice());
    push_file(&mut ops, child_path(group_dir, cmd_name.as_slice()), commands.as_slice());
    let mut records: Vec<u8> = Vec::new();
    push_script_group_records(&mut records, group_dir, script_name.as_slice());
    assert(records@ =~= script_group_records(group_dir@, text::busybox_script_spec()));
    let inspect: Vec<usize> = Vec::new();
    let r = GroupStage { ops, records, inspect, commands: 1 };
    assert(stage_view(r).0 =~= busybox_group_spec(disk@, *fs, script_path@, group_dir@)->Ok_0.0);
    assert(stage_view(r).2 =~= Seq::<usize>::empty());
    Ok(r)
}

/// Copies of the named files of `src` into the group, each of which must be readable.
pub open spec fn resource_ops(
    d: Seq<u8>,
    fs: Ext4Fs,
    src: Seq<u8>,
    g: Seq<u8>,
    names: Seq<Seq<u8>>,
) -> Result<Seq<OpView>, StageError>
    decreases names.len(),
{
    if names.len() == 0 {
        Ok(Seq::empty())
    } else {
        match resource_ops(d, fs, src, g, names.drop_last()) {
            Err(e) => Err(e),
            Ok(prev) => match read_file_spec(d, fs, resolve_spec(src, names.last())) {
                Err(e) => Err(e),
                Ok(v) => Ok(prev.push(OpView::File(child(g, names.last()), v))),
            },
        }
    }
}

/// An error for a prefix of the names is the error for all of them.
proof fn lemma_resource_ops_err(d: Seq<u8>, fs: Ext4Fs, src: Seq<u8>, g: Seq<u8>, names: Seq<Seq<u8>>, n: int)
    requires
        0 < n <= names.len(),
        resource_ops(d, fs, src, g, names.subrange(0, n)) is Err,
    ensures
        resource_ops(d, fs, src, g, names) == resource_ops(d, fs, src, g, names.subrange(0, n)),
    decreases names.len() - n,
{
    if n < names.len() {
        let next = names.subrange(0, n + 1);
        assert(next.drop_last() =~= names.subrange(0, n));
        lemma_resource_ops_err(d, fs, src, g, names, n + 1);
    } else {
        assert(names.subrange(0, n) =~= names);
    }
}

/// The copies written before the first named file that cannot be read (all of them where
/// every one can).
pub open spec fn resource_done(d: Seq<u8>, fs: Ext4Fs, src: Seq<u8>, g: Seq<u8>, names: Seq<Seq<u8>>) -> Seq<OpView>
    decreases names.len(),
{
    if names.len() == 0 {
        Seq::empty()
    } else {
        match resource_ops(d, fs, src, g, names.drop_last()) {
            Err(_) => resource_done(d, fs, src, g, names.drop_last()),
            Ok(prev) => match resource_ops(d, fs, src, g, names) {
                Ok(all) => all,
                Err(_) => prev,
            },
        }
    }
}

/// Where the first `i` named files can be read and the next cannot, what is written
/// before the failure is the copies of the first `i`.
proof fn lemma_resource_done(d: Seq<u8>, fs: Ext4Fs, src: Seq<u8>, g: Seq<u8>, names: Seq<Seq<u8>>, i: int, n: int)
    requires
        0 <= i < n <= names.len(),
        resource_ops(d, fs, src, g, names.subrange(0, i)) is Ok,
        resource_ops(d, fs, src, g, names.subrange(0, i + 1)) is Err,
    ensures
        resource_done(d, fs, src, g, names.subrange(0, n)) == resource_ops(d, fs, src, g, names.subrange(0, i))->Ok_0,
        resource_ops(d, fs, src, g, names.subrange(0, n)) is Err,
    decreases n - i,
{
    let cur = names.subrange(0, n);
    assert(cur.drop_last() =~= names.subrange(0, n - 1));
    if n > i + 1 {
        lemma_resource_done(d, fs, src, g, names, i, n - 1);
    }
}

/// Appends copies of the named files of `source_dir` into the group; where one cannot be
/// read, the copies before it stay appended.
fn push_resource_ops(
    disk: &[u8],
    fs: &Ext4Fs,
    source_dir: &[u8],
    group_dir: &[u8],
    names: &Vec<Vec<u8>>,
    ops: &mut Vec<StageOp>,
) -> (r: Result<(), StageError>)
    requires
        fs.wf(),
    ensures
        match resource_ops(disk@, *fs, source_dir@, group_dir@, byte_views(names@)) {
            Ok(v) => r is Ok && op_views(final(ops)@) == op_views(old(ops)@) + v,
            Err(e) => r == Err::<(), StageError>(e) && op_views(final(ops)@) == op_views(old(ops)@) + resource_done(
                disk@,
                *fs,
                source_dir@,
                group_dir@,
                byte_views(names@),
            ),
        },
{
    let ghost nv = byte_views(names@);
    let mut i: usize = 0;
    assert(nv.subrange(0, 0) =~= Seq::<Seq<u8>>::empty());
    assert(op_views(ops@) =~= op_views(old(ops)@) + Seq::<OpView>::empty());
    while i < names.len()
        invariant
            fs.wf(),
            i <= names@.len(),
            nv == byte_views(names@),
            resource_ops(disk@, *fs, source_dir@, group_dir@, nv.subrange(0, i as int)) matches Ok(v)
                && op_views(ops@) == op_views(old(ops)@) + v,
        decreases names@.len() - i,
    {
        let ghost pre = nv.subrange(0, i + 1);
        assert(pre.drop_last() =~= nv.subrange(0, i as int));
        assert(pre.last() == names@[i as int]@);
        let path = resolve_path(source_dir, names[i].as_slice());
        let data = match read_file(disk, fs, path.as_slice()) {
            Err(e) => {
                proof {
                    lemma_resource_ops_err(disk@, *fs, source_dir@, group_dir@, nv, i + 1);
                    lemma_resource_done(disk@, *fs, source_dir@, group_dir@, nv, i as int, nv.len() as int);
                    assert(nv.subrange(0, nv.len() as int) =~= nv);
                }
                return Err(e);
            },
            Ok(v) => v,
        };
        push_file(ops, child_path(group_dir, names[i].as_slice()), data.as_slice());
        i = i + 1;
    }
    assert(nv.subrange(0, names@.len() as int) =~= nv);
    Ok(())
}

/// Staging the lua group of `script_path` as `g`: busybox (at the root and in
/// the group), lua, the script and its lua resources.
pub open spec fn lua_group_spec(d: Seq<u8>, fs: Ext4Fs, script_path: Seq<u8>, g: Seq<u8>) -> Result<
    (Seq<OpView>, Seq<u8>, Seq<usize>, usize),
    StageError,
> {
    let src = parent_spec(script_path);
    match read_file_spec(d, fs, script_path) {
        Err(e) => Err(e),
        Ok(script) => match read_file_spec(d, fs, resolve_spec(src, text::lua_word_spec())) {
            Err(e) => Err(e),
            Ok(lua) => match read_file_spec(d, fs, resolve_spec(src, text::busybox_word_spec())) {
                Err(e) => Err(e),
                Ok(bb) => if !elf_magic(lua) {
                    Err(StageError::NotElf(ElfRole::Lua))
                } else if !elf_magic(bb) {
                    Err(StageError::NotElf(ElfRole::Busybox))
                } else {
                    match resource_ops(d, fs, src, g, pieces(text::lua_resources_spec(), SPACE)) {
                        Err(e) => Err(e),
                        Ok(res) => Ok((
                            seq![
                                OpView::File(text::busybox_word_spec(), bb),
                                OpView::Dir(g),
                                OpView::File(child(g, text::busybox_word_spec()), bb),
                                OpView::File(child(g, text::lua_word_spec()), lua),
                                OpView::File(child(g, text::lua_script_spec()), script),
                            ] + res,
                            script_group_records(g, text::lua_script_spec()),
                            Seq::empty(),
                            1,
                        )),
                    }
                },
            },
        },
    }
}

/// What staging the lua group writes before a step fails: nothing until its files are
/// read and checked, then busybox, the group directory, lua and the script, and the
/// resources read before the first that cannot be.
pub open spec fn lua_group_done(d: Seq<u8>, fs: Ext4Fs, script_path: Seq<u8>, g: Seq<u8>) -> Seq<OpView> {
    let src = parent_spec(script_path);
    match read_file_spec(d, fs, script_path) {
        Err(_) => Seq::empty(),
        Ok(script) => match read_file_spec(d, fs, resolve_spec(src, text::lua_word_spec())) {
            Err(_) => Seq::empty(),
            Ok(lua) => match read_file_spec(d, fs, resolve_spec(src, text::busybox_word_spec())) {
                Err(_) => Seq::empty(),
                Ok(bb) => if !elf_magic(lua) || !elf_magic(bb) {
                    Seq::empty()
                } else {
                    seq![
                        OpView::File(text::busybox_word_spec(), bb),
                        OpView::Dir(g),
                        OpView::File(child(g, text::busybox_word_spec()), bb),
                        OpView::File(child(g, text::lua_word_spec()), lua),
                        OpView::File(child(g, text::lua_script_spec()), script),
                    ] + resource_done(d, fs, src, g, pieces(text::lua_resources_spec(), SPACE))
                },
            },
        },
    }
}

/// Stages a lua test group. Where a resource cannot be read, the error comes back with
/// the files written before it, which stay in place.
pub fn install_lua_group(disk: &[u8], fs: &Ext4Fs, script_path: &[u8], group_dir: &[u8])
    -> (r: Result<GroupStage, (StageError, Vec<StageOp>)>)
    requires
        fs.wf(),
    ensures
        partial_stage_result(r) == lua_group_spec(disk@, *fs, script_path@, group_dir@),
        r matches Err(f) ==> op_views(f.1@) == lua_group_done(disk@, *fs, script_path@, group_dir@),
{
    let none: Vec<StageOp> = Vec::new();
    assert(op_views(none@) =~= Seq::<OpView>::empty());
    let source_dir = parent_of(script_path);
    let lua_name = text::lua_word();
    let bb_name = text::busybox_word();
    let lua_path = resolve_path(source_dir.as_slice(), lua_name.as_slice());
    let busybox_path = resolve_path(source_dir.as_slice(), bb_name.as_slice());
    let script = match read_file(disk, fs, script_path) {
        Err(e) => return Err((e, none)),
        Ok(v) => v,
    };
    let lua = match read_file(disk, fs, lua_path.as_slice()) {
        Err(e) => return Err((e, none)),
        Ok(v) => v,
    };
    let busybox = match read_file(disk, fs, busybox_path.as_slice()) {
        Err(e) => return Err((e, none)),
        Ok(v) => v,
    };
    if !is_elf(lua.as_slice()) {
        return Err((StageError::NotElf(ElfRole::Lua), none));
    }
    if !is_elf(busybox.as_slice()) {
        return Err((StageError::NotElf(ElfRole::Busybox), none));
    }
    let mut ops: Vec<StageOp> = Vec::new();
    let script_name = text::lua_script();
    push_file(&mut ops, text::busybox_word(), busybox.as_slice());
    push_dir(&mut ops, copy_all(group_dir));
    push_file(&mut ops, child_path(group_dir, bb_name.as_slice()), busybox.as_slice());
    push_file(&mut ops, child_path(group_dir, lua_name.as_slice()), lua.as_slice());
    push_file(&mut ops, child_path(group_dir, script_name.as_slice()), script.as_slice());
    let ghost fixed = op_views(ops@);
    let resources_text = text::lua_resources();
    let resources = split_on(resources_text.as_slice(), SPACE);
    proof {
        assert(fixed =~= seq![
            OpView::File(text::busybox_word_spec(), busybox@),
            OpView::Dir(group_dir@),
            OpView::File(child(group_dir@, text::busybox_word_spec()), busybox@),
            OpView::File(child(group_dir@, text::lua_word_spec()), lua@),
            OpView::File(child(group_dir@, text::lua_script_spec()), script@),
        ]);
    }
    match push_resource_ops(disk, fs, source_dir.as_slice(), group_dir, &resources, &mut ops) {
        Err(e) => return Err((e, ops)),
        Ok(()) => {},
    }
    let mut records: Vec<u8> = Vec::new();
    push_script_group_records(&mut records, group_dir, script_name.as_slice());
    assert(records@ =~= script_group_records(group_dir@, text::lua_script_spec()));
    let inspect: Vec<usize> = Vec::new();
    let r = GroupStage { ops, records, inspect, commands: 1 };
    assert(stage_view(r).0 =~= lua_group_spec(disk@, *fs, script_path@, group_dir@)->Ok_0.0);
    assert(stage_view(r).2 =~= Seq::<usize>::empty());
    Ok(r)
}

/// Staging the libc-bench group of `script_path` as `g`: busybox (at the root
/// and in the group), libc-bench and the script.
pub open spec fn libcbench_group_spec(d: Seq<u8>, fs: Ext4Fs, script_path: Seq<u8>, g: Seq<u8>) -> Result<
    (Seq<OpView>, Seq<u8>, Seq<usize>, usize),
    StageError,
> {
    let src = parent_spec(script_path);
    match read_file_spec(d, fs, script_path) {
        Err(e) => Err(e),
        Ok(script) => match read_file_spec(d, fs, resolve_spec(src, text::busybox_word_spec())) {
            Err(e) => Err(e),
            Ok(bb) => match read_file_spec(d, fs, resolve_spec(src, text::libc_bench_spec())) {
                Err(e) => Err(e),
                Ok(bench) => if !elf_magic(bb) {
                    Err(StageError::NotElf(ElfRole::Busybox))
                } else if !elf_magic(bench) {
                    Err(StageError::NotElf(ElfRole::LibcBench))
                } else {
                    Ok((
                        seq![
                            OpView::File(text::busybox_word_spec(), bb),
                            OpView::Dir(g),
                            OpView::File(child(g, text::busybox_word_spec()), bb),
                            OpView::File(child(g, text::libc_bench_spec()), bench),
                            OpView::File(child(g, text::libcbench_script_spec()), script),
                        ],
                        script_group_records(g, text::libcbench_script_spec()),
                        Seq::empty(),
                        1,
                    ))
                },
            },
        },
    }
}

/// Stages a libc-bench test group.
pub fn install_libcbench_group(disk: &[u8], fs: &Ext4Fs, script_path: &[u8], group_dir: &[u8])
    -> (r: Result<GroupStage, StageError>)
    requires
        fs.wf(),
    ensures
        stage_result(r) == libcbench_group_spec(disk@, *fs, script_path@, group_dir@),
{
    let source_dir = parent_of(script_path);
    let bb_name = text::busybox_word();
    let bench_name = text::libc_bench();
    let busybox_path = resolve_path(source_dir.as_slice(), bb_name.as_slice());
    let bench_path = resolve_path(source_dir.as_slice(), bench_name.as_slice());
    let script = match read_file(disk, fs, script_path) {
        Err(e) => return Err(e),
        Ok(v) => v,
    };
    let busybox = match read_file(disk, fs, busybox_path.as_slice()) {
        Err(e) => return Err(e),
        Ok(v) => v,
    };
    let bench = match read_file(disk, fs, bench_path.as_slice()) {
        Err(e) => return Err(e),
        Ok(v) => v,
    };
    if !is_elf(busybox.as_slice()) {
        return Err(StageError::NotElf(ElfRole::Busybox));
    }
    if !is_elf(bench.as_slice()) {
        return Err(StageError::NotElf(ElfRole::LibcBench));
    }
    let mut ops: Vec<StageOp> = Vec::new();
    let script_name = text::libcbench_script();
    push_file(&mut ops, text::busybox_word(), busybox.as_slice());
    push_dir(&mut ops, copy_all(group_dir));
    push_file(&mut ops, child_path(group_dir, bb_name.as_slice()), busybox.as_slice());
    push_file(&mut ops, child_path(group_dir, bench_name.as_slice()), bench.as_slice());
    push_file(&mut ops, child_path(group_dir, script_name.as_slice()), script.as_slice());
    let mut records: Vec<u8> = Vec::new();
    push_script_group_records(&mut records, group_dir, script_name.as_slice());
    assert(records@ =~= script_group_records(group_dir@, text::libcbench_script_spec()));
    let inspect: Vec<usize> = Vec::new();
    let r = GroupStage { ops, records, inspect, commands: 1 };
    assert(stage_view(r).0 =~= libcbench_group_spec(disk@, *fs, script_path@, group_dir@)->Ok_0.0);
    assert(stage_view(r).2 =~= Seq::<usize>::empty());
    Ok(r)
}

/// How long one libc-test case may run, in milliseconds.
pub const LIBCTEST_TIMEOUT_MS: usize = 3000;

/// Each name resolved against `src`.
pub open spec fn resolve_all_spec(src: Seq<u8>, names: Seq<Seq<u8>>) -> Seq<Seq<u8>> {
    Seq::new(names.len(), |i: int| resolve_spec(src, names[i]))
}

/// Each name resolved against `source_dir`.
pub fn resolve_all(source_dir: &[u8], names: &Vec<Vec<u8>>) -> (r: Vec<Vec<u8>>)
    ensures
        byte_views(r@) == resolve_all_spec(source_dir@, byte_views(names@)),
{
    let mut out: Vec<Vec<u8>> = Vec::new();
    let mut i: usize = 0;
    while i < names.len()
        invariant
            i <= names@.len(),
            byte_views(out@) == resolve_all_spec(source_dir@, byte_views(names@)).subrange(0, i as int),
        decreases names@.len() - i,
    {
        let ghost before = out@;
        let p = resolve_path(source_dir, names[i].as_slice());
        let ghost pv = p@;
        out.push(p);
        assert(byte_views(names@)[i as int] == names@[i as int]@);
        assert(byte_views(out@) =~= byte_views(before).push(pv));
        assert(byte_views(out@) =~= resolve_all_spec(source_dir@, byte_views(names@)).subrange(0, i + 1));
        i = i + 1;
    }
    assert(resolve_all_spec(source_dir@, byte_views(names@)).subrange(0, names@.len() as int)
        =~= resolve_all_spec(source_dir@, byte_views(names@)));
    out
}

/// The candidate paths of a list of space-separated names, resolved against `source_dir`.
fn candidates(source_dir: &[u8], names_text: &[u8]) -> (r: Vec<Vec<u8>>)
    ensures
        byte_views(r@) == resolve_all_spec(source_dir@, pieces(names_text@, SPACE)),
{
    let names = split_on(names_text, SPACE);
    resolve_all(source_dir, &names)
}

/// Reading a script: the whole file, which must be UTF-8.
pub open spec fn read_text_spec(d: Seq<u8>, fs: Ext4Fs, path: Seq<u8>) -> Result<Seq<u8>, StageError> {
    match read_file_spec(d, fs, path) {
        Err(e) => Err(e),
        Ok(v) => if is_utf8_spec(v) {
            Ok(v)
        } else {
            Err(StageError::NotUtf8)
        },
    }
}

/// Reads a script, which must be UTF-8.
pub fn read_text_file(disk: &[u8], fs: &Ext4Fs, path: &[u8]) -> (r: Result<Vec<u8>, StageError>)
    requires
        fs.wf(),
    ensures
        bytes_result(r) == read_text_spec(disk@, *fs, path@),
{
    let v = match read_file(disk, fs, path) {
        Err(e) => return Err(e),
        Ok(v) => v,
    };
    if is_utf8(v.as_slice()) {
        Ok(v)
    } else {
        Err(StageError::NotUtf8)
    }
}

/// `#### OS COMP TEST GROUP START <name> ####`.
pub open spec fn named_start(name: Seq<u8>) -> Seq<u8> {
    text::group_start_prefix_spec() + name + text::marker_tail_spec()
}

/// `#### OS COMP TEST GROUP END <name> ####`.
pub open spec fn named_end(name: Seq<u8>) -> Seq<u8> {
    text::group_end_prefix_spec() + name + text::marker_tail_spec()
}

/// A marker line made of `prefix`, `name` and ` ####`.
fn named_marker(prefix: Vec<u8>, name: &[u8]) -> (r: Vec<u8>)
    ensures
        r@ == prefix@ + name@ + text::marker_tail_spec(),
{
    let mut line = prefix;
    extend_from(&mut line, name);
    let tail = text::marker_tail();
    extend_from(&mut line, tail.as_slice());
    line
}

/// The start and end markers of a group: the script's own when it is UTF-8
/// and has them, each else made up from `name`.
pub open spec fn group_markers_spec(script: Seq<u8>, name: Seq<u8>) -> (Seq<u8>, Seq<u8>) {
    if is_utf8_spec(script) {
        (
            match group_marker_spec(script, text::case_kind_start_spec()) {
                Some(m) => m,
                None => named_start(name),
            },
            match group_marker_spec(script, text::case_kind_end_spec()) {
                Some(m) => m,
                None => named_end(name),
            },
        )
    } else {
        (named_start(name), named_end(name))
    }
}

/// The start and end markers of a group.
pub fn group_markers(script: &[u8], name: &[u8]) -> (r: (Vec<u8>, Vec<u8>))
    ensures
        (r.0@, r.1@) == group_markers_spec(script@, name@),
{
    if is_utf8(script) {
        let start_kind = text::case_kind_start();
        let end_kind = text::case_kind_end();
        let start = match find_group_marker(script, start_kind.as_slice()) {
            Some(m) => m,
            None => named_marker(text::group_start_prefix(), name),
        };
        let end = match find_group_marker(script, end_kind.as_slice()) {
            Some(m) => m,
            None => named_marker(text::group_end_prefix(), name),
        };
        (start, end)
    } else {
        (named_marker(text::group_start_prefix(), name), named_marker(text::group_end_prefix(), name))
    }
}

/// The runner record for one libc-test case: through `runtest.exe` when the
/// group has it, else straight through `entry-static.exe`.
pub open spec fn libctest_case_record(case: Seq<u8>, runtest: bool) -> Seq<u8> {
    if runtest {
        record_bytes(
            KIND_ARGV,
            argv_payload(LIBCTEST_TIMEOUT_MS as nat, text::runtest_exe_spec(), runtest_args(case)),
        )
    } else {
        record_bytes(
            KIND_LIBCTEST,
            libctest_payload(LIBCTEST_TIMEOUT_MS as nat, text::entry_static_exe_spec(), case),
        )
    }
}

/// The records for the cases, in order.
pub open spec fn libctest_case_records(cases: Seq<Seq<u8>>, runtest: bool) -> Seq<u8>
    decreases cases.len(),
{
    if cases.len() == 0 {
        Seq::empty()
    } else {
        libctest_case_records(cases.drop_last(), runtest) + libctest_case_record(cases.last(), runtest)
    }
}

/// The optional `runtest.exe` of a libc-test group: none when no candidate is
/// a regular file; an error when it cannot be read or is not an ELF file.
pub open spec fn runtest_spec(d: Seq<u8>, fs: Ext4Fs, paths: Seq<Seq<u8>>) -> Result<Option<Seq<u8>>, StageError> {
    match first_regular(d, fs, paths) {
        None => Ok(None),
        Some(k) => match read_file_spec(d, fs, paths[k]) {
            Err(e) => Err(e),
            Ok(v) => if elf_magic(v) {
                Ok(Some(v))
            } else {
                Err(StageError::NotElf(ElfRole::Runtest))
            },
        },
    }
}

/// The files and records of a libc-test group once its run script, entry
/// executable and cases are known.
pub open spec fn libctest_files_spec(
    d: Seq<u8>,
    fs: Ext4Fs,
    script_path: Seq<u8>,
    g: Seq<u8>,
    name: Seq<u8>,
    run_path: Seq<u8>,
    entry_path: Seq<u8>,
    runtest_paths: Seq<Seq<u8>>,
    cases: Seq<Seq<u8>>,
) -> Result<(Seq<OpView>, Seq<u8>, Seq<usize>, usize), StageError> {
    match read_file_spec(d, fs, script_path) {
        Err(e) => Err(e),
        Ok(script) => match read_file_spec(d, fs, run_path) {
            Err(e) => Err(e),
            Ok(run_static) => match read_file_spec(d, fs, entry_path) {
                Err(e) => Err(e),
                Ok(entry) => if !elf_magic(entry) {
                    Err(StageError::NotElf(ElfRole::EntryStatic))
                } else {
                    match runtest_spec(d, fs, runtest_paths) {
                        Err(e) => Err(e),
                        Ok(runtest) => {
                            let markers = group_markers_spec(script, name);
                            let base = seq![
                                OpView::Dir(g),
                                OpView::File(child(g, text::libctest_script_spec()), script),
                                OpView::File(child(g, text::run_static_sh_spec()), run_static),
                                OpView::File(child(g, text::entry_static_exe_spec()), entry),
                            ];
                            let ops = match runtest {
                                Some(rt) => base.push(OpView::File(child(g, text::runtest_exe_spec()), rt)),
                                None => base,
                            };
                            Ok((
                                ops,
                                record_bytes(KIND_GROUP, group_payload(g, markers.0))
                                    + libctest_case_records(cases, runtest is Some)
                                    + record_bytes(KIND_END, markers.1),
                                Seq::empty(),
                                cases.len() as usize,
                            ))
                        },
                    }
                },
            },
        },
    }
}

/// Staging the libc-test group of `script_path` as `g`, with markers named
/// after `name`: the script, the run script, `entry-static.exe`, and
/// `runtest.exe` when the disk has it; one record per allowed case that the
/// run script names.
pub open spec fn libctest_group_spec(
    d: Seq<u8>,
    fs: Ext4Fs,
    script_path: Seq<u8>,
    g: Seq<u8>,
    name: Seq<u8>,
) -> Result<(Seq<OpView>, Seq<u8>, Seq<usize>, usize), StageError> {
    let src = parent_spec(script_path);
    let run_paths = resolve_all_spec(src, pieces(text::libctest_run_static_names_spec(), SPACE));
    let entry_paths = resolve_all_spec(src, pieces(text::libctest_entry_names_spec(), SPACE));
    let runtest_paths = resolve_all_spec(src, pieces(text::libctest_runtest_names_spec(), SPACE));
    match first_regular(d, fs, run_paths) {
        None => Err(StageError::ExecutableMissing),
        Some(rk) => match first_regular(d, fs, entry_paths) {
            None => Err(StageError::ExecutableMissing),
            Some(ek) => match read_text_spec(d, fs, run_paths[rk]) {
                Err(e) => Err(e),
                Ok(run_text) => {
                    let cases = libctest_cases_spec(run_text);
                    if cases.len() == 0 {
                        Err(StageError::NoLibctestCase)
                    } else {
                        libctest_files_spec(d, fs, script_path, g, name, run_paths[rk], entry_paths[ek],
                            runtest_paths, cases)
                    }
                },
            },
        },
    }
}

/// Appends the records for the cases.
fn push_libctest_case_records(records: &mut Vec<u8>, cases: &Vec<Vec<u8>>, runtest: bool)
    ensures
        final(records)@ == old(records)@ + libctest_case_records(byte_views(cases@), runtest),
{
    let ghost cv = byte_views(cases@);
    let mut i: usize = 0;
    assert(cv.subrange(0, 0) =~= Seq::<Seq<u8>>::empty());
    assert(records@ =~= old(records)@ + libctest_case_records(cv.subrange(0, 0), runtest));
    while i < cases.len()
        invariant
            i <= cases@.len(),
            cv == byte_views(cases@),
            records@ == old(records)@ + libctest_case_records(cv.subrange(0, i as int), runtest),
        decreases cases@.len() - i,
    {
        let ghost pre = cv.subrange(0, i + 1);
        assert(pre.drop_last() =~= cv.subrange(0, i as int));
        assert(pre.last() == cases@[i as int]@);
        if runtest {
            push_libctest_runtest_record(records, LIBCTEST_TIMEOUT_MS, cases[i].as_slice());
        } else {
            let exe = text::entry_static_exe();
            push_libctest_record(records, LIBCTEST_TIMEOUT_MS, exe.as_slice(), cases[i].as_slice());
        }
        assert(records@ =~= old(records)@ + libctest_case_records(pre, runtest));
        i = i + 1;
    }
    assert(cv.subrange(0, cases@.len() as int) =~= cv);
}

/// Reads the optional `runtest.exe` of a libc-test group.
fn read_runtest(disk: &[u8], fs: &Ext4Fs, paths: &Vec<Vec<u8>>) -> (r: Result<Option<Vec<u8>>, StageError>)
    requires
        fs.wf(),
    ensures
        match runtest_spec(disk@, *fs, byte_views(paths@)) {
            Ok(o) => r matches Ok(v) && opt_view(v) == o,
            Err(e) => r == Err::<Option<Vec<u8>>, StageError>(e),
        },
{
    match find_optional_regular_path(disk, fs, paths) {
        None => Ok(None),
        Some(path) => {
            let data = match read_file(disk, fs, path.as_slice()) {
                Err(e) => return Err(e),
                Ok(v) => v,
            };
            if !is_elf(data.as_slice()) {
                return Err(StageError::NotElf(ElfRole::Runtest));
            }
            Ok(Some(data))
        },
    }
}

/// Stages a libc-test group.
pub fn install_libctest_group(
    disk: &[u8],
    fs: &Ext4Fs,
    script_path: &[u8],
    group_dir: &[u8],
    marker_name: &[u8],
) -> (r: Result<GroupStage, StageError>)
    requires
        fs.wf(),
    ensures
        stage_result(r) == libctest_group_spec(disk@, *fs, script_path@, group_dir@, marker_name@),
{
    let source_dir = parent_of(script_path);
    let run_names = text::libctest_run_static_names();
    let entry_names = text::libctest_entry_names();
    let runtest_names = text::libctest_runtest_names();
    let run_paths = candidates(source_dir.as_slice(), run_names.as_slice());
    let entry_paths = candidates(source_dir.as_slice(), entry_names.as_slice());
    let runtest_paths = candidates(source_dir.as_slice(), runtest_names.as_slice());
    let run_static_path = match find_first_regular_path(disk, fs, &run_paths) {
        Err(e) => return Err(e),
        Ok(p) => p,
    };
    let entry_path = match find_first_regular_path(disk, fs, &entry_paths) {
        Err(e) => return Err(e),
        Ok(p) => p,
    };
    let run_text = match read_text_file(disk, fs, run_static_path.as_slice()) {
        Err(e) => return Err(e),
        Ok(v) => v,
    };
    let cases = find_libctest_cases(run_text.as_slice());
    if cases.len() == 0 {
        return Err(StageError::NoLibctestCase);
    }
    stage_libctest_files(disk, fs, script_path, group_dir, marker_name, run_static_path.as_slice(),
        entry_path.as_slice(), &runtest_paths, &cases)
}

/// Stages the files and records of a libc-test group once its run script,
/// entry executable and cases are known.
#[verifier::rlimit(30)]
fn stage_libctest_files(
    disk: &[u8],
    fs: &Ext4Fs,
    script_path: &[u8],
    group_dir: &[u8],
    marker_name: &[u8],
    run_static_path: &[u8],
    entry_path: &[u8],
    runtest_paths: &Vec<Vec<u8>>,
    cases: &Vec<Vec<u8>>,
) -> (r: Result<GroupStage, StageError>)
    requires
        fs.wf(),
    ensures
        stage_result(r) == libctest_files_spec(disk@, *fs, script_path@, group_dir@, marker_name@,
            run_static_path@, entry_path@, byte_views(runtest_paths@), byte_views(cases@)),
{
    let script = match read_file(disk, fs, script_path) {
        Err(e) => return Err(e),
        Ok(v) => v,
    };
    let run_static = match read_file(disk, fs, run_static_path) {
        Err(e) => return Err(e),
        Ok(v) => v,
    };
    let entry = match read_file(disk, fs, entry_path) {
        Err(e) => return Err(e),
        Ok(v) => v,
    };
    if !is_elf(entry.as_slice()) {
        return Err(StageError::NotElf(ElfRole::EntryStatic));
    }
    let runtest = match read_runtest(disk, fs, runtest_paths) {
        Err(e) => return Err(e),
        Ok(v) => v,
    };
    let (start_marker, end_marker) = group_markers(script.as_slice(), marker_name);
    let mut ops: Vec<StageOp> = Vec::new();
    let script_name = text::libctest_script();
    let run_name = text::run_static_sh();
    let entry_name = text::entry_static_exe();
    push_dir(&mut ops, copy_all(group_dir));
    push_file(&mut ops, child_path(group_dir, script_name.as_slice()), script.as_slice());
    push_file(&mut ops, child_path(group_dir, run_name.as_slice()), run_static.as_slice());
    push_file(&mut ops, child_path(group_dir, entry_name.as_slice()), entry.as_slice());
    let has_runtest = match &runtest {
        Some(rt) => {
            let rt_name = text::runtest_exe();
            push_file(&mut ops, child_path(group_dir, rt_name.as_slice()), rt.as_slice());
            true
        },
        None => false,
    };
    let mut records: Vec<u8> = Vec::new();
    let payload = group_record_payload(group_dir, start_marker.as_slice());
    push_queue_record(&mut records, KIND_GROUP, payload.as_slice());
    push_libctest_case_records(&mut records, cases, has_runtest);
    push_queue_record(&mut records, KIND_END, end_marker.as_slice());
    let commands = cases.len();
    let inspect: Vec<usize> = Vec::new();
    let r = GroupStage { ops, records, inspect, commands };
    proof {
        let spec = libctest_files_spec(disk@, *fs, script_path@, group_dir@, marker_name@,
            run_static_path@, entry_path@, byte_views(runtest_paths@), byte_views(cases@))->Ok_0;
        assert(stage_view(r).0 =~= spec.0);
        assert(stage_view(r).1 =~= spec.1);
        assert(stage_view(r).2 =~= spec.2);
    }
    Ok(r)
}

/// How long one LTP case may run, in milliseconds.
pub const LTP_TIMEOUT_MS: usize = 3000;

/// The LTP cases of the allow-list that are regular ELF files of `src`, each
/// copied into the group: the file entries, their positions in the group's
/// entries (after the group directory), and the case names.
pub open spec fn ltp_cases_fold(
    d: Seq<u8>,
    fs: Ext4Fs,
    src: Seq<u8>,
    g: Seq<u8>,
    cases: Seq<Seq<u8>>,
) -> Result<(Seq<OpView>, Seq<usize>, Seq<Seq<u8>>), StageError>
    decreases cases.len(),
{
    if cases.len() == 0 {
        Ok((Seq::empty(), Seq::empty(), Seq::empty()))
    } else {
        match ltp_cases_fold(d, fs, src, g, cases.drop_last()) {
            Err(e) => Err(e),
            Ok(st) => {
                let c = cases.last();
                let path = resolve_spec(src, c);
                if !regular_at(d, fs, path) {
                    Ok(st)
                } else {
                    match read_file_spec(d, fs, path) {
                        Err(e) => Err(e),
                        Ok(elf) => if !elf_magic(elf) {
                            Ok(st)
                        } else {
                            Ok((
                                st.0.push(OpView::File(child(g, c), elf)),
                                st.1.push((st.0.len() + 1) as usize),
                                st.2.push(c),
                            ))
                        },
                    }
                }
            },
        }
    }
}

/// An error for a prefix of the cases is the error for all of them.
proof fn lemma_ltp_fold_err(d: Seq<u8>, fs: Ext4Fs, src: Seq<u8>, g: Seq<u8>, cases: Seq<Seq<u8>>, n: int)
    requires
        0 < n <= cases.len(),
        ltp_cases_fold(d, fs, src, g, cases.subrange(0, n)) is Err,
    ensures
        ltp_cases_fold(d, fs, src, g, cases) == ltp_cases_fold(d, fs, src, g, cases.subrange(0, n)),
    decreases cases.len() - n,
{
    if n < cases.len() {
        let next = cases.subrange(0, n + 1);
        assert(next.drop_last() =~= cases.subrange(0, n));
        lemma_ltp_fold_err(d, fs, src, g, cases, n + 1);
    } else {
        assert(cases.subrange(0, n) =~= cases);
    }
}

/// The case files written before the first case that cannot be read (all of them where
/// every one can).
pub open spec fn ltp_fold_done(d: Seq<u8>, fs: Ext4Fs, src: Seq<u8>, g: Seq<u8>, cases: Seq<Seq<u8>>) -> Seq<OpView>
    decreases cases.len(),
{
    if cases.len() == 0 {
        Seq::empty()
    } else {
        match ltp_cases_fold(d, fs, src, g, cases.drop_last()) {
            Err(_) => ltp_fold_done(d, fs, src, g, cases.drop_last()),
            Ok(st) => match ltp_cases_fold(d, fs, src, g, cases) {
                Ok(all) => all.0,
                Err(_) => st.0,
            },
        }
    }
}

/// Where the first `i` cases fold and the next cannot be read, what is written before the
/// failure is the files of the first `i`.
proof fn lemma_ltp_fold_done(d: Seq<u8>, fs: Ext4Fs, src: Seq<u8>, g: Seq<u8>, cases: Seq<Seq<u8>>, i: int, n: int)
    requires
        0 <= i < n <= cases.len(),
        ltp_cases_fold(d, fs, src, g, cases.subrange(0, i)) is Ok,
        ltp_cases_fold(d, fs, src, g, cases.subrange(0, i + 1)) is Err,
    ensures
        ltp_fold_done(d, fs, src, g, cases.subrange(0, n)) == ltp_cases_fold(d, fs, src, g, cases.subrange(0, i))->Ok_0.0,
    decreases n - i,
{
    let cur = cases.subrange(0, n);
    assert(cur.drop_last() =~= cases.subrange(0, n - 1));
    if n > i + 1 {
        lemma_ltp_fold_done(d, fs, src, g, cases, i, n - 1);
        assert(cases.subrange(0, n - 1).subrange(0, i + 1) =~= cases.subrange(0, i + 1));
        lemma_ltp_fold_err(d, fs, src, g, cases.subrange(0, n - 1), i + 1);
    }
}

/// What staging an LTP group writes before a case cannot be read: the group directory
/// and the cases staged before it.
pub open spec fn ltp_group_done(d: Seq<u8>, fs: Ext4Fs, src: Seq<u8>, g: Seq<u8>) -> Seq<OpView> {
    match lookup(d, fs, src) {
        Ok(Some(info)) => if is_regular(info) {
            Seq::empty()
        } else {
            seq![OpView::Dir(g)] + ltp_fold_done(d, fs, src, g, pieces(text::ltp_allowlist_spec(), SPACE))
        },
        _ => Seq::empty(),
    }
}

/// The LTP records for the cases, in order.
pub open spec fn ltp_records(cases: Seq<Seq<u8>>) -> Seq<u8>
    decreases cases.len(),
{
    if cases.len() == 0 {
        Seq::empty()
    } else {
        ltp_records(cases.drop_last()) + record_bytes(KIND_LTP, ltp_payload(LTP_TIMEOUT_MS as nat, cases.last()))
    }
}

/// Staging the LTP group of the case directory `src` as `g`, with markers
/// named after `name`: nothing when the directory is missing, an error when it
/// is a regular file, else each allowed case that is a regular ELF file, with
/// one record per case; no records when no case qualifies.
pub open spec fn ltp_group_spec(d: Seq<u8>, fs: Ext4Fs, src: Seq<u8>, g: Seq<u8>, name: Seq<u8>) -> Result<
    (Seq<OpView>, Seq<u8>, Seq<usize>, usize),
    StageError,
> {
    match lookup(d, fs, src) {
        Ok(Some(info)) => if is_regular(info) {
            Err(StageError::LtpNotDirectory)
        } else {
            match ltp_cases_fold(d, fs, src, g, pieces(text::ltp_allowlist_spec(), SPACE)) {
                Err(e) => Err(e),
                Ok(st) => if st.2.len() == 0 {
                    Ok((seq![OpView::Dir(g)], Seq::empty(), Seq::empty(), 0))
                } else {
                    Ok((
                        seq![OpView::Dir(g)] + st.0 + seq![OpView::Dir(child(g, text::tmp_word_spec()))],
                        record_bytes(KIND_GROUP, group_payload(g, named_start(name))) + ltp_records(st.2)
                            + record_bytes(KIND_END, named_end(name)),
                        st.1,
                        st.2.len() as usize,
                    ))
                },
            }
        },
        _ => Ok((Seq::empty(), Seq::empty(), Seq::empty(), 0)),
    }
}

/// Appends the LTP records for the cases.
fn push_ltp_records(records: &mut Vec<u8>, cases: &Vec<Vec<u8>>)
    ensures
        final(records)@ == old(records)@ + ltp_records(byte_views(cases@)),
{
    let ghost cv = byte_views(cases@);
    let mut i: usize = 0;
    assert(cv.subrange(0, 0) =~= Seq::<Seq<u8>>::empty());
    assert(records@ =~= old(records)@ + ltp_records(cv.subrange(0, 0)));
    while i < cases.len()
        invariant
            i <= cases@.len(),
            cv == byte_views(cases@),
            records@ == old(records)@ + ltp_records(cv.subrange(0, i as int)),
        decreases cases@.len() - i,
    {
        let ghost pre = cv.subrange(0, i + 1);
        assert(pre.drop_last() =~= cv.subrange(0, i as int));
        assert(pre.last() == cases@[i as int]@);
        push_ltp_record(records, LTP_TIMEOUT_MS, cases[i].as_slice());
        assert(records@ =~= old(records)@ + ltp_records(pre));
        i = i + 1;
    }
    assert(cv.subrange(0, cases@.len() as int) =~= cv);
}

/// Copies the allowed LTP cases of `source_dir` into the group.
fn stage_ltp_cases(disk: &[u8], fs: &Ext4Fs, source_dir: &[u8], group_dir: &[u8])
    -> (r: Result<(Vec<StageOp>, Vec<usize>, Vec<Vec<u8>>), (StageError, Vec<StageOp>)>)
    requires
        fs.wf(),
    ensures
        match ltp_cases_fold(disk@, *fs, source_dir@, group_dir@, pieces(text::ltp_allowlist_spec(), SPACE)) {
            Ok(st) => r matches Ok(v) && op_views(v.0@) == st.0 && v.1@ == st.1 && byte_views(v.2@) == st.2,
            Err(e) => r matches Err(f) && f.0 == e && op_views(f.1@) == ltp_fold_done(disk@, *fs, source_dir@,
                group_dir@, pieces(text::ltp_allowlist_spec(), SPACE)),
        },
{
    let list = text::ltp_allowlist();
    let cases = split_on(list.as_slice(), SPACE);
    let ghost cv = byte_views(cases@);
    let mut files: Vec<StageOp> = Vec::new();
    let mut inspect: Vec<usize> = Vec::new();
    let mut staged: Vec<Vec<u8>> = Vec::new();
    let mut i: usize = 0;
    assert(cv.subrange(0, 0) =~= Seq::<Seq<u8>>::empty());
    while i < cases.len()
        invariant
            fs.wf(),
            i <= cases@.len(),
            cv == byte_views(cases@),
            cv == pieces(text::ltp_allowlist_spec(), SPACE),
            ltp_cases_fold(disk@, *fs, source_dir@, group_dir@, cv.subrange(0, i as int)) matches Ok(st)
                && op_views(files@) == st.0 && inspect@ == st.1 && byte_views(staged@) == st.2,
            files@.len() <= i,
        decreases cases@.len() - i,
    {
        let ghost pre = cv.subrange(0, i + 1);
        assert(pre.drop_last() =~= cv.subrange(0, i as int));
        assert(pre.last() == cases@[i as int]@);
        let path = resolve_path(source_dir, cases[i].as_slice());
        if is_regular_path(disk, fs, path.as_slice()) {
            let elf = match read_file(disk, fs, path.as_slice()) {
                Err(e) => {
                    proof {
                        lemma_ltp_fold_err(disk@, *fs, source_dir@, group_dir@, cv, i + 1);
                        lemma_ltp_fold_done(disk@, *fs, source_dir@, group_dir@, cv, i as int, cv.len() as int);
                        assert(cv.subrange(0, cv.len() as int) =~= cv);
                    }
                    return Err((e, files));
                },
                Ok(v) => v,
            };
            if is_elf(elf.as_slice()) {
                let position = files.len() + 1;
                push_file(&mut files, child_path(group_dir, cases[i].as_slice()), elf.as_slice());
                assert(files@.len() == op_views(files@).len());
                inspect.push(position);
                let ghost before = staged@;
                staged.push(copy_all(cases[i].as_slice()));
                assert(byte_views(staged@) =~= byte_views(before).push(cases@[i as int]@));
            }
        }
        i = i + 1;
    }
    assert(cv.subrange(0, cases@.len() as int) =~= cv);
    Ok((files, inspect, staged))
}

/// Stages an LTP group from a directory of case executables. Where a case cannot be
/// read, the error comes back with the group directory and the cases staged before it,
/// which stay in place.
pub fn install_ltp_group(disk: &[u8], fs: &Ext4Fs, source_dir: &[u8], group_dir: &[u8], marker_name: &[u8])
    -> (r: Result<GroupStage, (StageError, Vec<StageOp>)>)
    requires
        fs.wf(),
    ensures
        partial_stage_result(r) == ltp_group_spec(disk@, *fs, source_dir@, group_dir@, marker_name@),
        r matches Err(f) ==> op_views(f.1@) == ltp_group_done(disk@, *fs, source_dir@, group_dir@),
{
    let info = match lookup_path(disk, fs, source_dir) {
        Ok(Some(info)) => info,
        _ => {
            let r = GroupStage { ops: Vec::new(), records: Vec::new(), inspect: Vec::new(), commands: 0 };
            assert(stage_view(r).0 =~= Seq::<OpView>::empty());
            assert(stage_view(r).1 =~= Seq::<u8>::empty());
            assert(stage_view(r).2 =~= Seq::<usize>::empty());
            return Ok(r);
        },
    };
    if info.mode & crate::ext4::EXT4_MODE_TYPE_MASK == crate::ext4::EXT4_S_IFREG {
        let none: Vec<StageOp> = Vec::new();
        assert(op_views(none@) =~= Seq::<OpView>::empty());
        return Err((StageError::LtpNotDirectory, none));
    }
    let (files, inspect, staged) = match stage_ltp_cases(disk, fs, source_dir, group_dir) {
        Err((e, mut done)) => {
            let ghost dv = op_views(done@);
            let mut written: Vec<StageOp> = Vec::new();
            push_dir(&mut written, copy_all(group_dir));
            assert(op_views(written@) =~= seq![OpView::Dir(group_dir@)]);
            let ghost head = op_views(written@);
            written.append(&mut done);
            assert(op_views(written@) =~= head + dv);
            return Err((e, written));
        },
        Ok(v) => v,
    };
    let mut ops: Vec<StageOp> = Vec::new();
    assert(op_views(ops@) =~= Seq::<OpView>::empty());
    push_dir(&mut ops, copy_all(group_dir));
    assert(op_views(ops@) =~= seq![OpView::Dir(group_dir@)]);
    if staged.len() == 0 {
        let r = GroupStage { ops, records: Vec::new(), inspect: Vec::new(), commands: 0 };
        assert(stage_view(r).1 =~= Seq::<u8>::empty());
        assert(stage_view(r).2 =~= Seq::<usize>::empty());
        return Ok(r);
    }
    let ghost head = op_views(ops@);
    let mut rest = files;
    let ghost fv = op_views(rest@);
    ops.append(&mut rest);
    assert(op_views(ops@) =~= head + fv);
    let tmp = text::tmp_word();
    push_dir(&mut ops, child_path(group_dir, tmp.as_slice()));
    let mut records: Vec<u8> = Vec::new();
    let start = named_marker(text::group_start_prefix(), marker_name);
    let end = named_marker(text::group_end_prefix(), marker_name);
    let payload = group_record_payload(group_dir, start.as_slice());
    push_queue_record(&mut records, KIND_GROUP, payload.as_slice());
    push_ltp_records(&mut records, &staged);
    push_queue_record(&mut records, KIND_END, end.as_slice());
    let commands = staged.len();
    let r = GroupStage { ops, records, inspect, commands };
    proof {
        let spec = ltp_group_spec(disk@, *fs, source_dir@, group_dir@, marker_name@)->Ok_0;
        assert(stage_view(r).0 =~= spec.0);
        assert(stage_view(r).1 =~= spec.1);
    }
    Ok(r)
}

/// How long one lmbench command may run, in milliseconds.
pub const LMBENCH_TIMEOUT_MS: usize = 10000;

/// The argument lists of the lmbench commands the harness runs.
pub open spec fn lmbench_args_spec() -> Seq<Seq<Seq<u8>>> {
    let lines = pieces(text::lmbench_commands_spec(), crate::staging::NEWLINE);
    Seq::new(lines.len(), |i: int| pieces(lines[i], SPACE))
}

/// The records that run the lmbench commands, in order.
pub open spec fn lmbench_records(cmds: Seq<Seq<Seq<u8>>>) -> Seq<u8>
    decreases cmds.len(),
{
    if cmds.len() == 0 {
        Seq::empty()
    } else {
        lmbench_records(cmds.drop_last()) + record_bytes(
            KIND_ARGV,
            argv_payload(LMBENCH_TIMEOUT_MS as nat, text::lmbench_all_spec(), cmds.last()),
        )
    }
}

/// Appends the records that run the lmbench commands; gives their number.
fn push_lmbench_records(records: &mut Vec<u8>) -> (r: usize)
    ensures
        final(records)@ == old(records)@ + lmbench_records(lmbench_args_spec()),
        r == lmbench_args_spec().len(),
{
    let text_lines = text::lmbench_commands();
    let lines = split_on(text_lines.as_slice(), crate::staging::NEWLINE);
    let ghost lv = byte_views(lines@);
    let ghost cmds = lmbench_args_spec();
    let exe = text::lmbench_all();
    let mut i: usize = 0;
    assert(cmds.subrange(0, 0) =~= Seq::<Seq<Seq<u8>>>::empty());
    assert(records@ =~= old(records)@ + lmbench_records(cmds.subrange(0, 0)));
    while i < lines.len()
        invariant
            i <= lines@.len(),
            lv == byte_views(lines@),
            cmds == lmbench_args_spec(),
            lv == pieces(text::lmbench_commands_spec(), crate::staging::NEWLINE),
            cmds.len() == lv.len(),
            exe@ == text::lmbench_all_spec(),
            records@ == old(records)@ + lmbench_records(cmds.subrange(0, i as int)),
        decreases lines@.len() - i,
    {
        let args = split_on(lines[i].as_slice(), SPACE);
        let ghost pre = cmds.subrange(0, i + 1);
        assert(pre.drop_last() =~= cmds.subrange(0, i as int));
        assert(lv[i as int] == lines@[i as int]@);
        assert(pre.last() == byte_views(args@));
        push_argv_record(records, LMBENCH_TIMEOUT_MS, exe.as_slice(), args.as_slice());
        assert(records@ =~= old(records)@ + lmbench_records(pre));
        i = i + 1;
    }
    assert(cmds.subrange(0, lines@.len() as int) =~= cmds);
    lines.len()
}

/// An optional resource of an lmbench group: a copy of `src/name` into the
/// group when it is a regular file, and whether it is an ELF file.
pub open spec fn optional_resource_spec(d: Seq<u8>, fs: Ext4Fs, src: Seq<u8>, g: Seq<u8>, name: Seq<u8>) -> Result<
    (Seq<OpView>, bool),
    StageError,
> {
    let path = resolve_spec(src, name);
    if !regular_at(d, fs, path) {
        Ok((Seq::empty(), false))
    } else {
        match read_file_spec(d, fs, path) {
            Err(e) => Err(e),
            Ok(v) => Ok((seq![OpView::File(child(g, name), v)], elf_magic(v))),
        }
    }
}

/// Appends a copy of an optional resource into the group; gives whether it
/// was copied and is an ELF file.
fn install_optional_lmbench_resource(
    disk: &[u8],
    fs: &Ext4Fs,
    source_dir: &[u8],
    group_dir: &[u8],
    name: &[u8],
    ops: &mut Vec<StageOp>,
) -> (r: Result<bool, StageError>)
    requires
        fs.wf(),
    ensures
        match optional_resource_spec(disk@, *fs, source_dir@, group_dir@, name@) {
            Ok(v) => r == Ok::<bool, StageError>(v.1) && op_views(final(ops)@) == op_views(old(ops)@) + v.0,
            Err(e) => r == Err::<bool, StageError>(e) && final(ops)@ == old(ops)@,
        },
{
    let path = resolve_path(source_dir, name);
    if !is_regular_path(disk, fs, path.as_slice()) {
        assert(op_views(ops@) =~= op_views(old(ops)@) + Seq::<OpView>::empty());
        return Ok(false);
    }
    let data = match read_file(disk, fs, path.as_slice()) {
        Err(e) => return Err(e),
        Ok(v) => v,
    };
    push_file(ops, child_path(group_dir, name), data.as_slice());
    assert(op_views(ops@) =~= op_views(old(ops)@) + seq![OpView::File(child(group_dir@, name@), data@)]);
    Ok(is_elf(data.as_slice()))
}

/// The `lat_sig` of an lmbench group: the disk's own when it is a regular
/// file (and whether it is an ELF file), else `lmbench_all`, each in the group
/// and at the root.
pub open spec fn lat_sig_spec(d: Seq<u8>, fs: Ext4Fs, src: Seq<u8>, g: Seq<u8>, lm: Seq<u8>) -> Result<
    (Seq<OpView>, bool),
    StageError,
> {
    let path = resolve_spec(src, text::lat_sig_spec());
    if regular_at(d, fs, path) {
        match read_file_spec(d, fs, path) {
            Err(e) => Err(e),
            Ok(v) => Ok((
                seq![OpView::File(child(g, text::lat_sig_spec()), v), OpView::File(text::lat_sig_spec(), v)],
                elf_magic(v),
            )),
        }
    } else {
        Ok((
            seq![OpView::File(child(g, text::lat_sig_spec()), lm), OpView::File(text::lat_sig_spec(), lm)],
            false,
        ))
    }
}

/// Appends the `lat_sig` of an lmbench group; gives whether it is an ELF file of its own.
fn install_lat_sig(
    disk: &[u8],
    fs: &Ext4Fs,
    source_dir: &[u8],
    group_dir: &[u8],
    lmbench: &[u8],
    ops: &mut Vec<StageOp>,
) -> (r: Result<bool, StageError>)
    requires
        fs.wf(),
    ensures
        match lat_sig_spec(disk@, *fs, source_dir@, group_dir@, lmbench@) {
            Ok(v) => r == Ok::<bool, StageError>(v.1) && op_views(final(ops)@) == op_views(old(ops)@) + v.0,
            Err(e) => r == Err::<bool, StageError>(e) && final(ops)@ == old(ops)@,
        },
{
    let name = text::lat_sig();
    let path = resolve_path(source_dir, name.as_slice());
    if is_regular_path(disk, fs, path.as_slice()) {
        let data = match read_file(disk, fs, path.as_slice()) {
            Err(e) => return Err(e),
            Ok(v) => v,
        };
        push_file(ops, child_path(group_dir, name.as_slice()), data.as_slice());
        push_file(ops, text::lat_sig(), data.as_slice());
        assert(op_views(ops@) =~= op_views(old(ops)@) + seq![
            OpView::File(child(group_dir@, name@), data@),
            OpView::File(name@, data@),
        ]);
        Ok(is_elf(data.as_slice()))
    } else {
        push_file(ops, child_path(group_dir, name.as_slice()), lmbench);
        push_file(ops, text::lat_sig(), lmbench);
        assert(op_views(ops@) =~= op_views(old(ops)@) + seq![
            OpView::File(child(group_dir@, name@), lmbench@),
            OpView::File(name@, lmbench@),
        ]);
        Ok(false)
    }
}

/// The scratch files of an lmbench run, and `tmp/hello` when the disk has it.
pub open spec fn lmbench_tail_spec(d: Seq<u8>, fs: Ext4Fs, src: Seq<u8>) -> Seq<OpView> {
    seq![
        OpView::Dir(text::var_tmp_spec()),
        OpView::Dir(text::tmp_word_spec()),
        OpView::File(text::var_tmp_lmbench_spec(), Seq::empty()),
        OpView::File(text::var_tmp_xxx_spec(), Seq::empty()),
    ] + match read_file_spec(d, fs, resolve_spec(src, text::hello_word_spec())) {
        Ok(h) => seq![OpView::File(text::tmp_hello_spec(), h)],
        Err(_) => Seq::empty(),
    }
}

/// Appends the scratch files of an lmbench run.
fn push_lmbench_tail(disk: &[u8], fs: &Ext4Fs, source_dir: &[u8], ops: &mut Vec<StageOp>)
    requires
        fs.wf(),
    ensures
        op_views(final(ops)@) == op_views(old(ops)@) + lmbench_tail_spec(disk@, *fs, source_dir@),
{
    let empty: Vec<u8> = Vec::new();
    push_dir(ops, text::var_tmp());
    push_dir(ops, text::tmp_word());
    push_file(ops, text::var_tmp_lmbench(), empty.as_slice());
    push_file(ops, text::var_tmp_xxx(), empty.as_slice());
    let hello_name = text::hello_word();
    let hello_path = resolve_path(source_dir, hello_name.as_slice());
    match read_file(disk, fs, hello_path.as_slice()) {
        Ok(h) => {
            push_file(ops, text::tmp_hello(), h.as_slice());
        },
        Err(_) => {},
    }
    assert(op_views(ops@) =~= op_views(old(ops)@) + lmbench_tail_spec(disk@, *fs, source_dir@));
}

/// The positions of an lmbench group's executables whose interpreters count:
/// `lmbench_all` in the group, the optional resource when it is an ELF file,
/// and `lat_sig` when the disk has its own ELF one.
pub open spec fn lmbench_inspect(res_ops: Seq<OpView>, res_elf: bool, sig_elf: bool) -> Seq<usize> {
    seq![2usize] + (if res_elf { seq![4usize] } else { Seq::empty() }) + (if sig_elf {
        seq![(4 + res_ops.len()) as usize]
    } else {
        Seq::empty()
    })
}

/// Staging the lmbench group of `script_path` as `g`, with markers named after
/// `name` when the script has none: `lmbench_all` (in the group and at the
/// root), the script, `hello` and `lat_sig`, the scratch files, and one record
/// per lmbench command.
pub open spec fn lmbench_group_spec(d: Seq<u8>, fs: Ext4Fs, script_path: Seq<u8>, g: Seq<u8>, name: Seq<u8>) -> Result<
    (Seq<OpView>, Seq<u8>, Seq<usize>, usize),
    StageError,
> {
    let src = parent_spec(script_path);
    let lm_paths = resolve_all_spec(src, pieces(text::lmbench_names_spec(), SPACE));
    match first_regular(d, fs, lm_paths) {
        None => Err(StageError::ExecutableMissing),
        Some(k) => match read_file_spec(d, fs, lm_paths[k]) {
            Err(e) => Err(e),
            Ok(lm) => if !elf_magic(lm) {
                Err(StageError::NotElf(ElfRole::Lmbench))
            } else {
                match read_file_spec(d, fs, script_path) {
                    Err(e) => Err(e),
                    Ok(script) => match optional_resource_spec(d, fs, src, g, text::hello_word_spec()) {
                        Err(e) => Err(e),
                        Ok(res) => match lat_sig_spec(d, fs, src, g, lm) {
                            Err(e) => Err(e),
                            Ok(sig) => {
                                let markers = group_markers_spec(script, name);
                                Ok((
                                    seq![
                                        OpView::Dir(g),
                                        OpView::File(child(g, text::lmbench_script_spec()), script),
                                        OpView::File(child(g, text::lmbench_all_spec()), lm),
                                        OpView::File(text::lmbench_all_spec(), lm),
                                    ] + res.0 + sig.0 + lmbench_tail_spec(d, fs, src),
                                    record_bytes(KIND_GROUP, group_payload(g, markers.0))
                                        + lmbench_records(lmbench_args_spec())
                                        + record_bytes(KIND_END, markers.1),
                                    lmbench_inspect(res.0, res.1, sig.1),
                                    lmbench_args_spec().len() as usize,
                                ))
                            },
                        },
                    },
                }
            },
        },
    }
}

/// What staging the lmbench group writes before a step fails: nothing until its
/// executable and script are read, then the group directory, the script and
/// `lmbench_all` (in the group and at the root), and the `hello` resource once read.
pub open spec fn lmbench_group_done(d: Seq<u8>, fs: Ext4Fs, script_path: Seq<u8>, g: Seq<u8>) -> Seq<OpView> {
    let src = parent_spec(script_path);
    let lm_paths = resolve_all_spec(src, pieces(text::lmbench_names_spec(), SPACE));
    match first_regular(d, fs, lm_paths) {
        None => Seq::empty(),
        Some(k) => match read_file_spec(d, fs, lm_paths[k]) {
            Err(_) => Seq::empty(),
            Ok(lm) => if !elf_magic(lm) {
                Seq::empty()
            } else {
                match read_file_spec(d, fs, script_path) {
                    Err(_) => Seq::empty(),
                    Ok(script) => {
                        let head = seq![
                            OpView::Dir(g),
                            OpView::File(child(g, text::lmbench_script_spec()), script),
                            OpView::File(child(g, text::lmbench_all_spec()), lm),
                            OpView::File(text::lmbench_all_spec(), lm),
                        ];
                        match optional_resource_spec(d, fs, src, g, text::hello_word_spec()) {
                            Err(_) => head,
                            Ok(res) => head + res.0,
                        }
                    },
                }
            },
        },
    }
}

/// The meaning of a group staging result that keeps, on failure, what was written
/// before it.
pub open spec fn partial_stage_result(r: Result<GroupStage, (StageError, Vec<StageOp>)>) -> Result<
    (Seq<OpView>, Seq<u8>, Seq<usize>, usize),
    StageError,
> {
    match r {
        Ok(s) => Ok(stage_view(s)),
        Err(f) => Err(f.0),
    }
}

/// Stages an lmbench group. Where a step fails after the group's first files are
/// written, the error comes back with those files, which stay in place.
#[verifier::rlimit(30)]
pub fn install_lmbench_group(disk: &[u8], fs: &Ext4Fs, script_path: &[u8], group_dir: &[u8], marker_name: &[u8])
    -> (r: Result<GroupStage, (StageError, Vec<StageOp>)>)
    requires
        fs.wf(),
    ensures
        partial_stage_result(r) == lmbench_group_spec(disk@, *fs, script_path@, group_dir@, marker_name@),
        r matches Err(f) ==> op_views(f.1@) == lmbench_group_done(disk@, *fs, script_path@, group_dir@),
{
    let none: Vec<StageOp> = Vec::new();
    assert(op_views(none@) =~= Seq::<OpView>::empty());
    let source_dir = parent_of(script_path);
    let lm_names = text::lmbench_names();
    let lm_paths = candidates(source_dir.as_slice(), lm_names.as_slice());
    let lmbench_path = match find_first_regular_path(disk, fs, &lm_paths) {
        Err(e) => return Err((e, none)),
        Ok(p) => p,
    };
    let lmbench = match read_file(disk, fs, lmbench_path.as_slice()) {
        Err(e) => return Err((e, none)),
        Ok(v) => v,
    };
    if !is_elf(lmbench.as_slice()) {
        return Err((StageError::NotElf(ElfRole::Lmbench), none));
    }
    let script = match read_file(disk, fs, script_path) {
        Err(e) => return Err((e, none)),
        Ok(v) => v,
    };
    let (start_marker, end_marker) = group_markers(script.as_slice(), marker_name);
    let mut ops: Vec<StageOp> = Vec::new();
    let script_name = text::lmbench_script();
    let lm_name = text::lmbench_all();
    push_dir(&mut ops, copy_all(group_dir));
    push_file(&mut ops, child_path(group_dir, script_name.as_slice()), script.as_slice());
    push_file(&mut ops, child_path(group_dir, lm_name.as_slice()), lmbench.as_slice());
    push_file(&mut ops, text::lmbench_all(), lmbench.as_slice());
    let ghost head = op_views(ops@);
    assert(op_views(ops@).len() == 4);
    let hello = text::hello_word();
    proof {
        assert(head =~= seq![
            OpView::Dir(group_dir@),
            OpView::File(child(group_dir@, text::lmbench_script_spec()), script@),
            OpView::File(child(group_dir@, text::lmbench_all_spec()), lmbench@),
            OpView::File(text::lmbench_all_spec(), lmbench@),
        ]);
    }
    let res_elf = match install_optional_lmbench_resource(disk, fs, source_dir.as_slice(), group_dir,
        hello.as_slice(), &mut ops) {
        Err(e) => return Err((e, ops)),
        Ok(b) => b,
    };
    assert(ops@.len() == op_views(ops@).len());
    assert(op_views(ops@).len() >= head.len());
    assert(head.len() == 4);
    let res_len = ops.len() - 4;
    let ghost after_res = op_views(ops@);
    let sig_elf = match install_lat_sig(disk, fs, source_dir.as_slice(), group_dir, lmbench.as_slice(), &mut ops) {
        Err(e) => return Err((e, ops)),
        Ok(b) => b,
    };
    let ghost after_sig = op_views(ops@);
    push_lmbench_tail(disk, fs, source_dir.as_slice(), &mut ops);
    let mut inspect: Vec<usize> = Vec::new();
    inspect.push(2);
    if res_elf {
        inspect.push(4);
    }
    if sig_elf {
        inspect.push(4 + res_len);
    }
    let mut records: Vec<u8> = Vec::new();
    let payload = group_record_payload(group_dir, start_marker.as_slice());
    push_queue_record(&mut records, KIND_GROUP, payload.as_slice());
    let commands = push_lmbench_records(&mut records);
    push_queue_record(&mut records, KIND_END, end_marker.as_slice());
    let r = GroupStage { ops, records, inspect, commands };
    proof {
        let spec = lmbench_group_spec(disk@, *fs, script_path@, group_dir@, marker_name@)->Ok_0;
        let src = source_dir@;
        let res = optional_resource_spec(disk@, *fs, src, group_dir@, text::hello_word_spec())->Ok_0;
        assert(head.len() == 4);
        assert(res_len == res.0.len());
        assert(stage_view(r).0 =~= spec.0);
        assert(stage_view(r).1 =~= spec.1);
        assert(stage_view(r).2 =~= spec.2);
    }
    Ok(r)
}

// ---------------------------------------------------------------- basic groups

/// How deeply basic scripts may call each other.
pub const MAX_SCRIPT_DEPTH: usize = 4;
/// At most this many commands of a `tests="..."` list are staged.
pub const MAX_BASIC_COMMANDS: usize = 32;
/// `#`.
pub const HASH_BYTE: u8 = 35;
/// `$`.
pub const DOLLAR: u8 = 36;

/// The commands of a `tests="..."` list resolved against `cwd`; each must be a
/// regular file of the disk.
pub open spec fn tests_commands(d: Seq<u8>, fs: Ext4Fs, cwd: Seq<u8>, words: Seq<Seq<u8>>) -> Result<
    Seq<Seq<u8>>,
    StageError,
>
    decreases words.len(),
{
    if words.len() == 0 {
        Ok(Seq::empty())
    } else {
        match tests_commands(d, fs, cwd, words.drop_last()) {
            Err(e) => Err(e),
            Ok(prev) => {
                let exe = resolve_spec(cwd, words.last());
                match lookup(d, fs, exe) {
                    Err(e) => Err(StageError::Disk(e)),
                    Ok(None) => Err(StageError::CommandMissing),
                    Ok(Some(info)) => if !is_regular(info) {
                        Err(StageError::CommandNotRegular)
                    } else {
                        Ok(prev.push(exe))
                    },
                }
            },
        }
    }
}

/// At most the first `MAX_BASIC_COMMANDS` words.
pub open spec fn take_commands(words: Seq<Seq<u8>>) -> Seq<Seq<u8>> {
    if words.len() <= MAX_BASIC_COMMANDS {
        words
    } else {
        words.subrange(0, MAX_BASIC_COMMANDS as int)
    }
}

/// Whether a trimmed script line holds no command: empty, a comment, or part
/// of a `for` loop.
pub open spec fn skip_line(line: Seq<u8>) -> bool {
    ||| line.len() == 0
    ||| line[0] == HASH_BYTE
    ||| line == text::do_word_spec()
    ||| line == text::done_word_spec()
    ||| has_prefix(line, text::for_prefix_spec())
}

/// Whether a command word is not a test: `echo`, busybox, or a variable.
pub open spec fn skip_exe(exe: Seq<u8>) -> bool {
    ||| exe == text::echo_word_spec()
    ||| has_suffix(exe, text::slash_busybox_spec())
    ||| exe == text::busybox_word_spec()
    ||| (exe.len() > 0 && exe[0] == DOLLAR)
}

/// The directory a `cd <path>` line changes to.
pub open spec fn cd_target(cwd: Seq<u8>, line: Seq<u8>) -> Seq<u8> {
    resolve_spec(cwd, trim_quotes_spec(trim_ws(line.subrange(3, line.len() as int))))
}

/// The commands of a basic script's lines from line `i`, standing in `cwd`:
/// the first runnable command, or what a nested `.sh` script holds.
pub open spec fn scan_lines(d: Seq<u8>, fs: Ext4Fs, lines: Seq<Seq<u8>>, i: int, cwd: Seq<u8>, depth: int) -> Result<
    Seq<Seq<u8>>,
    StageError,
>
    decreases 4 - depth, 0int, lines.len() - i,
{
    if depth >= 4 || depth < 0 || i < 0 || i >= lines.len() {
        Err(StageError::NoCommand)
    } else {
        let line = trim_ws(lines[i]);
        if skip_line(line) {
            scan_lines(d, fs, lines, i + 1, cwd, depth)
        } else if has_prefix(line, text::cd_prefix_spec()) {
            scan_lines(d, fs, lines, i + 1, cd_target(cwd, line), depth)
        } else {
            let argv = shell_words(line);
            if argv.len() == 0 || skip_exe(argv[0]) {
                scan_lines(d, fs, lines, i + 1, cwd, depth)
            } else {
                let resolved = resolve_spec(cwd, argv[0]);
                if has_suffix(argv[0], text::sh_suffix_spec()) {
                    find_commands_spec(d, fs, resolved, depth + 1)
                } else if regular_at(d, fs, resolved) {
                    Ok(seq![resolved])
                } else {
                    scan_lines(d, fs, lines, i + 1, cwd, depth)
                }
            }
        }
    }
}

/// The commands a basic script runs: its `tests="..."` list when that names
/// any, else the first runnable command of its lines (following nested
/// scripts at most `MAX_SCRIPT_DEPTH` deep).
pub open spec fn find_commands_spec(d: Seq<u8>, fs: Ext4Fs, path: Seq<u8>, depth: int) -> Result<
    Seq<Seq<u8>>,
    StageError,
>
    decreases 4 - depth, 1int, 0int,
{
    if depth >= 4 || depth < 0 {
        Err(StageError::ScriptDepth)
    } else {
        match read_text_spec(d, fs, path) {
            Err(e) => Err(e),
            Ok(script) => {
                let cwd = parent_spec(path);
                let lines = pieces(script, crate::staging::NEWLINE);
                match quoted_assignment_spec(script, text::tests_word_spec()) {
                    Some(tests) => match tests_commands(d, fs, cwd, take_commands(ws_words(tests))) {
                        Err(e) => Err(e),
                        Ok(cmds) => if cmds.len() > 0 {
                            Ok(cmds)
                        } else {
                            scan_lines(d, fs, lines, 0, cwd, depth)
                        },
                    },
                    None => scan_lines(d, fs, lines, 0, cwd, depth),
                }
            },
        }
    }
}

/// Resolves the commands of a `tests="..."` list.
fn resolve_test_commands(disk: &[u8], fs: &Ext4Fs, cwd: &[u8], tests: &[u8]) -> (r: Result<Vec<Vec<u8>>, StageError>)
    requires
        fs.wf(),
    ensures
        match tests_commands(disk@, *fs, cwd@, take_commands(ws_words(tests@))) {
            Ok(v) => r matches Ok(c) && byte_views(c@) == v,
            Err(e) => r matches Err(e2) && e2 == e,
        },
{
    let words = split_whitespace(tests);
    let ghost wv = take_commands(byte_views(words@));
    let n = if words.len() <= MAX_BASIC_COMMANDS { words.len() } else { MAX_BASIC_COMMANDS };
    let mut commands: Vec<Vec<u8>> = Vec::new();
    let mut i: usize = 0;
    assert(wv.subrange(0, 0) =~= Seq::<Seq<u8>>::empty());
    assert(byte_views(commands@) =~= Seq::<Seq<u8>>::empty());
    while i < n
        invariant
            fs.wf(),
            i <= n,
            n == wv.len(),
            n <= words@.len(),
            wv == take_commands(byte_views(words@)),
            byte_views(words@) == ws_words(tests@),
            tests_commands(disk@, *fs, cwd@, wv.subrange(0, i as int)) matches Ok(v) && byte_views(commands@) == v,
        decreases n - i,
    {
        let ghost pre = wv.subrange(0, i + 1);
        assert(pre.drop_last() =~= wv.subrange(0, i as int));
        assert(pre.last() == words@[i as int]@);
        let exe = resolve_path(cwd, words[i].as_slice());
        let looked = lookup_path(disk, fs, exe.as_slice());
        assert(looked == lookup(disk@, *fs, resolve_spec(cwd@, pre.last())));
        let info = match looked {
            Err(e) => {
                proof {
                    assert(tests_commands(disk@, *fs, cwd@, pre) == Err::<Seq<Seq<u8>>, StageError>(StageError::Disk(e)));
                    lemma_tests_commands_err(disk@, *fs, cwd@, wv, i + 1);
                }
                return Err(StageError::Disk(e));
            },
            Ok(None) => {
                proof {
                    assert(tests_commands(disk@, *fs, cwd@, pre) == Err::<Seq<Seq<u8>>, StageError>(StageError::CommandMissing));
                    lemma_tests_commands_err(disk@, *fs, cwd@, wv, i + 1);
                }
                return Err(StageError::CommandMissing);
            },
            Ok(Some(info)) => info,
        };
        if info.mode & crate::ext4::EXT4_MODE_TYPE_MASK != crate::ext4::EXT4_S_IFREG {
            proof {
                assert(tests_commands(disk@, *fs, cwd@, pre) == Err::<Seq<Seq<u8>>, StageError>(StageError::CommandNotRegular));
                lemma_tests_commands_err(disk@, *fs, cwd@, wv, i + 1);
            }
            return Err(StageError::CommandNotRegular);
        }
        let ghost before = commands@;
        let ghost ev = exe@;
        commands.push(exe);
        assert(byte_views(commands@) =~= byte_views(before).push(ev));
        i = i + 1;
    }
    assert(wv.subrange(0, n as int) =~= wv);
    Ok(commands)
}

/// An error for a prefix of the words is the error for all of them.
proof fn lemma_tests_commands_err(d: Seq<u8>, fs: Ext4Fs, cwd: Seq<u8>, words: Seq<Seq<u8>>, n: int)
    requires
        0 < n <= words.len(),
        tests_commands(d, fs, cwd, words.subrange(0, n)) is Err,
    ensures
        tests_commands(d, fs, cwd, words) == tests_commands(d, fs, cwd, words.subrange(0, n)),
    decreases words.len() - n,
{
    if n < words.len() {
        let next = words.subrange(0, n + 1);
        assert(next.drop_last() =~= words.subrange(0, n));
        lemma_tests_commands_err(d, fs, cwd, words, n + 1);
    } else {
        assert(words.subrange(0, n) =~= words);
    }
}

/// Whether a trimmed script line holds no command.
fn is_skip_line(line: &[u8]) -> (r: bool)
    ensures
        r == skip_line(line@),
{
    let do_w = text::do_word();
    let done_w = text::done_word();
    let for_p = text::for_prefix();
    line.len() == 0 || line[0] == HASH_BYTE || bytes_eq(line, do_w.as_slice()) || bytes_eq(line, done_w.as_slice())
        || starts_with(line, for_p.as_slice())
}

/// Whether a command word is not a test.
fn is_skip_exe(exe: &[u8]) -> (r: bool)
    ensures
        r == skip_exe(exe@),
{
    let echo = text::echo_word();
    let sb = text::slash_busybox();
    let bb = text::busybox_word();
    bytes_eq(exe, echo.as_slice()) || ends_with(exe, sb.as_slice()) || bytes_eq(exe, bb.as_slice()) || (exe.len()
        > 0 && exe[0] == DOLLAR)
}

/// The commands a basic script runs (see `find_commands_spec`).
pub fn find_commands(disk: &[u8], fs: &Ext4Fs, script_path: &[u8], depth: usize) -> (r: Result<Vec<Vec<u8>>, StageError>)
    requires
        fs.wf(),
    ensures
        match find_commands_spec(disk@, *fs, script_path@, depth as int) {
            Ok(v) => r matches Ok(c) && byte_views(c@) == v,
            Err(e) => r matches Err(e2) && e2 == e,
        },
    decreases MAX_SCRIPT_DEPTH - depth,
{
    if depth >= MAX_SCRIPT_DEPTH {
        return Err(StageError::ScriptDepth);
    }
    let script = match read_text_file(disk, fs, script_path) {
        Err(e) => return Err(e),
        Ok(v) => v,
    };
    let mut cwd = parent_of(script_path);
    let tests_name = text::tests_word();
    match quoted_assignment(script.as_slice(), tests_name.as_slice()) {
        Some(tests) => {
            let commands = match resolve_test_commands(disk, fs, cwd.as_slice(), tests.as_slice()) {
                Err(e) => return Err(e),
                Ok(c) => c,
            };
            if commands.len() > 0 {
                return Ok(commands);
            }
        },
        None => {},
    }
    let lines = split_on(script.as_slice(), crate::staging::NEWLINE);
    let ghost lv = byte_views(lines@);
    let ghost cwd0 = cwd@;
    assert(find_commands_spec(disk@, *fs, script_path@, depth as int) == scan_lines(disk@, *fs, lv, 0, cwd0, depth as int));
    let cd_p = text::cd_prefix();
    let sh = text::sh_suffix();
    let mut i: usize = 0;
    while i < lines.len()
        invariant
            fs.wf(),
            depth < MAX_SCRIPT_DEPTH,
            i <= lines@.len(),
            lv == byte_views(lines@),
            lv == pieces(script@, crate::staging::NEWLINE),
            cd_p@ == text::cd_prefix_spec(),
            sh@ == text::sh_suffix_spec(),
            find_commands_spec(disk@, *fs, script_path@, depth as int) == scan_lines(disk@, *fs, lv, i as int, cwd@, depth as int),
        decreases lines@.len() - i,
    {
        assert(lv[i as int] == lines@[i as int]@);
        let line = trim_whitespace(lines[i].as_slice());
        if is_skip_line(line.as_slice()) {
            i = i + 1;
            continue;
        }
        if starts_with(line.as_slice(), cd_p.as_slice()) {
            let rest = copy_range(line.as_slice(), 3, line.len());
            let trimmed = trim_whitespace(rest.as_slice());
            let target = trim_shell_quotes(trimmed.as_slice());
            cwd = resolve_path(cwd.as_slice(), target.as_slice());
            i = i + 1;
            continue;
        }
        let argv = split_shell_words(line.as_slice());
        if argv.len() == 0 {
            i = i + 1;
            continue;
        }
        assert(byte_views(argv@)[0] == argv@[0]@);
        if is_skip_exe(argv[0].as_slice()) {
            i = i + 1;
            continue;
        }
        let resolved = resolve_path(cwd.as_slice(), argv[0].as_slice());
        if ends_with(argv[0].as_slice(), sh.as_slice()) {
            return find_commands(disk, fs, resolved.as_slice(), depth + 1);
        }
        if is_regular_path(disk, fs, resolved.as_slice()) {
            let mut out: Vec<Vec<u8>> = Vec::new();
            let ghost rv = resolved@;
            out.push(resolved);
            assert(byte_views(out@) =~= seq![rv]);
            return Ok(out);
        }
        i = i + 1;
    }
    Err(StageError::NoCommand)
}

/// The first command a basic script runs, and the arguments it runs it with.
pub struct BasicCommand {
    /// The disk path of the executable.
    pub executable_path: Vec<u8>,
    pub argv: Vec<Vec<u8>>,
}

/// A test name as a command argument: as it is where it starts with `./`, else with
/// `./` before it.
pub open spec fn command_arg(t: Seq<u8>) -> Seq<u8> {
    if has_prefix(t, text::dot_slash_spec()) {
        t
    } else {
        text::dot_slash_spec() + t
    }
}

/// The first command of a basic script's lines from line `i`, standing in `cwd`, with
/// the words of its line: the first runnable command, or what a nested `.sh` script
/// starts with.
pub open spec fn first_in_lines(d: Seq<u8>, fs: Ext4Fs, lines: Seq<Seq<u8>>, i: int, cwd: Seq<u8>, depth: int)
    -> Result<(Seq<u8>, Seq<Seq<u8>>), StageError>
    decreases 4 - depth, 0int, lines.len() - i,
{
    if depth >= 4 || depth < 0 || i < 0 || i >= lines.len() {
        Err(StageError::NoCommand)
    } else {
        let line = trim_ws(lines[i]);
        if skip_line(line) {
            first_in_lines(d, fs, lines, i + 1, cwd, depth)
        } else if has_prefix(line, text::cd_prefix_spec()) {
            first_in_lines(d, fs, lines, i + 1, cd_target(cwd, line), depth)
        } else {
            let argv = shell_words(line);
            if argv.len() == 0 || skip_exe(argv[0]) {
                first_in_lines(d, fs, lines, i + 1, cwd, depth)
            } else {
                let resolved = resolve_spec(cwd, argv[0]);
                if has_suffix(argv[0], text::sh_suffix_spec()) {
                    first_command_spec(d, fs, resolved, depth + 1)
                } else if regular_at(d, fs, resolved) {
                    Ok((resolved, argv))
                } else {
                    first_in_lines(d, fs, lines, i + 1, cwd, depth)
                }
            }
        }
    }
}

/// The first command a basic script runs: the first word of its `tests="..."` list,
/// resolved, run as `./name`, when that list has a word; else the first runnable command
/// of its lines with the words of its line (following nested scripts at most
/// `MAX_SCRIPT_DEPTH` deep).
pub open spec fn first_command_spec(d: Seq<u8>, fs: Ext4Fs, path: Seq<u8>, depth: int) -> Result<
    (Seq<u8>, Seq<Seq<u8>>),
    StageError,
>
    decreases 4 - depth, 1int, 0int,
{
    if depth >= 4 || depth < 0 {
        Err(StageError::ScriptDepth)
    } else {
        match read_text_spec(d, fs, path) {
            Err(e) => Err(e),
            Ok(script) => {
                let cwd = parent_spec(path);
                let lines = pieces(script, crate::staging::NEWLINE);
                match quoted_assignment_spec(script, text::tests_word_spec()) {
                    Some(tests) => if ws_words(tests).len() > 0 {
                        Ok((resolve_spec(cwd, ws_words(tests)[0]), seq![command_arg(ws_words(tests)[0])]))
                    } else {
                        first_in_lines(d, fs, lines, 0, cwd, depth)
                    },
                    None => first_in_lines(d, fs, lines, 0, cwd, depth),
                }
            },
        }
    }
}

/// A test name as a command argument (see `command_arg`).
fn format_command_arg(t: &[u8]) -> (r: Vec<u8>)
    ensures
        r@ == command_arg(t@),
{
    let ds = text::dot_slash();
    if starts_with(t, ds.as_slice()) {
        copy_all(t)
    } else {
        let mut r = copy_all(ds.as_slice());
        extend_from(&mut r, t);
        r
    }
}

/// The first command a basic script runs (see `first_command_spec`).
pub fn find_first_command(disk: &[u8], fs: &Ext4Fs, script_path: &[u8], depth: usize) -> (r: Result<
    BasicCommand,
    StageError,
>)
    requires
        fs.wf(),
    ensures
        match first_command_spec(disk@, *fs, script_path@, depth as int) {
            Ok(v) => r matches Ok(c) && c.executable_path@ == v.0 && byte_views(c.argv@) == v.1,
            Err(e) => r matches Err(e2) && e2 == e,
        },
    decreases MAX_SCRIPT_DEPTH - depth,
{
    if depth >= MAX_SCRIPT_DEPTH {
        return Err(StageError::ScriptDepth);
    }
    let script = match read_text_file(disk, fs, script_path) {
        Err(e) => return Err(e),
        Ok(v) => v,
    };
    let mut cwd = parent_of(script_path);
    let tests_name = text::tests_word();
    match quoted_assignment(script.as_slice(), tests_name.as_slice()) {
        Some(tests) => {
            let words = split_whitespace(tests.as_slice());
            if words.len() > 0 {
                assert(byte_views(words@)[0] == words@[0]@);
                let executable_path = resolve_path(cwd.as_slice(), words[0].as_slice());
                let mut argv: Vec<Vec<u8>> = Vec::new();
                let arg = format_command_arg(words[0].as_slice());
                let ghost av = arg@;
                argv.push(arg);
                assert(byte_views(argv@) =~= seq![av]);
                return Ok(BasicCommand { executable_path, argv });
            }
        },
        None => {},
    }
    let lines = split_on(script.as_slice(), crate::staging::NEWLINE);
    let ghost lv = byte_views(lines@);
    assert(first_command_spec(disk@, *fs, script_path@, depth as int) == first_in_lines(disk@, *fs, lv, 0, cwd@,
        depth as int));
    let cd_p = text::cd_prefix();
    let sh = text::sh_suffix();
    let mut i: usize = 0;
    while i < lines.len()
        invariant
            fs.wf(),
            depth < MAX_SCRIPT_DEPTH,
            i <= lines@.len(),
            lv == byte_views(lines@),
            lv == pieces(script@, crate::staging::NEWLINE),
            cd_p@ == text::cd_prefix_spec(),
            sh@ == text::sh_suffix_spec(),
            first_command_spec(disk@, *fs, script_path@, depth as int) == first_in_lines(disk@, *fs, lv, i as int, cwd@,
                depth as int),
        decreases lines@.len() - i,
    {
        assert(lv[i as int] == lines@[i as int]@);
        let line = trim_whitespace(lines[i].as_slice());
        if is_skip_line(line.as_slice()) {
            i = i + 1;
            continue;
        }
        if starts_with(line.as_slice(), cd_p.as_slice()) {
            let rest = copy_range(line.as_slice(), 3, line.len());
            let trimmed = trim_whitespace(rest.as_slice());
            let target = trim_shell_quotes(trimmed.as_slice());
            cwd = resolve_path(cwd.as_slice(), target.as_slice());
            i = i + 1;
            continue;
        }
        let argv = split_shell_words(line.as_slice());
        if argv.len() == 0 {
            i = i + 1;
            continue;
        }
        assert(byte_views(argv@)[0] == argv@[0]@);
        if is_skip_exe(argv[0].as_slice()) {
            i = i + 1;
            continue;
        }
        let resolved = resolve_path(cwd.as_slice(), argv[0].as_slice());
        if ends_with(argv[0].as_slice(), sh.as_slice()) {
            return find_first_command(disk, fs, resolved.as_slice(), depth + 1);
        }
        if is_regular_path(disk, fs, resolved.as_slice()) {
            return Ok(BasicCommand { executable_path: resolved, argv });
        }
        i = i + 1;
    }
    Err(StageError::NoCommand)
}

/// The plan of a basic group: its commands and its markers.
pub struct BasicPlan {
    /// The disk paths of the commands to run, in order.
    pub commands: Vec<Vec<u8>>,
    pub start_marker: Vec<u8>,
    pub end_marker: Vec<u8>,
}

/// The plan of the basic group of `script_path`: the commands it runs, and
/// its own markers or markers named `basic`.
pub open spec fn basic_plan_spec(d: Seq<u8>, fs: Ext4Fs, script_path: Seq<u8>) -> Result<
    (Seq<Seq<u8>>, Seq<u8>, Seq<u8>),
    StageError,
> {
    match read_text_spec(d, fs, script_path) {
        Err(e) => Err(e),
        Ok(script) => {
            let start = match group_marker_spec(script, text::case_kind_start_spec()) {
                Some(m) => m,
                None => named_start(text::basic_word_spec()),
            };
            let end = match group_marker_spec(script, text::case_kind_end_spec()) {
                Some(m) => m,
                None => named_end(text::basic_word_spec()),
            };
            match find_commands_spec(d, fs, script_path, 0) {
                Err(e) => Err(e),
                Ok(cmds) => Ok((cmds, start, end)),
            }
        },
    }
}

/// Plans the basic group of a script.
pub fn build_basic_plan(disk: &[u8], fs: &Ext4Fs, script_path: &[u8]) -> (r: Result<BasicPlan, StageError>)
    requires
        fs.wf(),
    ensures
        match basic_plan_spec(disk@, *fs, script_path@) {
            Ok(p) => r matches Ok(plan) && byte_views(plan.commands@) == p.0 && plan.start_marker@ == p.1
                && plan.end_marker@ == p.2,
            Err(e) => r matches Err(e2) && e2 == e,
        },
{
    let script = match read_text_file(disk, fs, script_path) {
        Err(e) => return Err(e),
        Ok(v) => v,
    };
    let start_kind = text::case_kind_start();
    let end_kind = text::case_kind_end();
    let basic = text::basic_word();
    let start_marker = match find_group_marker(script.as_slice(), start_kind.as_slice()) {
        Some(m) => m,
        None => named_marker(text::group_start_prefix(), basic.as_slice()),
    };
    let end_marker = match find_group_marker(script.as_slice(), end_kind.as_slice()) {
        Some(m) => m,
        None => named_marker(text::group_end_prefix(), basic.as_slice()),
    };
    let commands = match find_commands(disk, fs, script_path, 0) {
        Err(e) => return Err(e),
        Ok(c) => c,
    };
    Ok(BasicPlan { commands, start_marker, end_marker })
}

/// The name a basic command is staged under: `oscomp-basic-<name>-elf`.
pub open spec fn staged_name(cmd: Seq<u8>) -> Seq<u8> {
    text::staged_prefix_spec() + basename(cmd) + text::staged_suffix_spec()
}

/// Each command of a plan copied into the group under its staged name, with
/// a record that runs it; each must have a file name and be an ELF file.
pub open spec fn plan_commands_fold(d: Seq<u8>, fs: Ext4Fs, g: Seq<u8>, cmds: Seq<Seq<u8>>) -> Result<
    (Seq<OpView>, Seq<u8>),
    StageError,
>
    decreases cmds.len(),
{
    if cmds.len() == 0 {
        Ok((Seq::empty(), Seq::empty()))
    } else {
        match plan_commands_fold(d, fs, g, cmds.drop_last()) {
            Err(e) => Err(e),
            Ok(st) => {
                let c = cmds.last();
                if basename(c).len() == 0 {
                    Err(StageError::BadBasicPath)
                } else {
                    match read_file_spec(d, fs, c) {
                        Err(e) => Err(e),
                        Ok(elf) => if !elf_magic(elf) {
                            Err(StageError::NotElf(ElfRole::BasicCommand))
                        } else {
                            Ok((
                                st.0.push(OpView::File(child(g, staged_name(c)), elf)),
                                st.1 + record_bytes(KIND_EXEC, staged_name(c)),
                            ))
                        },
                    }
                }
            },
        }
    }
}

/// An error for a prefix of the commands is the error for all of them.
proof fn lemma_plan_fold_err(d: Seq<u8>, fs: Ext4Fs, g: Seq<u8>, cmds: Seq<Seq<u8>>, n: int)
    requires
        0 < n <= cmds.len(),
        plan_commands_fold(d, fs, g, cmds.subrange(0, n)) is Err,
    ensures
        plan_commands_fold(d, fs, g, cmds) == plan_commands_fold(d, fs, g, cmds.subrange(0, n)),
    decreases cmds.len() - n,
{
    if n < cmds.len() {
        let next = cmds.subrange(0, n + 1);
        assert(next.drop_last() =~= cmds.subrange(0, n));
        lemma_plan_fold_err(d, fs, g, cmds, n + 1);
    } else {
        assert(cmds.subrange(0, n) =~= cmds);
    }
}

/// The command files written before the first command that cannot be staged (all of
/// them where every one can).
pub open spec fn plan_fold_done(d: Seq<u8>, fs: Ext4Fs, g: Seq<u8>, cmds: Seq<Seq<u8>>) -> Seq<OpView>
    decreases cmds.len(),
{
    if cmds.len() == 0 {
        Seq::empty()
    } else {
        match plan_commands_fold(d, fs, g, cmds.drop_last()) {
            Err(_) => plan_fold_done(d, fs, g, cmds.drop_last()),
            Ok(st) => match plan_commands_fold(d, fs, g, cmds) {
                Ok(all) => all.0,
                Err(_) => st.0,
            },
        }
    }
}

/// Where the first `i` commands fold and the next cannot be staged, what is written
/// before the failure is the files of the first `i`.
proof fn lemma_plan_fold_done(d: Seq<u8>, fs: Ext4Fs, g: Seq<u8>, cmds: Seq<Seq<u8>>, i: int, n: int)
    requires
        0 <= i < n <= cmds.len(),
        plan_commands_fold(d, fs, g, cmds.subrange(0, i)) is Ok,
        plan_commands_fold(d, fs, g, cmds.subrange(0, i + 1)) is Err,
    ensures
        plan_fold_done(d, fs, g, cmds.subrange(0, n)) == plan_commands_fold(d, fs, g, cmds.subrange(0, i))->Ok_0.0,
    decreases n - i,
{
    let cur = cmds.subrange(0, n);
    assert(cur.drop_last() =~= cmds.subrange(0, n - 1));
    if n > i + 1 {
        lemma_plan_fold_done(d, fs, g, cmds, i, n - 1);
        assert(cmds.subrange(0, n - 1).subrange(0, i + 1) =~= cmds.subrange(0, i + 1));
        lemma_plan_fold_err(d, fs, g, cmds.subrange(0, n - 1), i + 1);
    }
}

/// A copy of `dir/name` into the group when it is a regular file.
pub open spec fn optional_group_resource_spec(d: Seq<u8>, fs: Ext4Fs, dir: Seq<u8>, g: Seq<u8>, name: Seq<u8>) -> Result<
    Seq<OpView>,
    StageError,
> {
    let path = resolve_spec(dir, name);
    if regular_at(d, fs, path) {
        match read_file_spec(d, fs, path) {
            Err(e) => Err(e),
            Ok(v) => Ok(seq![OpView::File(child(g, name), v)]),
        }
    } else {
        Ok(Seq::empty())
    }
}

/// Appends a copy of `directory/name` into the group when it is a regular file.
fn install_optional_group_resource(
    disk: &[u8],
    fs: &Ext4Fs,
    directory: &[u8],
    group_dir: &[u8],
    name: &[u8],
    ops: &mut Vec<StageOp>,
) -> (r: Result<(), StageError>)
    requires
        fs.wf(),
    ensures
        match optional_group_resource_spec(disk@, *fs, directory@, group_dir@, name@) {
            Ok(v) => r is Ok && op_views(final(ops)@) == op_views(old(ops)@) + v,
            Err(e) => r == Err::<(), StageError>(e) && final(ops)@ == old(ops)@,
        },
{
    let path = resolve_path(directory, name);
    if is_regular_path(disk, fs, path.as_slice()) {
        let data = match read_file(disk, fs, path.as_slice()) {
            Err(e) => return Err(e),
            Ok(v) => v,
        };
        push_file(ops, child_path(group_dir, name), data.as_slice());
        assert(op_views(ops@) =~= op_views(old(ops)@) + seq![OpView::File(child(group_dir@, name@), data@)]);
    } else {
        assert(op_views(ops@) =~= op_views(old(ops)@) + Seq::<OpView>::empty());
    }
    Ok(())
}

/// Staging a basic plan as the group `g`: each command under its staged name
/// with a record that runs it, the optional `test_echo` and `text.txt` from
/// the first command's directory, and the group's `mnt` directory.
pub open spec fn plan_spec(d: Seq<u8>, fs: Ext4Fs, cmds: Seq<Seq<u8>>, start: Seq<u8>, end: Seq<u8>, g: Seq<u8>) -> Result<
    (Seq<OpView>, Seq<u8>, Seq<usize>, usize),
    StageError,
> {
    match plan_commands_fold(d, fs, g, cmds) {
        Err(e) => Err(e),
        Ok(st) => if cmds.len() == 0 {
            Err(StageError::EmptyPlan)
        } else {
            let basic_dir = parent_spec(cmds[0]);
            match optional_group_resource_spec(d, fs, basic_dir, g, text::test_echo_spec()) {
                Err(e) => Err(e),
                Ok(a) => match optional_group_resource_spec(d, fs, basic_dir, g, text::text_txt_spec()) {
                    Err(e) => Err(e),
                    Ok(b) => Ok((
                        seq![OpView::Dir(g)] + st.0 + a + b + seq![OpView::Dir(child(g, text::mnt_word_spec()))],
                        record_bytes(KIND_GROUP, group_payload(g, start)) + st.1 + record_bytes(KIND_END, end),
                        Seq::new(cmds.len(), |i: int| (i + 1) as usize),
                        cmds.len() as usize,
                    )),
                },
            }
        },
    }
}

/// What staging a basic plan as `g` writes before a step fails: the group directory,
/// the commands staged before the first that cannot be, and `test_echo` once copied.
pub open spec fn plan_done(d: Seq<u8>, fs: Ext4Fs, cmds: Seq<Seq<u8>>, g: Seq<u8>) -> Seq<OpView> {
    match plan_commands_fold(d, fs, g, cmds) {
        Err(_) => seq![OpView::Dir(g)] + plan_fold_done(d, fs, g, cmds),
        Ok(st) => if cmds.len() == 0 {
            seq![OpView::Dir(g)]
        } else {
            match optional_group_resource_spec(d, fs, parent_spec(cmds[0]), g, text::test_echo_spec()) {
                Err(_) => seq![OpView::Dir(g)] + st.0,
                Ok(a) => seq![OpView::Dir(g)] + st.0 + a,
            }
        },
    }
}

/// Copies the commands of a plan into the group; where one cannot be staged, the files
/// of those before it come back with the error.
fn stage_plan_commands(disk: &[u8], fs: &Ext4Fs, group_dir: &[u8], cmds: &Vec<Vec<u8>>)
    -> (r: Result<(Vec<StageOp>, Vec<u8>), (StageError, Vec<StageOp>)>)
    requires
        fs.wf(),
    ensures
        match plan_commands_fold(disk@, *fs, group_dir@, byte_views(cmds@)) {
            Ok(st) => r matches Ok(v) && op_views(v.0@) == st.0 && v.1@ == st.1,
            Err(e) => r matches Err(f) && f.0 == e && op_views(f.1@) == plan_fold_done(disk@, *fs, group_dir@,
                byte_views(cmds@)),
        },
{
    let ghost cv = byte_views(cmds@);
    let mut files: Vec<StageOp> = Vec::new();
    let mut records: Vec<u8> = Vec::new();
    let prefix = text::staged_prefix();
    let suffix = text::staged_suffix();
    let mut i: usize = 0;
    assert(cv.subrange(0, 0) =~= Seq::<Seq<u8>>::empty());
    assert(op_views(files@) =~= Seq::<OpView>::empty());
    while i < cmds.len()
        invariant
            fs.wf(),
            i <= cmds@.len(),
            cv == byte_views(cmds@),
            prefix@ == text::staged_prefix_spec(),
            suffix@ == text::staged_suffix_spec(),
            plan_commands_fold(disk@, *fs, group_dir@, cv.subrange(0, i as int)) matches Ok(st)
                && op_views(files@) == st.0 && records@ == st.1,
        decreases cmds@.len() - i,
    {
        let ghost pre = cv.subrange(0, i + 1);
        assert(pre.drop_last() =~= cv.subrange(0, i as int));
        assert(pre.last() == cmds@[i as int]@);
        let name = match file_name(cmds[i].as_slice()) {
            None => {
                proof {
                    lemma_plan_fold_err(disk@, *fs, group_dir@, cv, i + 1);
                    lemma_plan_fold_done(disk@, *fs, group_dir@, cv, i as int, cv.len() as int);
                    assert(cv.subrange(0, cv.len() as int) =~= cv);
                }
                return Err((StageError::BadBasicPath, files));
            },
            Some(n) => n,
        };
        let elf = match read_file(disk, fs, cmds[i].as_slice()) {
            Err(e) => {
                proof {
                    lemma_plan_fold_err(disk@, *fs, group_dir@, cv, i + 1);
                    lemma_plan_fold_done(disk@, *fs, group_dir@, cv, i as int, cv.len() as int);
                    assert(cv.subrange(0, cv.len() as int) =~= cv);
                }
                return Err((e, files));
            },
            Ok(v) => v,
        };
        if !is_elf(elf.as_slice()) {
            proof {
                lemma_plan_fold_err(disk@, *fs, group_dir@, cv, i + 1);
                lemma_plan_fold_done(disk@, *fs, group_dir@, cv, i as int, cv.len() as int);
                assert(cv.subrange(0, cv.len() as int) =~= cv);
            }
            return Err((StageError::NotElf(ElfRole::BasicCommand), files));
        }
        let mut staged = copy_all(prefix.as_slice());
        extend_from(&mut staged, name.as_slice());
        extend_from(&mut staged, suffix.as_slice());
        assert(staged@ =~= staged_name(pre.last()));
        push_file(&mut files, child_path(group_dir, staged.as_slice()), elf.as_slice());
        push_queue_record(&mut records, KIND_EXEC, staged.as_slice());
        i = i + 1;
    }
    assert(cv.subrange(0, cmds@.len() as int) =~= cv);
    Ok((files, records))
}

/// Stages a basic plan as a group. Where a step fails after the group directory is
/// written, the error comes back with the files written before it, which stay in place.
pub fn install_plan(disk: &[u8], fs: &Ext4Fs, plan: &BasicPlan, group_dir: &[u8])
    -> (r: Result<GroupStage, (StageError, Vec<StageOp>)>)
    requires
        fs.wf(),
    ensures
        partial_stage_result(r) == plan_spec(disk@, *fs, byte_views(plan.commands@), plan.start_marker@,
            plan.end_marker@, group_dir@),
        r matches Err(f) ==> op_views(f.1@) == plan_done(disk@, *fs, byte_views(plan.commands@), group_dir@),
{
    let mut ops: Vec<StageOp> = Vec::new();
    push_dir(&mut ops, copy_all(group_dir));
    let ghost head = op_views(ops@);
    assert(head =~= seq![OpView::Dir(group_dir@)]);
    let (files, staged_records) = match stage_plan_commands(disk, fs, group_dir, &plan.commands) {
        Err((e, mut done)) => {
            let ghost dv = op_views(done@);
            ops.append(&mut done);
            assert(op_views(ops@) =~= head + dv);
            return Err((e, ops));
        },
        Ok(v) => v,
    };
    if plan.commands.len() == 0 {
        return Err((StageError::EmptyPlan, ops));
    }
    let basic_dir = parent_of(plan.commands[0].as_slice());
    assert(byte_views(plan.commands@)[0] == plan.commands@[0]@);
    let mut rest = files;
    let ghost fv = op_views(rest@);
    ops.append(&mut rest);
    assert(op_views(ops@) =~= head + fv);
    let echo = text::test_echo();
    let txt = text::text_txt();
    match install_optional_group_resource(disk, fs, basic_dir.as_slice(), group_dir, echo.as_slice(), &mut ops) {
        Err(e) => return Err((e, ops)),
        Ok(()) => {},
    }
    let ghost after_echo = op_views(ops@);
    match install_optional_group_resource(disk, fs, basic_dir.as_slice(), group_dir, txt.as_slice(), &mut ops) {
        Err(e) => return Err((e, ops)),
        Ok(()) => {},
    }
    let mnt = text::mnt_word();
    push_dir(&mut ops, child_path(group_dir, mnt.as_slice()));
    let mut records: Vec<u8> = Vec::new();
    let payload = group_record_payload(group_dir, plan.start_marker.as_slice());
    push_queue_record(&mut records, KIND_GROUP, payload.as_slice());
    extend_from(&mut records, staged_records.as_slice());
    push_queue_record(&mut records, KIND_END, plan.end_marker.as_slice());
    let n = plan.commands.len();
    let mut inspect: Vec<usize> = Vec::new();
    let mut i: usize = 0;
    while i < n
        invariant
            i <= n,
            n == plan.commands@.len(),
            inspect@ == Seq::new(i as nat, |k: int| (k + 1) as usize),
        decreases n - i,
    {
        inspect.push(i + 1);
        assert(inspect@ =~= Seq::new((i + 1) as nat, |k: int| (k + 1) as usize));
        i = i + 1;
    }
    let r = GroupStage { ops, records, inspect, commands: n };
    proof {
        let spec = plan_spec(disk@, *fs, byte_views(plan.commands@), plan.start_marker@, plan.end_marker@,
            group_dir@)->Ok_0;
        assert(stage_view(r).0 =~= spec.0);
        assert(stage_view(r).1 =~= spec.1);
        assert(stage_view(r).2 =~= spec.2);
    }
    Ok(r)
}

} // verus!
