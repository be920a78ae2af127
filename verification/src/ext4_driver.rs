//! The test-disk driver on top of the EXT4 reader: the mounted file system, the queue of
//! commands the test scripts run, and the external program it hands to the loader.
use vstd::prelude::*;
use crate::ext4::{
    Ext4Error, Ext4Fs, Ext4File, FileInfo, EXT4_ROOT_INO, EXT4_S_IFREG, EXT4_MODE_TYPE_MASK,
    INODE_PARSE_SIZE, path_walk, inode_of, inode_data, inode_range_read, lookup_path,
    read_inode_by_no, read_inode_data, copy_inode_range,
};
use crate::loader::{Loader, EXTERNAL_APP_MAX_SIZE, EXTERNAL_ARG_MAX};
use crate::script::{clip, token_at, next_token, copy_path, parent_of, last_slash};
use crate::bytes::copy_range;

verus! {

/// Commands the queue holds at most.
pub const SCRIPT_COMMAND_MAX: usize = 64;

/// Longest argument a queued command keeps.
pub const SCRIPT_ARG_MAX_LEN: usize = 64;

/// Longest script the driver reads.
pub const SCRIPT_BUFFER_SIZE: usize = 16 * 1024;

/// How deep scripts may run other scripts.
pub const MAX_SCRIPT_DEPTH: usize = 2;

/// How deep the search for test scripts descends below the root.
pub const MAX_SCAN_DEPTH: usize = 2;

/// A program a test script runs: its path and its arguments, the path first.
pub struct ScriptCommand {
    pub path: Vec<u8>,
    pub args: Vec<Vec<u8>>,
}

/// A command as plain values.
pub open spec fn command_view(c: ScriptCommand) -> (Seq<u8>, Seq<Seq<u8>>) {
    (c.path@, c.args@.map_values(|a: Vec<u8>| a@))
}

impl ScriptCommand {
    /// The command with no path and no arguments.
    pub fn zero() -> (r: Self)
        ensures
            command_view(r) == (Seq::<u8>::empty(), Seq::<Seq<u8>>::empty()),
    {
        let r = ScriptCommand { path: Vec::new(), args: Vec::new() };
        assert(command_view(r).1 =~= Seq::<Seq<u8>>::empty());
        r
    }

    /// Path within 128 bytes, at most eight arguments of at most 64 bytes each.
    pub open spec fn wf(&self) -> bool {
        &&& self.path@.len() <= 128
        &&& self.args@.len() <= EXTERNAL_ARG_MAX
        &&& forall|i: int| 0 <= i < self.args@.len() ==> (#[trigger] self.args@[i])@.len() <= SCRIPT_ARG_MAX_LEN
    }
}

/// Appends `arg`, cut to 64 bytes, unless the command has eight arguments already.
pub fn push_script_command_arg(command: &mut ScriptCommand, arg: &[u8]) -> (r: bool)
    requires
        old(command).wf(),
    ensures
        final(command).wf(),
        r == (old(command).args@.len() < EXTERNAL_ARG_MAX),
        final(command).path@ == old(command).path@,
        r ==> command_view(*final(command)).1 == command_view(*old(command)).1.push(clip(arg@, 64)),
        !r ==> command_view(*final(command)).1 == command_view(*old(command)).1,
{
    if command.args.len() >= EXTERNAL_ARG_MAX {
        return false;
    }
    let copy_len = if arg.len() < SCRIPT_ARG_MAX_LEN { arg.len() } else { SCRIPT_ARG_MAX_LEN };
    let piece = copy_range(arg, 0, copy_len);
    assert(piece@ =~= clip(arg@, 64));
    let ghost before = command.args@;
    command.args.push(piece);
    assert(command.args@.map_values(|a: Vec<u8>| a@) =~= before.map_values(|a: Vec<u8>| a@).push(clip(arg@, 64)));
    true
}

/// What kind of line the driver prints.
#[derive(Clone, Copy, Debug, PartialEq, Eq, Structural)]
pub enum LineKind {
    /// `ext4: found <count> test script(s)`.
    ScriptsFound,
    /// `ext4: <message of error>`.
    Failed,
    /// `oscomp: found test script <text>`.
    FoundScript,
    /// `loader: selected external ELF <text>`.
    SelectedElf,
    /// `<text>` as it stands: a test group marker.
    Marker,
}

/// A line the driver prints, as its kind, its text, its count and its error.
pub struct ConsoleLine {
    pub kind: LineKind,
    pub text: Vec<u8>,
    pub count: usize,
    pub error: Option<Ext4Error>,
}

/// A printed line as plain values.
pub open spec fn line_view(l: ConsoleLine) -> (LineKind, Seq<u8>, usize, Option<Ext4Error>) {
    (l.kind, l.text@, l.count, l.error)
}

/// Whether the first four bytes are the ELF magic.
pub open spec fn elf_magic(d: Seq<u8>) -> bool {
    d.len() >= 4 && d[0] == 0x7f && d[1] == 0x45 && d[2] == 0x4c && d[3] == 0x46
}

/// Whether `buffer` starts with the ELF magic.
pub fn is_elf(buffer: &[u8]) -> (r: bool)
    ensures
        r == elf_magic(buffer@),
{
    buffer.len() >= 4 && buffer[0] == 0x7f && buffer[1] == 0x45 && buffer[2] == 0x4c && buffer[3] == 0x46
}

/// Resolving `p` from the root.
pub open spec fn lookup(d: Seq<u8>, fs: Ext4Fs, p: Seq<u8>) -> Result<Option<FileInfo>, Ext4Error> {
    path_walk(d, fs, p, 0, EXT4_ROOT_INO, false)
}

/// A regular file by its mode.
pub open spec fn is_regular(info: FileInfo) -> bool {
    info.mode & EXT4_MODE_TYPE_MASK == EXT4_S_IFREG
}

/// Reading the first `n` bytes of the file `info` names.
#[verifier::opaque]
pub open spec fn file_read(d: Seq<u8>, fs: Ext4Fs, info: FileInfo, n: int) -> Result<Seq<u8>, Ext4Error> {
    match inode_of(d, fs, info.inode_no) {
        Err(e) => Err(e),
        Ok(i) => inode_data(d, fs, i, n),
    }
}

/// The image of `info` when it can be an external program: a regular, non-empty file of
/// at most `EXTERNAL_APP_MAX_SIZE` bytes, read whole, that starts with the ELF magic.
pub open spec fn program_image(d: Seq<u8>, fs: Ext4Fs, info: FileInfo) -> Option<Seq<u8>> {
    if !is_regular(info) || info.size == 0 || info.size > EXTERNAL_APP_MAX_SIZE {
        None
    } else {
        match file_read(d, fs, info, info.size as int) {
            Ok(data) => if elf_magic(data) && data.len() <= EXTERNAL_APP_MAX_SIZE { Some(data) } else { None },
            Err(_) => None,
        }
    }
}

/// The working directory of a program at `path`: its directory, cut to 128 bytes.
pub open spec fn cwd_of(path: Seq<u8>) -> Seq<u8> {
    let dir = match last_slash(path) {
        Some(k) => path.subrange(0, k),
        None => Seq::<u8>::empty(),
    };
    dir.subrange(0, if dir.len() < 128 { dir.len() as int } else { 128 })
}

/// The shell tokens of `b` from `i`, stopping at a token that does not move on.
pub open spec fn tokens_from(b: Seq<u8>, i: int) -> Seq<Seq<u8>>
    decreases b.len() - i,
{
    if i < 0 || i > b.len() {
        Seq::empty()
    } else {
        match token_at(b, i) {
            None => Seq::empty(),
            Some(t) => {
                let tok = b.subrange(t.0, t.1);
                if i < t.2 <= b.len() {
                    seq![tok] + tokens_from(b, t.2)
                } else {
                    seq![tok]
                }
            },
        }
    }
}

/// The first `n` of `s`.
pub open spec fn take_at_most(s: Seq<Seq<u8>>, n: int) -> Seq<Seq<u8>> {
    if s.len() <= n { s } else { s.subrange(0, n) }
}

/// The arguments a command gets: its path and the line's tokens after the command, each
/// cut to 64 bytes, eight at most.
pub open spec fn command_args(path: Seq<u8>, line: Seq<u8>, next: int) -> Seq<Seq<u8>> {
    take_at_most(seq![clip(path, 64)] + tokens_from(line, next).map_values(|t: Seq<u8>| clip(t, 64)), 8)
}

/// Whether a queued command loads: its path names a file that `program_image` accepts.
pub open spec fn command_loads(d: Seq<u8>, fs: Ext4Fs, path: Seq<u8>) -> bool {
    path.len() > 0 && match lookup(d, fs, path) {
        Ok(Some(info)) => program_image(d, fs, info) is Some,
        _ => false,
    }
}

/// The driver of the test disk.
pub struct Ext4Driver {
    fs: Option<Ext4Fs>,
    commands: Vec<ScriptCommand>,
    next: usize,
    loader: Loader,
    lines: Vec<ConsoleLine>,
}

impl Ext4Driver {
    pub closed spec fn fs_spec(&self) -> Option<Ext4Fs> {
        self.fs
    }

    pub closed spec fn loader_spec(&self) -> Loader {
        self.loader
    }

    /// The loader state: the external program the driver selected.
    pub fn loader(&self) -> (r: &Loader)
        ensures
            *r == self.loader_spec(),
    {
        &self.loader
    }

    pub closed spec fn queue_spec(&self) -> Seq<(Seq<u8>, Seq<Seq<u8>>)> {
        self.commands@.map_values(|c: ScriptCommand| command_view(c))
    }

    pub closed spec fn next_spec(&self) -> int {
        self.next as int
    }

    pub closed spec fn lines_spec(&self) -> Seq<(LineKind, Seq<u8>, usize, Option<Ext4Error>)> {
        self.lines@.map_values(|l: ConsoleLine| line_view(l))
    }

    /// The invariant of the driver.
    pub closed spec fn wf(&self) -> bool {
        &&& self.commands@.len() <= SCRIPT_COMMAND_MAX
        &&& self.next <= self.commands@.len()
        &&& forall|i: int| 0 <= i < self.commands@.len() ==> (#[trigger] self.commands@[i]).wf()
        &&& (self.fs matches Some(f) ==> f.wf())
    }

    /// A driver with nothing mounted, nothing queued and nothing printed.
    pub fn new() -> (r: Self)
        ensures
            r.wf(),
            r.fs_spec() is None,
            r.queue_spec() == Seq::<(Seq<u8>, Seq<Seq<u8>>)>::empty(),
            r.next_spec() == 0,
            r.lines_spec() == Seq::<(LineKind, Seq<u8>, usize, Option<Ext4Error>)>::empty(),
            !r.loader_spec().ready_spec(),
    {
        let r = Ext4Driver { fs: None, commands: Vec::new(), next: 0, loader: Loader::new(), lines: Vec::new() };
        assert(r.queue_spec() =~= Seq::<(Seq<u8>, Seq<Seq<u8>>)>::empty());
        assert(r.lines_spec() =~= Seq::<(LineKind, Seq<u8>, usize, Option<Ext4Error>)>::empty());
        r
    }

    /// The lines printed so far.
    pub fn lines(&self) -> (r: &Vec<ConsoleLine>)
        ensures
            r@.map_values(|l: ConsoleLine| line_view(l)) == self.lines_spec(),
    {
        &self.lines
    }

    /// The mounted file system.
    fn mounted_fs(&self) -> (r: Option<Ext4Fs>)
        ensures
            r == self.fs_spec(),
    {
        self.fs
    }

    /// Records `fs` as the mounted file system.
    fn set_mounted_fs(&mut self, fs: Ext4Fs)
        requires
            old(self).wf(),
            fs.wf(),
        ensures
            final(self).wf(),
            final(self).fs_spec() == Some(fs),
            final(self).queue_spec() == old(self).queue_spec(),
            final(self).next_spec() == old(self).next_spec(),
            final(self).lines_spec() == old(self).lines_spec(),
            final(self).loader_spec() == old(self).loader_spec(),
    {
        self.fs = Some(fs);
    }

    fn print(&mut self, kind: LineKind, text: Vec<u8>, count: usize, error: Option<Ext4Error>)
        ensures
            final(self).lines_spec() == old(self).lines_spec().push((kind, text@, count, error)),
            final(self).fs_spec() == old(self).fs_spec(),
            final(self).queue_spec() == old(self).queue_spec(),
            final(self).next_spec() == old(self).next_spec(),
            final(self).commands@ == old(self).commands@,
            final(self).loader_spec() == old(self).loader_spec(),
    {
        let ghost before = self.lines@;
        let ghost t = text@;
        self.lines.push(ConsoleLine { kind, text, count, error });
        assert(self.lines@.map_values(|l: ConsoleLine| line_view(l))
            =~= before.map_values(|l: ConsoleLine| line_view(l)).push((kind, t, count, error)));
    }
}

/// Opening `p` as a regular file of the mounted file system.
pub open spec fn open_spec(fs: Option<Ext4Fs>, d: Seq<u8>, p: Seq<u8>) -> Option<Ext4File> {
    match fs {
        None => None,
        Some(fs) => match lookup(d, fs, p) {
            Ok(Some(info)) => if is_regular(info) {
                Some(Ext4File { inode_no: info.inode_no, size: info.size })
            } else {
                None
            },
            _ => None,
        },
    }
}

/// Reading up to `max` bytes of `file` from byte `offset`.
pub open spec fn read_at_spec(fs: Option<Ext4Fs>, d: Seq<u8>, file: Ext4File, offset: int, max: int)
    -> Result<Seq<u8>, Ext4Error>
{
    if max == 0 || offset >= file.size {
        Ok(Seq::<u8>::empty())
    } else {
        match fs {
            None => Err(Ext4Error::NotMounted),
            Some(fs) => match inode_of(d, fs, file.inode_no) {
                Err(e) => Err(e),
                Ok(i) => inode_range_read(d, fs, i, offset, max),
            },
        }
    }
}

impl Ext4Driver {
    /// Opens the regular file at `path` on the mounted file system.
    pub fn open_path(&self, disk: &[u8], path: &[u8]) -> (r: Option<Ext4File>)
        requires
            self.wf(),
        ensures
            r == open_spec(self.fs_spec(), disk@, path@),
    {
        let fs = match self.mounted_fs() {
            Some(fs) => fs,
            None => return None,
        };
        let info = match lookup_path(disk, &fs, path) {
            Ok(Some(info)) => info,
            _ => return None,
        };
        if info.mode & EXT4_MODE_TYPE_MASK != EXT4_S_IFREG {
            return None;
        }
        Some(Ext4File { inode_no: info.inode_no, size: info.size })
    }

    /// Reads up to `max_len` bytes of `file` from byte `offset`.
    pub fn read_file_at(&self, disk: &[u8], file: Ext4File, offset: usize, max_len: usize)
        -> (r: Result<Vec<u8>, Ext4Error>)
        requires
            self.wf(),
        ensures
            r matches Ok(v) ==> read_at_spec(self.fs_spec(), disk@, file, offset as int, max_len as int)
                == Ok::<Seq<u8>, Ext4Error>(v@),
            r is Err ==> read_at_spec(self.fs_spec(), disk@, file, offset as int, max_len as int)
                == Err::<Seq<u8>, Ext4Error>(r->Err_0),
            r matches Ok(v) ==> v@.len() <= max_len,
    {
        if max_len == 0 {
            return Ok(Vec::new());
        }
        if offset as u64 >= file.size {
            return Ok(Vec::new());
        }
        let fs = match self.mounted_fs() {
            Some(fs) => fs,
            None => return Err(Ext4Error::NotMounted),
        };
        let inode = match read_inode_by_no(disk, &fs, file.inode_no) {
            Ok(i) => i,
            Err(e) => return Err(e),
        };
        copy_inode_range(disk, &fs, inode.as_slice(), offset as u64, max_len)
    }
}

/// `take_at_most(.., 8)` of the arguments so far and the rest is kept when one more is pushed.
proof fn lemma_args_step(args: Seq<Seq<u8>>, x: Seq<u8>, rest: Seq<Seq<u8>>)
    requires
        args.len() <= 8,
    ensures
        take_at_most((if args.len() < 8 { args.push(x) } else { args }) + rest, 8)
            == take_at_most(args + (seq![x] + rest), 8),
{
    if args.len() < 8 {
        assert(args.push(x) + rest =~= args + (seq![x] + rest));
    } else {
        assert((args + rest).subrange(0, 8) =~= args);
        assert((args + (seq![x] + rest)).subrange(0, 8) =~= args);
    }
}

/// A copy of `c`.
fn clone_command(c: &ScriptCommand) -> (r: ScriptCommand)
    ensures
        command_view(r) == command_view(*c),
        c.wf() ==> r.wf(),
{
    let path = copy_range(c.path.as_slice(), 0, c.path.len());
    let mut args: Vec<Vec<u8>> = Vec::new();
    let mut i: usize = 0;
    while i < c.args.len()
        invariant
            i <= c.args@.len(),
            args@.len() == i,
            forall|j: int| 0 <= j < i ==> (#[trigger] args@[j])@ == c.args@[j]@,
        decreases c.args@.len() - i,
    {
        let a = copy_range(c.args[i].as_slice(), 0, c.args[i].len());
        assert(a@ =~= c.args@[i as int]@);
        args.push(a);
        i = i + 1;
    }
    let r = ScriptCommand { path, args };
    assert(r.path@ =~= c.path@);
    assert(c.wf() ==> r.wf()) by {
        if c.wf() {
            assert forall|j: int| 0 <= j < r.args@.len() implies (#[trigger] r.args@[j])@.len() <= SCRIPT_ARG_MAX_LEN by {
                assert(r.args@[j]@ == c.args@[j]@);
            }
        }
    }
    assert(command_view(r).1 =~= command_view(*c).1);
    r
}

/// The first queued command at or after `from` that loads.
pub open spec fn first_loadable(d: Seq<u8>, fs: Ext4Fs, q: Seq<(Seq<u8>, Seq<Seq<u8>>)>, from: int) -> Option<int>
    decreases q.len() - from,
{
    if from < 0 || from >= q.len() {
        None
    } else if command_loads(d, fs, q[from].0) {
        Some(from)
    } else {
        first_loadable(d, fs, q, from + 1)
    }
}

impl Ext4Driver {
    /// Sets the external program's working directory to the directory of `path`.
    fn set_external_cwd_from_path(&mut self, path: &[u8])
        ensures
            final(self).loader_spec().cwd_spec() == cwd_of(path@),
            final(self).loader_spec().app_spec() == old(self).loader_spec().app_spec(),
            final(self).loader_spec().ready_spec() == old(self).loader_spec().ready_spec(),
            final(self).loader_spec().group_spec() == old(self).loader_spec().group_spec(),
            final(self).loader_spec().args_spec() == old(self).loader_spec().args_spec(),
            final(self).fs_spec() == old(self).fs_spec(),
            final(self).commands@ == old(self).commands@,
            final(self).next_spec() == old(self).next_spec(),
            final(self).lines_spec() == old(self).lines_spec(),
    {
        let dir = parent_of(path);
        self.loader.set_external_cwd(dir.as_slice());
    }

    #[verifier::rlimit(40)]
    /// Makes the file `info`, found at `path`, the external program when it can be one:
    /// a regular, non-empty ELF file of at most `EXTERNAL_APP_MAX_SIZE` bytes.
    fn load_external_file(&mut self, disk: &[u8], fs: &Ext4Fs, path: &[u8], info: FileInfo, announce: bool) -> (r: bool)
        requires
            old(self).wf(),
            fs.wf(),
        ensures
            final(self).wf(),
            r == (program_image(disk@, *fs, info) is Some),
            r ==> final(self).loader_spec().app_spec() == program_image(disk@, *fs, info)->0
                && final(self).loader_spec().ready_spec()
                && final(self).loader_spec().cwd_spec() == cwd_of(path@),
            !r ==> final(self).loader_spec() == old(self).loader_spec(),
            final(self).loader_spec().group_spec() == old(self).loader_spec().group_spec(),
            final(self).loader_spec().args_spec() == old(self).loader_spec().args_spec(),
            r && announce ==> final(self).lines_spec() == old(self).lines_spec().push(
                (LineKind::SelectedElf, path@, 0usize, None::<Ext4Error>)),
            !(r && announce) ==> final(self).lines_spec() == old(self).lines_spec(),
            final(self).fs_spec() == old(self).fs_spec(),
            final(self).commands@ == old(self).commands@,
            final(self).next_spec() == old(self).next_spec(),
    {
        if info.mode & EXT4_MODE_TYPE_MASK != EXT4_S_IFREG {
            return false;
        }
        if info.size == 0 || info.size > EXTERNAL_APP_MAX_SIZE as u64 {
            return false;
        }
        let read_len = info.size as usize;
        let data = match read_root_file_into(disk, fs, info, read_len) {
            Ok(d) => d,
            Err(_) => return false,
        };
        if !is_elf(data.as_slice()) || data.len() > EXTERNAL_APP_MAX_SIZE {
            return false;
        }
        self.set_external_cwd_from_path(path);
        if announce {
            let text = copy_range(path, 0, path.len());
            assert(text@ =~= path@);
            self.print(LineKind::SelectedElf, text, 0, None);
        }
        self.loader.set_external_app(data);
        true
    }

    /// Makes the file at `path` the external program, when it can be one.
    pub fn load_external_elf_path(&mut self, disk: &[u8], path: &[u8]) -> (r: bool)
        requires
            old(self).wf(),
        ensures
            final(self).wf(),
            r == (old(self).fs_spec() matches Some(fs) && match lookup(disk@, fs, path@) {
                Ok(Some(info)) => program_image(disk@, fs, info) is Some,
                _ => false,
            }),
            r ==> final(self).loader_spec().ready_spec() && final(self).loader_spec().cwd_spec() == cwd_of(path@)
                && final(self).loader_spec().app_spec() == program_image(disk@, old(self).fs_spec()->0,
                lookup(disk@, old(self).fs_spec()->0, path@)->Ok_0->0)->0,
            !r ==> final(self).loader_spec() == old(self).loader_spec(),
            final(self).lines_spec() == old(self).lines_spec(),
    {
        let fs = match self.mounted_fs() {
            Some(fs) => fs,
            None => return false,
        };
        let info = match lookup_path(disk, &fs, path) {
            Ok(Some(info)) => info,
            _ => return false,
        };
        self.load_external_file(disk, &fs, path, info, false)
    }

    /// `execve` of the program at `path`, resolved against the working directory: makes it
    /// the external program, as `load_external_elf_path` does, and gives it the arguments
    /// of `args` that could be read from the caller (`None` where one could not), or its
    /// path alone where none could. 0, or -1 where `path` names no program that can be
    /// loaded, the loader then left as it was.
    pub fn exec_image(&mut self, disk: &[u8], path: &[u8], args: &Vec<Option<Vec<u8>>>) -> (r: isize)
        requires
            old(self).wf(),
        ensures
            final(self).wf(),
            r == 0 || r == -1,
            (r == 0) == (old(self).fs_spec() matches Some(fs) && match lookup(disk@, fs, path@) {
                Ok(Some(info)) => program_image(disk@, fs, info) is Some,
                _ => false,
            }),
            r == 0 ==> final(self).loader_spec().ready_spec() && final(self).loader_spec().cwd_spec() == cwd_of(path@)
                && final(self).loader_spec().app_spec() == program_image(disk@, old(self).fs_spec()->0,
                lookup(disk@, old(self).fs_spec()->0, path@)->Ok_0->0)->0
                && final(self).loader_spec().args_spec() == crate::syscall::exec_args_spec(args@, path@),
            r == -1 ==> final(self).loader_spec() == old(self).loader_spec(),
            final(self).lines_spec() == old(self).lines_spec(),
    {
        if !self.load_external_elf_path(disk, path) {
            return -1;
        }
        crate::syscall::push_exec_args(&mut self.loader, args, path);
        0
    }

    /// Empties the command queue.
    fn clear_script_command_queue(&mut self)
        requires
            old(self).wf(),
        ensures
            final(self).wf(),
            final(self).queue_spec() == Seq::<(Seq<u8>, Seq<Seq<u8>>)>::empty(),
            final(self).next_spec() == 0,
            final(self).fs_spec() == old(self).fs_spec(),
            final(self).loader_spec() == old(self).loader_spec(),
            final(self).lines_spec() == old(self).lines_spec(),
    {
        self.commands = Vec::new();
        self.next = 0;
        assert(self.queue_spec() =~= Seq::<(Seq<u8>, Seq<Seq<u8>>)>::empty());
    }

    /// Queues the program at `path` with the arguments the rest of `line` gives, from
    /// `next_index`, when the queue has room and `path` names a regular, non-empty file of
    /// at most `EXTERNAL_APP_MAX_SIZE` bytes.
    fn enqueue_elf_command(&mut self, disk: &[u8], fs: &Ext4Fs, path: &[u8], line: &[u8], next_index: usize) -> (r: bool)
        requires
            old(self).wf(),
            fs.wf(),
        ensures
            final(self).wf(),
            r == (old(self).queue_spec().len() < SCRIPT_COMMAND_MAX && match lookup(disk@, *fs, path@) {
                Ok(Some(info)) => is_regular(info) && info.size != 0 && info.size <= EXTERNAL_APP_MAX_SIZE,
                _ => false,
            }),
            r ==> final(self).queue_spec() == old(self).queue_spec().push(
                (clip(path@, 128), command_args(path@, line@, next_index as int))),
            !r ==> final(self).queue_spec() == old(self).queue_spec(),
            final(self).next_spec() == old(self).next_spec(),
            final(self).fs_spec() == old(self).fs_spec(),
            final(self).loader_spec() == old(self).loader_spec(),
            final(self).lines_spec() == old(self).lines_spec(),
    {
        if self.commands.len() >= SCRIPT_COMMAND_MAX {
            return false;
        }
        let info = match lookup_path(disk, fs, path) {
            Ok(Some(info)) => info,
            _ => return false,
        };
        if info.mode & EXT4_MODE_TYPE_MASK != EXT4_S_IFREG {
            return false;
        }
        if info.size == 0 || info.size > EXTERNAL_APP_MAX_SIZE as u64 {
            return false;
        }
        let mut command = ScriptCommand::zero();
        command.path = copy_path(path);
        push_script_command_arg(&mut command, path);
        proof {
            assert(command_view(command).1 =~= seq![clip(path@, 64)]);
        }
        let total: usize = line.len();
        let mut ni = next_index;
        proof {
            let rest = tokens_from(line@, ni as int).map_values(|t: Seq<u8>| clip(t, 64));
            assert(command_view(command).1 + rest =~= seq![clip(path@, 64)] + rest);
        }
        loop
            invariant_except_break
                take_at_most(command_view(command).1 + tokens_from(line@, ni as int).map_values(|t: Seq<u8>| clip(t, 64)), 8)
                    == command_args(path@, line@, next_index as int),
            invariant
                command.wf(),
                total == line@.len(),
                command.path@ == clip(path@, 128),
            ensures
                command.wf(),
                command.path@ == clip(path@, 128),
                command_view(command).1 == command_args(path@, line@, next_index as int),
            decreases total - ni,
        {
            match next_token(line, ni) {
                Some((arg_start, arg_end, next)) => {
                    let arg = copy_range(line, arg_start, arg_end);
                    let ghost before = command_view(command).1;
                    let ghost tok = line@.subrange(arg_start as int, arg_end as int);
                    let pushed = push_script_command_arg(&mut command, arg.as_slice());
                    proof {
                        lemma_args_step(before, clip(tok, 64), if ni < next <= total {
                            tokens_from(line@, next as int).map_values(|t: Seq<u8>| clip(t, 64))
                        } else {
                            Seq::empty()
                        });
                        assert(arg@ == tok);
                        if ni < next <= total {
                            assert(tokens_from(line@, ni as int).map_values(|t: Seq<u8>| clip(t, 64))
                                =~= seq![clip(tok, 64)] + tokens_from(line@, next as int).map_values(|t: Seq<u8>| clip(t, 64)));
                        } else {
                            assert(tokens_from(line@, ni as int).map_values(|t: Seq<u8>| clip(t, 64))
                                =~= seq![clip(tok, 64)]);
                            assert(seq![clip(tok, 64)] + Seq::<Seq<u8>>::empty() =~= seq![clip(tok, 64)]);
                            assert(command_view(command).1 + Seq::<Seq<u8>>::empty() =~= command_view(command).1);
                        }
                    }
                    if next <= ni || next > total {
                        proof {
                            assert(command_view(command).1.len() <= 8);
                        }
                        break;
                    }
                    ni = next;
                },
                None => {
                    proof {
                        assert(tokens_from(line@, ni as int) =~= Seq::<Seq<u8>>::empty());
                        assert(command_view(command).1 + Seq::<Seq<u8>>::empty() =~= command_view(command).1);
                    }
                    break;
                },
            }
        }
        let ghost before = self.commands@;
        self.commands.push(command);
        proof {
            assert(self.queue_spec() =~= before.map_values(|c: ScriptCommand| command_view(c)).push(command_view(command)));
            assert forall|i: int| 0 <= i < self.commands@.len() implies (#[trigger] self.commands@[i]).wf() by {
                if i < before.len() {
                    assert(self.commands@[i] == before[i]);
                }
            }
        }
        true
    }

    /// Loads the queued command `command`: its arguments go to the loader, and its program
    /// becomes the external program when it can be one.
    fn load_script_command(&mut self, disk: &[u8], fs: &Ext4Fs, command: &ScriptCommand) -> (r: bool)
        requires
            old(self).wf(),
            fs.wf(),
            command.wf(),
        ensures
            final(self).wf(),
            r == command_loads(disk@, *fs, command.path@),
            r ==> final(self).loader_spec().app_spec() == program_image(disk@, *fs,
                    lookup(disk@, *fs, command.path@)->Ok_0->0)->0
                && final(self).loader_spec().ready_spec()
                && final(self).loader_spec().cwd_spec() == cwd_of(command.path@)
                && final(self).loader_spec().args_spec() == command_view(*command).1
                && final(self).lines_spec() == old(self).lines_spec().push(
                    (LineKind::SelectedElf, command.path@, 0usize, None::<Ext4Error>)),
            !r ==> final(self).loader_spec().app_spec() == old(self).loader_spec().app_spec()
                && final(self).loader_spec().ready_spec() == old(self).loader_spec().ready_spec()
                && final(self).loader_spec().cwd_spec() == old(self).loader_spec().cwd_spec()
                && final(self).lines_spec() == old(self).lines_spec(),
            final(self).loader_spec().group_spec() == old(self).loader_spec().group_spec(),
            final(self).fs_spec() == old(self).fs_spec(),
            final(self).commands@ == old(self).commands@,
            final(self).next_spec() == old(self).next_spec(),
    {
        if command.path.len() == 0 {
            return false;
        }
        let info = match lookup_path(disk, fs, command.path.as_slice()) {
            Ok(Some(info)) => info,
            _ => return false,
        };
        self.loader.clear_external_args();
        let mut index: usize = 0;
        while index < command.args.len()
            invariant
                index <= command.args@.len(),
                command.wf(),
                self.loader.args_spec() == command_view(*command).1.subrange(0, index as int),
                self.loader.app_spec() == old(self).loader_spec().app_spec(),
                self.loader.ready_spec() == old(self).loader_spec().ready_spec(),
                self.loader.cwd_spec() == old(self).loader_spec().cwd_spec(),
                self.loader.group_spec() == old(self).loader_spec().group_spec(),
                self.fs == old(self).fs,
                self.commands@ == old(self).commands@,
                self.next == old(self).next,
                self.lines@ == old(self).lines@,
            decreases command.args@.len() - index,
        {
            let ghost before = self.loader.args_spec();
            self.loader.push_external_arg(command.args[index].as_slice());
            assert(self.loader.args_spec() =~= command_view(*command).1.subrange(0, index + 1));
            index = index + 1;
        }
        assert(command_view(*command).1.subrange(0, index as int) =~= command_view(*command).1);
        self.load_external_file(disk, fs, command.path.as_slice(), info, true)
    }

    /// Loads the next queued command whose program can be the external program.
    pub fn load_next_queued_external(&mut self, disk: &[u8]) -> (r: bool)
        requires
            old(self).wf(),
        ensures
            final(self).wf(),
            final(self).fs_spec() == old(self).fs_spec(),
            final(self).queue_spec() == old(self).queue_spec(),
            final(self).loader_spec().group_spec() == old(self).loader_spec().group_spec(),
            final(self).lines_spec().len() >= old(self).lines_spec().len(),
            final(self).lines_spec().subrange(0, old(self).lines_spec().len() as int) == old(self).lines_spec(),
            old(self).fs_spec() is None ==> !r && *final(self) == *old(self),
            old(self).fs_spec() matches Some(fs) ==> {
                let j = first_loadable(disk@, fs, old(self).queue_spec(), old(self).next_spec());
                &&& r == j is Some
                &&& r ==> final(self).next_spec() == j->0 + 1
                    && final(self).loader_spec().ready_spec()
                    && final(self).loader_spec().args_spec() == old(self).queue_spec()[j->0].1
                    && final(self).loader_spec().cwd_spec() == cwd_of(old(self).queue_spec()[j->0].0)
                &&& !r ==> final(self).next_spec() == old(self).queue_spec().len()
                    && final(self).loader_spec().app_spec() == old(self).loader_spec().app_spec()
                    && final(self).loader_spec().ready_spec() == old(self).loader_spec().ready_spec()
            },
    {
        let fs = match self.mounted_fs() {
            Some(fs) => fs,
            None => return false,
        };
        let ghost q = self.queue_spec();
        loop
            invariant
                self.wf(),
                self.fs == Some(fs),
                old(self).fs_spec() == Some(fs),
                self.queue_spec() == q,
                q == old(self).queue_spec(),
                old(self).next_spec() <= self.next_spec() <= q.len(),
                first_loadable(disk@, fs, q, old(self).next_spec()) == first_loadable(disk@, fs, q, self.next_spec()),
                self.loader.app_spec() == old(self).loader_spec().app_spec(),
                self.loader.ready_spec() == old(self).loader_spec().ready_spec(),
                self.loader.group_spec() == old(self).loader_spec().group_spec(),
                self.lines_spec().len() >= old(self).lines_spec().len(),
                self.lines_spec().subrange(0, old(self).lines_spec().len() as int) == old(self).lines_spec(),
            decreases q.len() - self.next_spec(),
        {
            if self.next >= self.commands.len() {
                return false;
            }
            let index = self.next;
            self.next = self.next + 1;
            let command = clone_command(&self.commands[index]);
            proof {
                assert(command_view(command) == q[index as int]);
                assert(self.commands@[index as int].wf());
            }
            let ghost mid = *self;
            let loaded = self.load_script_command(disk, &fs, &command);
            proof {
                assert(self.lines_spec().subrange(0, old(self).lines_spec().len() as int)
                    =~= mid.lines_spec().subrange(0, old(self).lines_spec().len() as int));
            }
            if loaded {
                return true;
            }
        }
    }
}

/// What one line of a test script asks for.
pub enum LineAction {
    /// Nothing: an empty line, a comment, `cd` without a directory, `busybox echo`, or a
    /// command that resolves to nothing.
    Nothing,
    /// `cd`: the new working directory.
    ChangeDir(Seq<u8>),
    /// Running another script at this path.
    Nested(Seq<u8>),
    /// Running the program at this path, with arguments from this index of the line.
    Run(Seq<u8>, int),
}

/// What `line` asks for in working directory `cwd`.
pub open spec fn line_action(line: Seq<u8>, cwd: Seq<u8>) -> LineAction {
    match token_at(line, 0) {
        None => LineAction::Nothing,
        Some(t) => {
            let cmd = line.subrange(t.0, t.1);
            if cmd.len() == 0 || cmd[0] == 35u8 {
                LineAction::Nothing
            } else if cmd == crate::text::cd_word_spec() {
                match token_at(line, t.2) {
                    Some(a) => LineAction::ChangeDir(crate::script::resolve(cwd, line.subrange(a.0, a.1))),
                    None => LineAction::Nothing,
                }
            } else if crate::script::busybox_echo(cmd, line, t.2) {
                LineAction::Nothing
            } else {
                let p = crate::script::resolve(cwd, cmd);
                if p.len() == 0 {
                    LineAction::Nothing
                } else if crate::bytes::has_suffix(p, crate::text::sh_suffix_spec()) {
                    LineAction::Nested(p)
                } else {
                    LineAction::Run(p, t.2)
                }
            }
        },
    }
}

/// A word that a script line holds as one token as it stands: not empty, with no
/// delimiter in it, and opening neither a comment nor a quote.
pub open spec fn plain_word(w: Seq<u8>) -> bool {
    &&& w.len() > 0
    &&& w[0] != 35u8 && w[0] != 34u8 && w[0] != 39u8
    &&& forall|k: int| 0 <= k < w.len() ==> !crate::script::is_token_end(#[trigger] w[k])
}

/// The line `cd DIR` moves the working directory to `DIR` resolved against it (so the
/// lines after it resolve their commands there), and a bare `cd` leaves it alone.
pub proof fn lemma_cd_line_changes_dir(dir: Seq<u8>, cwd: Seq<u8>)
    requires
        plain_word(dir),
    ensures
        line_action(crate::text::cd_word_spec() + seq![32u8] + dir, cwd)
            == LineAction::ChangeDir(crate::script::resolve(cwd, dir)),
        line_action(crate::text::cd_word_spec(), cwd) == LineAction::Nothing,
{
    let cd = crate::text::cd_word_spec();
    let line = cd + seq![32u8] + dir;
    assert(line.len() == 3 + dir.len());
    assert(line[0] == 99u8 && line[1] == 100u8 && line[2] == 32u8);
    assert forall|k: int| 3 <= k < line.len() implies !crate::script::is_token_end(#[trigger] line[k]) by {
        assert(line[k] == dir[k - 3]);
    }
    assert(line[3] == dir[0]);
    assert(crate::script::skip_seps(line, 0) == 0);
    assert(crate::script::token_scan(line, 2, 0u8) == 2);
    assert(crate::script::token_scan(line, 1, 0u8) == 2);
    assert(crate::script::token_scan(line, 0, 0u8) == 2);
    assert(crate::script::token_at(line, 0) == Some((0int, 2int, 2int)));
    assert(line.subrange(0, 2) =~= cd);
    assert(crate::script::skip_seps(line, 3) == 3);
    assert(crate::script::skip_seps(line, 2) == 3);
    crate::script::lemma_token_scan_to_end(line, 3);
    assert(crate::script::token_at(line, 2) == Some((3int, line.len() as int, line.len() as int)));
    assert(line.subrange(3, line.len() as int) =~= dir);
    // A bare `cd`: its one token, and nothing after it.
    assert(crate::script::skip_seps(cd, 0) == 0);
    assert(crate::script::token_scan(cd, 2, 0u8) == 2);
    assert(crate::script::token_scan(cd, 1, 0u8) == 2);
    assert(crate::script::token_scan(cd, 0, 0u8) == 2);
    assert(crate::script::token_at(cd, 0) == Some((0int, 2int, 2int)));
    assert(cd.subrange(0, 2) =~= cd);
    assert(crate::script::skip_seps(cd, 2) == 2);
    assert(crate::script::token_at(cd, 2) is None);
}

/// A line that is one command word other than `cd` names the file that word resolves to
/// in the working directory: another script where it ends in `.sh`, else a program to
/// run with no arguments; nothing where the word resolves to no path.
pub proof fn lemma_command_line_resolves(cmd: Seq<u8>, cwd: Seq<u8>)
    requires
        plain_word(cmd),
        cmd != crate::text::cd_word_spec(),
    ensures
        ({
            let p = crate::script::resolve(cwd, cmd);
            line_action(cmd, cwd) == if p.len() == 0 {
                LineAction::Nothing
            } else if crate::bytes::has_suffix(p, crate::text::sh_suffix_spec()) {
                LineAction::Nested(p)
            } else {
                LineAction::Run(p, cmd.len() as int)
            }
        }),
{
    assert(crate::script::skip_seps(cmd, 0) == 0);
    crate::script::lemma_token_scan_to_end(cmd, 0);
    assert(crate::script::token_at(cmd, 0) == Some((0int, cmd.len() as int, cmd.len() as int)));
    assert(cmd.subrange(0, cmd.len() as int) =~= cmd);
    assert(crate::script::skip_seps(cmd, cmd.len() as int) == cmd.len());
    assert(crate::script::token_at(cmd, cmd.len() as int) is None);
    assert(!crate::script::busybox_echo(cmd, cmd, cmd.len() as int));
}

/// The bytes of a script the driver reads: at most `SCRIPT_BUFFER_SIZE`.
pub open spec fn script_of(d: Seq<u8>, fs: Ext4Fs, ino: u32) -> Result<Seq<u8>, Ext4Error> {
    match inode_of(d, fs, ino) {
        Err(e) => Err(e),
        Ok(i) => {
            let size = crate::ext4::inode_size_of(i);
            inode_data(d, fs, i, if size < SCRIPT_BUFFER_SIZE { size } else { SCRIPT_BUFFER_SIZE as int })
        },
    }
}

/// `dir/name`, or `name` at the root: how a found script is named.
pub open spec fn script_display(dir: Seq<u8>, name: Seq<u8>) -> Seq<u8> {
    if dir.len() == 0 { name } else { dir + crate::text::slash_spec() + name }
}

impl Ext4Driver {
    /// The state every collecting step keeps: the same file system, loader and lines, and a
    /// queue that only grows.
    pub open spec fn collects_from(&self, old: Ext4Driver) -> bool {
        &&& self.wf()
        &&& self.fs_spec() == old.fs_spec()
        &&& self.loader_spec() == old.loader_spec()
        &&& self.lines_spec() == old.lines_spec()
        &&& self.next_spec() == old.next_spec()
        &&& old.queue_spec().len() <= self.queue_spec().len()
        &&& forall|i: int| 0 <= i < old.queue_spec().len() ==> #[trigger] self.queue_spec()[i] == old.queue_spec()[i]
    }

    /// Queues the commands of the script at `path`, run in `cwd`, unless scripts are nested
    /// too deep or the script is empty, larger than the buffer, or cannot be read.
    /// Says whether it queued one.
    fn collect_nested_script(&mut self, disk: &[u8], fs: &Ext4Fs, path: &[u8], cwd: &[u8], depth: usize) -> (r: bool)
        requires
            old(self).wf(),
            fs.wf(),
            cwd@.len() <= 128,
            depth <= MAX_SCRIPT_DEPTH + 1,
        ensures
            final(self).collects_from(*old(self)),
            r == (final(self).queue_spec().len() > old(self).queue_spec().len()),
            depth > MAX_SCRIPT_DEPTH ==> !r && *final(self) == *old(self),
        decreases MAX_SCRIPT_DEPTH + 2 - depth, 0int,
    {
        if depth > MAX_SCRIPT_DEPTH {
            return false;
        }
        let info = match lookup_path(disk, fs, path) {
            Ok(Some(info)) => info,
            _ => return false,
        };
        if info.size == 0 || info.size > SCRIPT_BUFFER_SIZE as u64 {
            return false;
        }
        let read_len = info.size as usize;
        let script = match read_root_file_into(disk, fs, info, read_len) {
            Ok(s) => s,
            Err(_) => return false,
        };
        self.collect_commands_from_script(disk, fs, script.as_slice(), cwd, depth)
    }

    /// Acts on one line of a script in working directory `cwd`: `cd` changes `cwd`, another
    /// script is read and its commands queued, a program is queued. Says whether a command
    /// was queued.
    fn collect_command_from_line(&mut self, disk: &[u8], fs: &Ext4Fs, line: &[u8], cwd: &mut Vec<u8>, depth: usize) -> (r: bool)
        requires
            old(self).wf(),
            fs.wf(),
            old(cwd)@.len() <= 128,
            depth <= MAX_SCRIPT_DEPTH,
        ensures
            final(self).collects_from(*old(self)),
            final(cwd)@.len() <= 128,
            r == (final(self).queue_spec().len() > old(self).queue_spec().len()),
            match line_action(line@, old(cwd)@) {
                LineAction::Nothing => !r && final(cwd)@ == old(cwd)@ && *final(self) == *old(self),
                LineAction::ChangeDir(p) => !r && final(cwd)@ == p && *final(self) == *old(self),
                LineAction::Nested(_) => final(cwd)@ == old(cwd)@,
                LineAction::Run(p, next) => final(cwd)@ == old(cwd)@ && (r == (old(self).queue_spec().len()
                    < SCRIPT_COMMAND_MAX && match lookup(disk@, *fs, p) {
                        Ok(Some(info)) => is_regular(info) && info.size != 0 && info.size <= EXTERNAL_APP_MAX_SIZE,
                        _ => false,
                    })) && (r ==> final(self).queue_spec() == old(self).queue_spec().push(
                        (clip(p, 128), command_args(p, line@, next)))),
            },
        decreases MAX_SCRIPT_DEPTH + 1 - depth, 1int,
    {
        let (cmd_start, cmd_end, next_index) = match next_token(line, 0) {
            Some(t) => t,
            None => return false,
        };
        let command = copy_range(line, cmd_start, cmd_end);
        if command.len() == 0 || command[0] == 35u8 {
            return false;
        }
        let cd = crate::text::cd_word();
        if crate::bytes::bytes_eq(command.as_slice(), cd.as_slice()) {
            match next_token(line, next_index) {
                Some((arg_start, arg_end, _)) => {
                    let arg = copy_range(line, arg_start, arg_end);
                    let next_cwd = crate::script::resolve_path(cwd.as_slice(), arg.as_slice());
                    *cwd = next_cwd;
                },
                None => {},
            }
            return false;
        }
        if crate::script::is_busybox_echo(command.as_slice(), line, next_index) {
            return false;
        }
        let path = crate::script::resolve_path(cwd.as_slice(), command.as_slice());
        if path.len() == 0 {
            return false;
        }
        let sh = crate::text::sh_suffix();
        if crate::bytes::ends_with(path.as_slice(), sh.as_slice()) {
            let r = self.collect_nested_script(disk, fs, path.as_slice(), cwd.as_slice(), depth + 1);
            return r;
        }
        self.enqueue_elf_command(disk, fs, path.as_slice(), line, next_index)
    }

    /// Queues the commands of every line of `script`, run from `initial_cwd`. Says whether
    /// one was queued.
    fn collect_commands_from_script(&mut self, disk: &[u8], fs: &Ext4Fs, script: &[u8], initial_cwd: &[u8], depth: usize)
        -> (r: bool)
        requires
            old(self).wf(),
            fs.wf(),
            depth <= MAX_SCRIPT_DEPTH,
        ensures
            final(self).collects_from(*old(self)),
            r == (final(self).queue_spec().len() > old(self).queue_spec().len()),
        decreases MAX_SCRIPT_DEPTH + 1 - depth, 2int,
    {
        let mut cwd = copy_path(initial_cwd);
        let mut line_start: usize = 0;
        let mut queued = false;
        let ghost start = *self;
        while line_start < script.len()
            invariant
                self.collects_from(start),
                start == *old(self),
                fs.wf(),
                depth <= MAX_SCRIPT_DEPTH,
                cwd@.len() <= 128,
                queued == (self.queue_spec().len() > start.queue_spec().len()),
            decreases script@.len() - line_start,
        {
            let line_end = crate::script::find_line_end(script, line_start);
            proof {
                crate::script::lemma_line_end(script@, line_start as int);
            }
            let line = copy_range(script, line_start, line_end);
            let ghost mid = *self;
            if self.collect_command_from_line(disk, fs, line.as_slice(), &mut cwd, depth) {
                queued = true;
            }
            line_start = if line_end < script.len() { line_end + 1 } else { script.len() };
        }
        queued
    }

    /// Starts over the queue with the commands of `script` and loads the first one that can
    /// run, unless an external program is ready already.
    fn try_load_first_command_from_script(&mut self, disk: &[u8], fs: &Ext4Fs, script: &[u8], initial_cwd: &[u8],
        depth: usize) -> (r: bool)
        requires
            old(self).wf(),
            fs.wf(),
            old(self).fs_spec() == Some(*fs),
            depth <= MAX_SCRIPT_DEPTH,
        ensures
            final(self).wf(),
            final(self).fs_spec() == old(self).fs_spec(),
            old(self).loader_spec().ready_spec() ==> !r && *final(self) == *old(self),
            r ==> final(self).loader_spec().ready_spec(),
            !r ==> final(self).loader_spec().app_spec() == old(self).loader_spec().app_spec()
                && final(self).loader_spec().ready_spec() == old(self).loader_spec().ready_spec(),
            final(self).loader_spec().group_spec() == old(self).loader_spec().group_spec(),
            final(self).lines_spec().len() >= old(self).lines_spec().len(),
            final(self).lines_spec().subrange(0, old(self).lines_spec().len() as int) == old(self).lines_spec(),
    {
        if self.loader.has_external_app() {
            return false;
        }
        self.clear_script_command_queue();
        if !self.collect_commands_from_script(disk, fs, script, initial_cwd, depth) {
            return false;
        }
        let ghost mid = *self;
        let r = self.load_next_queued_external(disk);
        proof {
            assert(self.lines_spec().subrange(0, mid.lines_spec().len() as int) =~= mid.lines_spec()) by {
                if r {
                    assert(self.lines_spec().subrange(0, mid.lines_spec().len() as int) =~= mid.lines_spec());
                }
            }
        }
        r
    }
}

/// What scanning keeps: the invariant, the file system, and, once an external program is
/// ready, everything else too.
pub open spec fn lines_extend<L>(a: Seq<L>, b: Seq<L>) -> bool {
    a.len() <= b.len() && forall|i: int| 0 <= i < a.len() ==> #[trigger] b[i] == a[i]
}

proof fn lemma_lines_extend_trans<L>(a: Seq<L>, b: Seq<L>, c: Seq<L>)
    requires
        lines_extend(a, b),
        lines_extend(b, c),
    ensures
        lines_extend(a, c),
{
    assert forall|i: int| 0 <= i < a.len() implies #[trigger] c[i] == a[i] by {
        assert(c[i] == b[i]);
    }
}

/// What scanning one directory data block gives: an error only where the block cannot
/// be read; what its entries hold is scanned and never fails the scan.
pub open spec fn block_scan(d: Seq<u8>, fs: Ext4Fs, b: int) -> Result<(), Ext4Error> {
    match crate::ext4::fs_block(d, fs, b) {
        Err(e) => Err(e),
        Ok(_) => Ok(()),
    }
}

/// What scanning the direct blocks of a directory inode from block `index` on gives: the
/// blocks are scanned in order up to the first zero block number or the first block past
/// the directory's size; the first that cannot be read fails the scan.
pub open spec fn direct_scan(d: Seq<u8>, fs: Ext4Fs, inode: Seq<u8>, file_size: int, index: int) -> Result<
    (),
    Ext4Error,
>
    decreases 12 - index,
{
    if index < 0 || index >= 12 {
        Ok(())
    } else {
        let block_no = crate::bytes::le32(inode, 40 + index * 4);
        if block_no == 0 || index * fs.block_size >= file_size {
            Ok(())
        } else {
            match block_scan(d, fs, block_no) {
                Err(e) => Err(e),
                Ok(()) => direct_scan(d, fs, inode, file_size, index + 1),
            }
        }
    }
}

/// What scanning blocks `bi..len` of one extent gives: the first block past the
/// directory's size ends the scan; the first that cannot be read fails it.
pub open spec fn extent_blocks_scan(d: Seq<u8>, fs: Ext4Fs, size: int, logical: int, len: int, physical: int,
    bi: int) -> Result<(), Ext4Error>
    decreases len - bi,
{
    if bi >= len || bi < 0 {
        Ok(())
    } else if (logical + bi) * fs.block_size >= size {
        Ok(())
    } else {
        match block_scan(d, fs, physical + bi) {
            Err(e) => Err(e),
            Ok(()) => extent_blocks_scan(d, fs, size, logical, len, physical, bi + 1),
        }
    }
}

/// What scanning extent entries `idx..` of leaf node `n` gives.
pub open spec fn leaf_entries_scan(d: Seq<u8>, fs: Ext4Fs, n: Seq<u8>, size: int, idx: int) -> Result<
    (),
    Ext4Error,
>
    decreases crate::bytes::le16(n, 2) - idx,
{
    if idx >= crate::bytes::le16(n, 2) || idx < 0 {
        Ok(())
    } else {
        let off = 12 + idx * 12;
        if off + 12 > n.len() {
            Err(Ext4Error::ExtentEntry)
        } else {
            match extent_blocks_scan(
                d,
                fs,
                size,
                crate::ext4::ext_logical(n, off),
                crate::ext4::ext_len(n, off),
                crate::ext4::ext_physical(n, off),
                0,
            ) {
                Err(e) => Err(e),
                Ok(()) => leaf_entries_scan(d, fs, n, size, idx + 1),
            }
        }
    }
}

/// What scanning the blocks under extent leaf node `n` gives.
pub open spec fn leaf_scan(d: Seq<u8>, fs: Ext4Fs, n: Seq<u8>, size: int) -> Result<(), Ext4Error> {
    if !crate::ext4::extent_header_ok(n) {
        Err(Ext4Error::ExtentHeader)
    } else if crate::bytes::le16(n, 6) != 0 {
        Err(Ext4Error::ExtentLeaf)
    } else {
        leaf_entries_scan(d, fs, n, size, 0)
    }
}

/// What scanning the leaves that index entries `idx..` of root `n` point at gives.
pub open spec fn index_scan(d: Seq<u8>, fs: Ext4Fs, n: Seq<u8>, size: int, idx: int) -> Result<(), Ext4Error>
    decreases crate::bytes::le16(n, 2) - idx,
{
    if idx >= crate::bytes::le16(n, 2) || idx < 0 {
        Ok(())
    } else {
        let off = 12 + idx * 12;
        if off + 12 > n.len() {
            Err(Ext4Error::ExtentIndex)
        } else {
            match crate::ext4::fs_block(d, fs, crate::ext4::index_leaf_of(n, off)) {
                Err(e) => Err(e),
                Ok(leaf) => match leaf_scan(d, fs, leaf, size) {
                    Err(e) => Err(e),
                    Ok(()) => index_scan(d, fs, n, size, idx + 1),
                },
            }
        }
    }
}

/// What scanning a directory whose extent tree root is `n` (depth 0 or 1) gives.
pub open spec fn tree_scan(d: Seq<u8>, fs: Ext4Fs, n: Seq<u8>, size: int) -> Result<(), Ext4Error> {
    if !crate::ext4::extent_header_ok(n) {
        Err(Ext4Error::ExtentHeader)
    } else if crate::bytes::le16(n, 6) == 0 {
        leaf_scan(d, fs, n, size)
    } else if crate::bytes::le16(n, 6) != 1 {
        Err(Ext4Error::ExtentDepth)
    } else {
        index_scan(d, fs, n, size, 0)
    }
}

/// What scanning directory inode `ino` gives: whether its inode, its block map and its
/// blocks can all be read. What is found in those blocks never fails the scan.
pub open spec fn dir_scan(d: Seq<u8>, fs: Ext4Fs, ino: u32) -> Result<(), Ext4Error> {
    match inode_of(d, fs, ino) {
        Err(e) => Err(e),
        Ok(i) => if crate::ext4::mode_type(i) != crate::ext4::EXT4_S_IFDIR {
            Err(Ext4Error::NotDirectory)
        } else if crate::ext4::uses_extents(i) {
            tree_scan(d, fs, i.subrange(40, 100), crate::ext4::inode_size_of(i))
        } else {
            direct_scan(d, fs, i, crate::ext4::inode_size_of(i), 0)
        },
    }
}

pub open spec fn scan_keeps(before: Ext4Driver, after: Ext4Driver, found0: usize, found1: usize) -> bool {
    &&& after.wf()
    &&& after.fs_spec() == before.fs_spec()
    &&& lines_extend(before.lines_spec(), after.lines_spec())
    &&& before.loader_spec().ready_spec() ==> after == before && found1 == found0
    &&& after.loader_spec().group_spec() != before.loader_spec().group_spec() ==> after.loader_spec().ready_spec()
}

proof fn lemma_scan_keeps_trans(a: Ext4Driver, b: Ext4Driver, c: Ext4Driver, f0: usize, f1: usize, f2: usize)
    requires
        scan_keeps(a, b, f0, f1),
        scan_keeps(b, c, f1, f2),
    ensures
        scan_keeps(a, c, f0, f2),
{
    lemma_lines_extend_trans(a.lines_spec(), b.lines_spec(), c.lines_spec());
    if c.loader_spec().group_spec() != a.loader_spec().group_spec() {
        if b.loader_spec().group_spec() != a.loader_spec().group_spec() {
            assert(b.loader_spec().ready_spec());
            assert(c == b);
        }
    }
}

proof fn lemma_scan_keeps_refl(a: Ext4Driver, f: usize)
    requires
        a.wf(),
    ensures
        scan_keeps(a, a, f, f),
{
}

impl Ext4Driver {
    /// Sets the loader's test group from the script: the name its first start marker
    /// gives, else the script's own name without `_testcode.sh`.
    fn set_external_group_from_script(&mut self, name: &[u8], script: &[u8])
        requires
            name@.len() >= 12,
        ensures
            final(self).loader_spec().group_spec() == {
                let g = crate::script::group_of_script(name@, script@);
                g.subrange(0, if g.len() < 32 { g.len() as int } else { 32 })
            },
            final(self).loader_spec().app_spec() == old(self).loader_spec().app_spec(),
            final(self).loader_spec().ready_spec() == old(self).loader_spec().ready_spec(),
            final(self).loader_spec().cwd_spec() == old(self).loader_spec().cwd_spec(),
            final(self).loader_spec().args_spec() == old(self).loader_spec().args_spec(),
            final(self).fs_spec() == old(self).fs_spec(),
            final(self).commands@ == old(self).commands@,
            final(self).next_spec() == old(self).next_spec(),
            final(self).lines_spec() == old(self).lines_spec(),
    {
        match crate::script::first_group_start_name(script) {
            Some(group) => self.loader.set_external_group(group.as_slice()),
            None => self.set_external_group_from_script_name(name),
        }
    }

    /// Sets the loader's test group to the script's name without `_testcode.sh`.
    fn set_external_group_from_script_name(&mut self, name: &[u8])
        requires
            name@.len() >= 12,
        ensures
            final(self).loader_spec().group_spec() == {
                let g = crate::script::script_group(name@);
                g.subrange(0, if g.len() < 32 { g.len() as int } else { 32 })
            },
            final(self).loader_spec().app_spec() == old(self).loader_spec().app_spec(),
            final(self).loader_spec().ready_spec() == old(self).loader_spec().ready_spec(),
            final(self).loader_spec().cwd_spec() == old(self).loader_spec().cwd_spec(),
            final(self).loader_spec().args_spec() == old(self).loader_spec().args_spec(),
            final(self).fs_spec() == old(self).fs_spec(),
            final(self).commands@ == old(self).commands@,
            final(self).next_spec() == old(self).next_spec(),
            final(self).lines_spec() == old(self).lines_spec(),
    {
        let group = copy_range(name, 0, name.len() - 12);
        self.loader.set_external_group(group.as_slice());
    }

    /// Prints both made-up markers for the script `name`.
    fn emit_fallback_group_markers(&mut self, name: &[u8])
        requires
            name@.len() >= 12,
        ensures
            final(self).lines_spec() == old(self).lines_spec()
                .push((LineKind::Marker, crate::script::fallback_start_spec(name@), 0usize, None::<Ext4Error>))
                .push((LineKind::Marker, crate::script::fallback_end_spec(name@), 0usize, None::<Ext4Error>)),
            final(self).fs_spec() == old(self).fs_spec(),
            final(self).commands@ == old(self).commands@,
            final(self).next_spec() == old(self).next_spec(),
            final(self).loader_spec() == old(self).loader_spec(),
    {
        let start = crate::script::fallback_group_start(name);
        self.print(LineKind::Marker, start, 0, None);
        let end = crate::script::fallback_group_end(name);
        self.print(LineKind::Marker, end, 0, None);
    }

    /// Prints each of `markers`.
    fn emit_markers(&mut self, markers: &Vec<Vec<u8>>)
        ensures
            final(self).lines_spec() == old(self).lines_spec() + markers@.map_values(
                |l: Vec<u8>| (LineKind::Marker, l@, 0usize, None::<Ext4Error>)),
            final(self).fs_spec() == old(self).fs_spec(),
            final(self).commands@ == old(self).commands@,
            final(self).next_spec() == old(self).next_spec(),
            final(self).loader_spec() == old(self).loader_spec(),
    {
        let mut i: usize = 0;
        while i < markers.len()
            invariant
                i <= markers@.len(),
                self.lines_spec() == old(self).lines_spec() + markers@.subrange(0, i as int).map_values(
                    |l: Vec<u8>| (LineKind::Marker, l@, 0usize, None::<Ext4Error>)),
                self.fs_spec() == old(self).fs_spec(),
                self.commands@ == old(self).commands@,
                self.next_spec() == old(self).next_spec(),
                self.loader_spec() == old(self).loader_spec(),
            decreases markers@.len() - i,
        {
            let line = copy_range(markers[i].as_slice(), 0, markers[i].len());
            assert(line@ =~= markers@[i as int]@);
            self.print(LineKind::Marker, line, 0, None);
            assert(markers@.subrange(0, i + 1).map_values(|l: Vec<u8>| (LineKind::Marker, l@, 0usize, None::<Ext4Error>))
                =~= markers@.subrange(0, i as int).map_values(|l: Vec<u8>| (LineKind::Marker, l@, 0usize, None::<Ext4Error>))
                .push((LineKind::Marker, markers@[i as int]@, 0usize, None::<Ext4Error>)));
            assert(self.lines_spec() =~= old(self).lines_spec() + markers@.subrange(0, i + 1).map_values(
                |l: Vec<u8>| (LineKind::Marker, l@, 0usize, None::<Ext4Error>)));
            i = i + 1;
        }
        assert(markers@.subrange(0, i as int) =~= markers@);
    }

    /// Handles the test script `name` with inode `inode_no` in `dir_path`, unless an
    /// external program is ready: counts and announces it, reads it, and loads the first
    /// command it runs, printing its group start marker and taking its group; when none
    /// loads, prints its group markers. Says whether a command was loaded.
    fn handle_test_script(&mut self, disk: &[u8], fs: &Ext4Fs, inode_no: u32, dir_path: &[u8], name: &[u8],
        found: &mut usize) -> (r: bool)
        requires
            old(self).wf(),
            fs.wf(),
            old(self).fs_spec() == Some(*fs),
            name@.len() >= 12,
        ensures
            scan_keeps(*old(self), *final(self), *old(found), *final(found)),
            old(self).loader_spec().ready_spec() ==> !r,
            !old(self).loader_spec().ready_spec() ==> *final(found) == (if *old(found) < usize::MAX {
                *old(found) + 1 } else { 0 })
                && final(self).lines_spec()[old(self).lines_spec().len() as int]
                == (LineKind::FoundScript, script_display(dir_path@, name@), 0usize, None::<Ext4Error>),
            r ==> final(self).loader_spec().ready_spec() && script_of(disk@, *fs, inode_no) is Ok
                && final(self).loader_spec().group_spec() == {
                    let g = crate::script::group_of_script(name@, script_of(disk@, *fs, inode_no)->Ok_0);
                    g.subrange(0, if g.len() < 32 { g.len() as int } else { 32 })
                },
    {
        if self.loader.has_external_app() {
            return false;
        }
        let ghost start = *self;
        *found = if *found < usize::MAX { *found + 1 } else { 0 };
        let display = if dir_path.len() == 0 {
            copy_range(name, 0, name.len())
        } else {
            let mut v = copy_range(dir_path, 0, dir_path.len());
            let slash = crate::text::slash();
            crate::bytes::extend_from(&mut v, slash.as_slice());
            crate::bytes::extend_from(&mut v, name);
            v
        };
        proof {
            assert(display@ =~= script_display(dir_path@, name@));
        }
        self.print(LineKind::FoundScript, display, 0, None);
        let ghost announced = *self;
        proof {
            assert(lines_extend(start.lines_spec(), announced.lines_spec()));
        }
        let script = match read_script(disk, fs, inode_no) {
            Ok(s) => s,
            Err(_) => {
                self.emit_fallback_group_markers(name);
                proof {
                    assert(lines_extend(announced.lines_spec(), self.lines_spec()));
                    lemma_lines_extend_trans(start.lines_spec(), announced.lines_spec(), self.lines_spec());
                }
                return false;
            },
        };
        if self.try_load_first_command_from_script(disk, fs, script.as_slice(), dir_path, 0) {
            let ghost loaded = *self;
            proof {
                assert(lines_extend(announced.lines_spec(), loaded.lines_spec())) by {
                    assert forall|i: int| 0 <= i < announced.lines_spec().len() implies
                        #[trigger] loaded.lines_spec()[i] == announced.lines_spec()[i] by {
                        assert(loaded.lines_spec().subrange(0, announced.lines_spec().len() as int)[i]
                            == loaded.lines_spec()[i]);
                    }
                }
            }
            let line = crate::script::group_start_from_script_or_fallback(name, script.as_slice());
            self.print(LineKind::Marker, line, 0, None);
            self.set_external_group_from_script(name, script.as_slice());
            proof {
                assert(lines_extend(loaded.lines_spec(), self.lines_spec()));
                lemma_lines_extend_trans(announced.lines_spec(), loaded.lines_spec(), self.lines_spec());
                lemma_lines_extend_trans(start.lines_spec(), announced.lines_spec(), self.lines_spec());
            }
            return true;
        }
        let ghost tried = *self;
        proof {
            assert(lines_extend(announced.lines_spec(), tried.lines_spec())) by {
                assert forall|i: int| 0 <= i < announced.lines_spec().len() implies
                    #[trigger] tried.lines_spec()[i] == announced.lines_spec()[i] by {
                    assert(tried.lines_spec().subrange(0, announced.lines_spec().len() as int)[i]
                        == tried.lines_spec()[i]);
                }
            }
        }
        let markers = crate::script::group_markers_from_script(script.as_slice());
        if markers.len() == 0 {
            self.emit_fallback_group_markers(name);
        } else {
            self.emit_markers(&markers);
        }
        proof {
            assert(lines_extend(tried.lines_spec(), self.lines_spec()));
            lemma_lines_extend_trans(announced.lines_spec(), tried.lines_spec(), self.lines_spec());
            lemma_lines_extend_trans(start.lines_spec(), announced.lines_spec(), self.lines_spec());
        }
        false
    }
}

impl Ext4Driver {
    /// Walks the entries of a directory block: handles `basic_testcode.sh` and descends
    /// into subdirectories other than `.` and `..` while `scan_depth` allows, and stops
    /// once an external program is ready.
    fn scan_dir_entries(&mut self, disk: &[u8], fs: &Ext4Fs, block: &[u8], dir_path: &[u8], scan_depth: usize,
        found: &mut usize) -> (r: Result<(), Ext4Error>)
        requires
            old(self).wf(),
            fs.wf(),
            old(self).fs_spec() == Some(*fs),
            scan_depth <= MAX_SCAN_DEPTH,
        ensures
            scan_keeps(*old(self), *final(self), *old(found), *final(found)),
            r is Ok,
        decreases MAX_SCAN_DEPTH - scan_depth, 1int,
    {
        let ghost start = *self;
        let ghost f0 = *found;
        let total: usize = block.len();
        let mut offset: usize = 0;
        proof {
            lemma_scan_keeps_refl(start, f0);
        }
        while offset <= total && total - offset >= 8
            invariant
                total == block@.len(),
                fs.wf(),
                self.fs_spec() == Some(*fs),
                scan_depth <= MAX_SCAN_DEPTH,
                start == *old(self),
                f0 == *old(found),
                scan_keeps(start, *self, f0, *found),
            decreases total - offset,
        {
            let inode = crate::bytes::le_u32(block, offset);
            let rec_len = crate::bytes::le_u16(block, offset + 4) as usize;
            let name_len = block[offset + 6] as usize;
            if rec_len < 8 || rec_len > total - offset {
                break;
            }
            if inode != 0 && name_len <= crate::ext4::EXT4_NAME_MAX && name_len <= rec_len - 8 {
                let name = copy_range(block, offset + 8, offset + 8 + name_len);
                let ghost before = *self;
                let ghost fb = *found;
                if crate::script::is_basic_test_script(name.as_slice()) {
                    proof {
                        assert(crate::text::basic_script_name_spec().len() == 17);
                    }
                    let handled = self.handle_test_script(disk, fs, inode, dir_path, name.as_slice(), found);
                    proof {
                        lemma_scan_keeps_trans(start, before, *self, f0, fb, *found);
                    }
                    if handled {
                        return Ok(());
                    }
                } else if scan_depth < MAX_SCAN_DEPTH && !crate::script::is_dot_entry(name.as_slice()) {
                    match read_inode_by_no(disk, fs, inode) {
                        Ok(child) => {
                            let mode = crate::bytes::le_u16(child.as_slice(), 0);
                            if mode & EXT4_MODE_TYPE_MASK == crate::ext4::EXT4_S_IFDIR {
                                let mut child_path = copy_path(dir_path);
                                crate::script::append_path_part(&mut child_path, name.as_slice());
                                let _ = self.scan_directory(disk, fs, inode, child_path.as_slice(), scan_depth + 1, found);
                                proof {
                                    lemma_scan_keeps_trans(start, before, *self, f0, fb, *found);
                                }
                            }
                        },
                        Err(_) => {},
                    }
                }
                if self.loader.has_external_app() {
                    return Ok(());
                }
            }
            offset = offset + rec_len;
        }
        Ok(())
    }

    /// Scans the first `valid_len` bytes of directory block `block_no`.
    fn scan_dir_data_block(&mut self, disk: &[u8], fs: &Ext4Fs, block_no: u64, valid_len: usize, dir_path: &[u8],
        scan_depth: usize, found: &mut usize) -> (r: Result<(), Ext4Error>)
        requires
            old(self).wf(),
            fs.wf(),
            old(self).fs_spec() == Some(*fs),
            scan_depth <= MAX_SCAN_DEPTH,
            valid_len <= fs.block_size,
        ensures
            scan_keeps(*old(self), *final(self), *old(found), *final(found)),
            r is Err ==> r->Err_0 == crate::ext4::fs_block(disk@, *fs, block_no as int)->Err_0
                && *final(self) == *old(self),
            r == block_scan(disk@, *fs, block_no as int),
        decreases MAX_SCAN_DEPTH - scan_depth, 2int,
    {
        proof {
            lemma_scan_keeps_refl(*self, *found);
        }
        let buffer = match crate::ext4::read_fs_block(disk, fs, block_no) {
            Ok(v) => v,
            Err(e) => return Err(e),
        };
        let valid = copy_range(buffer.as_slice(), 0, valid_len);
        let scanned = self.scan_dir_entries(disk, fs, valid.as_slice(), dir_path, scan_depth, found);
        match scanned {
            Ok(()) => Ok(()),
            Err(e) => Err(e),
        }
    }

    /// Scans the directory blocks one extent leaf covers.
    fn scan_extent_leaf(&mut self, disk: &[u8], fs: &Ext4Fs, node: &[u8], file_size: u64, dir_path: &[u8],
        scan_depth: usize, found: &mut usize) -> (r: Result<(), Ext4Error>)
        requires
            old(self).wf(),
            fs.wf(),
            old(self).fs_spec() == Some(*fs),
            scan_depth <= MAX_SCAN_DEPTH,
        ensures
            scan_keeps(*old(self), *final(self), *old(found), *final(found)),
            r == leaf_scan(disk@, *fs, node@, file_size as int),
        decreases MAX_SCAN_DEPTH - scan_depth, 3int,
    {
        let ghost start = *self;
        let ghost f0 = *found;
        proof {
            lemma_scan_keeps_refl(start, f0);
        }
        let depth = match crate::ext4::extent_depth(node) {
            Ok(v) => v,
            Err(e) => return Err(e),
        };
        if depth != 0 {
            return Err(Ext4Error::ExtentLeaf);
        }
        let entries = match crate::ext4::extent_entries(node) {
            Ok(v) => v as usize,
            Err(e) => return Err(e),
        };
        let mut index: usize = 0;
        while index < entries
            invariant
                fs.wf(),
                self.fs_spec() == Some(*fs),
                scan_depth <= MAX_SCAN_DEPTH,
                entries <= 0xffff,
                crate::ext4::extent_header_ok(node@),
                crate::bytes::le16(node@, 6) == 0,
                entries == crate::bytes::le16(node@, 2),
                index <= entries,
                leaf_scan(disk@, *fs, node@, file_size as int) == leaf_entries_scan(
                    disk@,
                    *fs,
                    node@,
                    file_size as int,
                    index as int,
                ),
                start == *old(self),
                f0 == *old(found),
                scan_keeps(start, *self, f0, *found),
            decreases entries - index,
        {
            let offset = 12 + index * 12;
            if offset + 12 > node.len() {
                return Err(Ext4Error::ExtentEntry);
            }
            let (logical, len, physical) = crate::ext4::read_extent_entry(node, offset);
            let mut block_index: u64 = 0;
            while block_index < len
                invariant
                    fs.wf(),
                    self.fs_spec() == Some(*fs),
                    scan_depth <= MAX_SCAN_DEPTH,
                    logical <= 0xffff_ffff,
                    len < 0x8000,
                    physical < 0x1_0000_0000_0000,
                    block_index <= len,
                    crate::ext4::extent_header_ok(node@),
                    crate::bytes::le16(node@, 6) == 0,
                    entries == crate::bytes::le16(node@, 2),
                    index < entries,
                    offset + 12 <= node@.len(),
                    offset == 12 + index * 12,
                    logical == crate::ext4::ext_logical(node@, offset as int),
                    len == crate::ext4::ext_len(node@, offset as int),
                    physical == crate::ext4::ext_physical(node@, offset as int),
                    leaf_scan(disk@, *fs, node@, file_size as int) == match extent_blocks_scan(
                        disk@,
                        *fs,
                        file_size as int,
                        logical as int,
                        len as int,
                        physical as int,
                        block_index as int,
                    ) {
                        Err(e) => Err(e),
                        Ok(()) => leaf_entries_scan(disk@, *fs, node@, file_size as int, index + 1),
                    },
                    start == *old(self),
                    f0 == *old(found),
                    scan_keeps(start, *self, f0, *found),
                ensures
                    leaf_scan(disk@, *fs, node@, file_size as int) == leaf_entries_scan(
                        disk@,
                        *fs,
                        node@,
                        file_size as int,
                        index + 1,
                    ),
                    scan_keeps(start, *self, f0, *found),
                decreases len - block_index,
            {
                proof {
                    assert((logical + block_index) * fs.block_size <= (0xffff_ffff + 0x8000) * 4096) by (nonlinear_arith)
                        requires logical <= 0xffff_ffff, block_index < 0x8000, fs.block_size <= 4096;
                }
                let file_offset = (logical + block_index) * fs.block_size as u64;
                if file_offset >= file_size {
                    break;
                }
                let valid_len = crate::ext4::remaining_block_len(file_size, file_offset, fs.block_size);
                let ghost before = *self;
                let ghost fb = *found;
                match self.scan_dir_data_block(disk, fs, physical + block_index, valid_len, dir_path, scan_depth, found) {
                    Err(e) => {
                        proof {
                            lemma_scan_keeps_trans(start, before, *self, f0, fb, *found);
                        }
                        return Err(e);
                    },
                    Ok(()) => {},
                }
                proof {
                    lemma_scan_keeps_trans(start, before, *self, f0, fb, *found);
                }
                block_index = block_index + 1;
            }
            index = index + 1;
        }
        Ok(())
    }

    /// Scans the directory blocks an extent tree of depth 0 or 1 covers.
    fn scan_extent_tree(&mut self, disk: &[u8], fs: &Ext4Fs, root: &[u8], file_size: u64, dir_path: &[u8],
        scan_depth: usize, found: &mut usize) -> (r: Result<(), Ext4Error>)
        requires
            old(self).wf(),
            fs.wf(),
            old(self).fs_spec() == Some(*fs),
            scan_depth <= MAX_SCAN_DEPTH,
        ensures
            scan_keeps(*old(self), *final(self), *old(found), *final(found)),
            r == tree_scan(disk@, *fs, root@, file_size as int),
        decreases MAX_SCAN_DEPTH - scan_depth, 4int,
    {
        let ghost start = *self;
        let ghost f0 = *found;
        proof {
            lemma_scan_keeps_refl(start, f0);
        }
        let depth = match crate::ext4::extent_depth(root) {
            Ok(v) => v,
            Err(e) => return Err(e),
        };
        if depth == 0 {
            return self.scan_extent_leaf(disk, fs, root, file_size, dir_path, scan_depth, found);
        }
        if depth != 1 {
            return Err(Ext4Error::ExtentDepth);
        }
        let entries = match crate::ext4::extent_entries(root) {
            Ok(v) => v as usize,
            Err(e) => return Err(e),
        };
        let mut index: usize = 0;
        while index < entries
            invariant
                fs.wf(),
                self.fs_spec() == Some(*fs),
                scan_depth <= MAX_SCAN_DEPTH,
                entries <= 0xffff,
                crate::ext4::extent_header_ok(root@),
                crate::bytes::le16(root@, 6) == 1,
                entries == crate::bytes::le16(root@, 2),
                index <= entries,
                tree_scan(disk@, *fs, root@, file_size as int) == index_scan(
                    disk@,
                    *fs,
                    root@,
                    file_size as int,
                    index as int,
                ),
                start == *old(self),
                f0 == *old(found),
                scan_keeps(start, *self, f0, *found),
            decreases entries - index,
        {
            let offset = 12 + index * 12;
            if offset + 12 > root.len() {
                return Err(Ext4Error::ExtentIndex);
            }
            let leaf = crate::ext4::extent_index_leaf(root, offset);
            let leaf_block = match crate::ext4::read_fs_block(disk, fs, leaf) {
                Ok(v) => v,
                Err(e) => return Err(e),
            };
            let ghost before = *self;
            let ghost fb = *found;
            let res = self.scan_extent_leaf(disk, fs, leaf_block.as_slice(), file_size, dir_path, scan_depth, found);
            proof {
                lemma_scan_keeps_trans(start, before, *self, f0, fb, *found);
            }
            match res {
                Err(e) => return Err(e),
                Ok(()) => {},
            }
            index = index + 1;
        }
        Ok(())
    }

    /// Scans the twelve direct blocks of a directory inode.
    fn scan_direct_blocks(&mut self, disk: &[u8], fs: &Ext4Fs, inode: &[u8], file_size: u64, dir_path: &[u8],
        scan_depth: usize, found: &mut usize) -> (r: Result<(), Ext4Error>)
        requires
            old(self).wf(),
            fs.wf(),
            old(self).fs_spec() == Some(*fs),
            scan_depth <= MAX_SCAN_DEPTH,
            inode@.len() >= 88,
        ensures
            scan_keeps(*old(self), *final(self), *old(found), *final(found)),
            r == direct_scan(disk@, *fs, inode@, file_size as int, 0),
        decreases MAX_SCAN_DEPTH - scan_depth, 3int,
    {
        let ghost start = *self;
        let ghost f0 = *found;
        proof {
            lemma_scan_keeps_refl(start, f0);
        }
        let mut index: usize = 0;
        while index < 12
            invariant
                fs.wf(),
                self.fs_spec() == Some(*fs),
                scan_depth <= MAX_SCAN_DEPTH,
                inode@.len() >= 88,
                index <= 12,
                start == *old(self),
                f0 == *old(found),
                scan_keeps(start, *self, f0, *found),
                direct_scan(disk@, *fs, inode@, file_size as int, 0) == direct_scan(
                    disk@,
                    *fs,
                    inode@,
                    file_size as int,
                    index as int,
                ),
            ensures
                direct_scan(disk@, *fs, inode@, file_size as int, 0) == Ok::<(), Ext4Error>(()),
                scan_keeps(start, *self, f0, *found),
            decreases 12 - index,
        {
            let block_no = crate::bytes::le_u32(inode, 40 + index * 4) as u64;
            if block_no == 0 {
                break;
            }
            proof {
                assert(index * fs.block_size <= 12 * 4096) by (nonlinear_arith)
                    requires index < 12, fs.block_size <= 4096;
            }
            let file_offset = index as u64 * fs.block_size as u64;
            if file_offset >= file_size {
                break;
            }
            let valid_len = crate::ext4::remaining_block_len(file_size, file_offset, fs.block_size);
            let ghost before = *self;
            let ghost fb = *found;
            let res = self.scan_dir_data_block(disk, fs, block_no, valid_len, dir_path, scan_depth, found);
            proof {
                lemma_scan_keeps_trans(start, before, *self, f0, fb, *found);
            }
            match res {
                Err(e) => return Err(e),
                Ok(()) => {},
            }
            index = index + 1;
        }
        Ok(())
    }

    /// Scans the directory with inode `inode_no`, found at `dir_path`, for test scripts.
    fn scan_directory(&mut self, disk: &[u8], fs: &Ext4Fs, inode_no: u32, dir_path: &[u8], scan_depth: usize,
        found: &mut usize) -> (r: Result<(), Ext4Error>)
        requires
            old(self).wf(),
            fs.wf(),
            old(self).fs_spec() == Some(*fs),
            scan_depth <= MAX_SCAN_DEPTH,
        ensures
            scan_keeps(*old(self), *final(self), *old(found), *final(found)),
            r == dir_scan(disk@, *fs, inode_no),
        decreases MAX_SCAN_DEPTH - scan_depth, 5int,
    {
        proof {
            lemma_scan_keeps_refl(*self, *found);
        }
        let inode = match read_inode_by_no(disk, fs, inode_no) {
            Ok(i) => i,
            Err(e) => return Err(e),
        };
        let mode = crate::bytes::le_u16(inode.as_slice(), 0);
        if mode & EXT4_MODE_TYPE_MASK != crate::ext4::EXT4_S_IFDIR {
            return Err(Ext4Error::NotDirectory);
        }
        let dir_size = crate::ext4::inode_size(inode.as_slice());
        let flags = crate::bytes::le_u32(inode.as_slice(), 32);
        if flags & crate::ext4::EXT4_EXTENTS_FL != 0 {
            let root = copy_range(inode.as_slice(), 40, 100);
            self.scan_extent_tree(disk, fs, root.as_slice(), dir_size, dir_path, scan_depth, found)
        } else {
            self.scan_direct_blocks(disk, fs, inode.as_slice(), dir_size, dir_path, scan_depth, found)
        }
    }

    /// Handles the script `name` in `dir_path` if that path names a file.
    fn try_load_known_basic_script(&mut self, disk: &[u8], fs: &Ext4Fs, dir_path: &[u8], name: &[u8]) -> (r: bool)
        requires
            old(self).wf(),
            fs.wf(),
            old(self).fs_spec() == Some(*fs),
            name@.len() >= 12,
        ensures
            exists|f: usize| scan_keeps(*old(self), *final(self), 0, f),
            r ==> final(self).loader_spec().ready_spec(),
            old(self).loader_spec().ready_spec() ==> !r,
    {
        let mut path: Vec<u8> = Vec::new();
        if dir_path.len() != 0 {
            crate::script::append_path_part(&mut path, dir_path);
        }
        crate::script::append_path_part(&mut path, name);
        proof {
            lemma_scan_keeps_refl(*self, 0);
        }
        let info = match lookup_path(disk, fs, path.as_slice()) {
            Ok(Some(info)) => info,
            _ => return false,
        };
        let mut found: usize = 0;
        self.handle_test_script(disk, fs, info.inode_no, dir_path, name, &mut found)
    }

    /// Looks for the test scripts: `basic_testcode.sh` in `musl`, in `glibc` and at the
    /// root first, else every directory from the root down. The number found.
    fn scan_test_scripts(&mut self, disk: &[u8], fs: &Ext4Fs) -> (r: Result<usize, Ext4Error>)
        requires
            old(self).wf(),
            fs.wf(),
            old(self).fs_spec() == Some(*fs),
        ensures
            final(self).wf(),
            final(self).fs_spec() == old(self).fs_spec(),
            lines_extend(old(self).lines_spec(), final(self).lines_spec()),
            r is Err ==> dir_scan(disk@, *fs, EXT4_ROOT_INO) == Err::<(), Ext4Error>(r->Err_0),
            dir_scan(disk@, *fs, EXT4_ROOT_INO) is Ok ==> r is Ok,
            !final(self).loader_spec().ready_spec() ==> (r is Err <==> dir_scan(disk@, *fs, EXT4_ROOT_INO) is Err),
            old(self).loader_spec().ready_spec() ==> *final(self) == *old(self) && r == match dir_scan(
                disk@,
                *fs,
                EXT4_ROOT_INO,
            ) {
                Ok(()) => Ok::<usize, Ext4Error>(0),
                Err(e) => Err(e),
            },
    {
        let basic = crate::text::basic_script_name();
        proof {
            assert(basic@.len() == 17);
        }
        let musl = crate::text::musl_dir();
        if self.try_load_known_basic_script(disk, fs, musl.as_slice(), basic.as_slice()) {
            return Ok(1);
        }
        let glibc = crate::text::glibc_dir();
        if self.try_load_known_basic_script(disk, fs, glibc.as_slice(), basic.as_slice()) {
            return Ok(1);
        }
        let empty: Vec<u8> = Vec::new();
        if self.try_load_known_basic_script(disk, fs, empty.as_slice(), basic.as_slice()) {
            return Ok(1);
        }
        let mut found: usize = 0;
        match self.scan_directory(disk, fs, EXT4_ROOT_INO, empty.as_slice(), 0, &mut found) {
            Ok(()) => Ok(found),
            Err(e) => Err(e),
        }
    }

    /// Mounts the test disk and looks for its test scripts, printing how many it found or
    /// why it failed. Nothing happens when the block device is not ready.
    pub fn init(&mut self, disk: &[u8], block_ready: bool)
        requires
            old(self).wf(),
        ensures
            final(self).wf(),
            !block_ready ==> *final(self) == *old(self),
            block_ready ==> final(self).fs_spec() == match crate::ext4::superblock_of(disk@) {
                Ok(fs) => Some(fs),
                Err(_) => old(self).fs_spec(),
            },
            block_ready && crate::ext4::superblock_of(disk@) is Err ==> final(self).lines_spec()
                == old(self).lines_spec().push((LineKind::Failed, Seq::<u8>::empty(), 0usize,
                    Some(crate::ext4::superblock_of(disk@)->Err_0))),
            lines_extend(old(self).lines_spec(), final(self).lines_spec()),
    {
        if !block_ready {
            return;
        }
        match crate::ext4::read_superblock(disk) {
            Ok(fs) => {
                self.set_mounted_fs(fs);
                let ghost mounted = *self;
                match self.scan_test_scripts(disk, &fs) {
                    Ok(count) => {
                        self.print(LineKind::ScriptsFound, Vec::new(), count, None);
                    },
                    Err(e) => {
                        self.print(LineKind::Failed, Vec::new(), 0, Some(e));
                    },
                }
                proof {
                    assert(lines_extend(old(self).lines_spec(), mounted.lines_spec()));
                    lemma_lines_extend_trans(old(self).lines_spec(), mounted.lines_spec(), self.lines_spec());
                }
            },
            Err(e) => {
                self.print(LineKind::Failed, Vec::new(), 0, Some(e));
            },
        }
    }
}

/// Reads a script: at most `SCRIPT_BUFFER_SIZE` bytes of the file with inode `inode_no`.
fn read_script(disk: &[u8], fs: &Ext4Fs, inode_no: u32) -> (r: Result<Vec<u8>, Ext4Error>)
    requires
        fs.wf(),
    ensures
        r matches Ok(v) ==> script_of(disk@, *fs, inode_no) == Ok::<Seq<u8>, Ext4Error>(v@),
        r is Err ==> script_of(disk@, *fs, inode_no) is Err,
{
    let inode = match read_inode_by_no(disk, fs, inode_no) {
        Ok(i) => i,
        Err(e) => return Err(e),
    };
    let file_size = crate::ext4::inode_size(inode.as_slice());
    let read_len: usize = if file_size < SCRIPT_BUFFER_SIZE as u64 { file_size as usize } else { SCRIPT_BUFFER_SIZE };
    read_inode_data(disk, fs, inode.as_slice(), read_len)
}

/// Reads the first `len` bytes of the file `info` names.
pub fn read_root_file_into(disk: &[u8], fs: &Ext4Fs, info: FileInfo, len: usize) -> (r: Result<Vec<u8>, Ext4Error>)
    requires
        fs.wf(),
    ensures
        r matches Ok(v) ==> file_read(disk@, *fs, info, len as int) == Ok::<Seq<u8>, Ext4Error>(v@),
        r is Err ==> file_read(disk@, *fs, info, len as int) == Err::<Seq<u8>, Ext4Error>(r->Err_0),
{
    proof {
        reveal(file_read);
    }
    let inode = match read_inode_by_no(disk, fs, info.inode_no) {
        Ok(i) => i,
        Err(e) => return Err(e),
    };
    read_inode_data(disk, fs, inode.as_slice(), len)
}

} // verus!
