//! The file-descriptor table of the user program: the console, `/dev/null`, a fixed
//! greeting file, files of the test disk, small in-memory files and one pipe.
use vstd::prelude::*;
use crate::ext4::Ext4Error;
use crate::ext4_driver::Ext4Driver;
use crate::bytes::copy_range;
use crate::text;

verus! {

pub const STDIN: usize = 0;
pub const STDOUT: usize = 1;
pub const STDERR: usize = 2;
/// Bytes of a `stat` record.
pub const STAT_SIZE: usize = 128;
/// The first descriptor the table hands out.
pub const FIRST_DYNAMIC_FD: usize = 3;
/// Descriptors the table has.
pub const MAX_FD: usize = 128;
/// Longest path kept.
pub const MAX_PATH_LEN: usize = 128;
/// Bytes of an in-memory file, and of the pipe.
pub const MEMORY_FILE_CAP: usize = 1024;
/// `open` flag: create the file.
pub const O_CREATE: usize = 0x40;
/// `open` flag: open a directory.
pub const O_DIRECTORY: usize = 0x10000;
/// Mode of the console, `/dev/null` and pipes.
pub const STDIO_MODE: u32 = 0o020666;
/// Mode of regular files.
pub const REGULAR_MODE: u32 = 0o100444;
/// Mode of directories.
pub const DIRECTORY_MODE: u32 = 0o040555;

/// What a descriptor refers to.
#[derive(Clone, Copy, Debug, PartialEq, Eq, Structural)]
pub enum FileKind {
    Console,
    DevNull,
    Directory,
    Hello,
    Ext4,
    Memory,
    PipeRead,
    PipeWrite,
}

/// An open descriptor: its kind, where reading goes on, and the file it names.
#[derive(Clone, Copy, Debug, PartialEq, Eq, Structural)]
pub struct FileDescriptor {
    pub kind: FileKind,
    pub offset: usize,
    pub inode_no: u32,
    pub size: u64,
}

/// The first free slot at or after `i`.
pub open spec fn first_free(s: Seq<Option<FileDescriptor>>, i: int) -> Option<int>
    decreases s.len() - i,
{
    if i < 0 || i >= s.len() {
        None
    } else if s[i] is None {
        Some(i)
    } else {
        first_free(s, i + 1)
    }
}

proof fn lemma_first_free(s: Seq<Option<FileDescriptor>>, i: int)
    requires
        0 <= i,
    ensures
        first_free(s, i) matches Some(k) ==> i <= k < s.len() && s[k] is None
            && forall|j: int| i <= j < k ==> (#[trigger] s[j]) is Some,
        first_free(s, i) is None ==> forall|j: int| i <= j < s.len() ==> (#[trigger] s[j]) is Some,
    decreases s.len() - i,
{
    if i < s.len() && s[i] is Some {
        lemma_first_free(s, i + 1);
    }
}

/// An in-memory file's descriptor stays within the file's bytes.
pub open spec fn memory_ok(s: Option<FileDescriptor>) -> bool {
    s matches Some(d) ==> (d.kind == FileKind::Memory ==> d.offset <= MEMORY_FILE_CAP && d.size <= MEMORY_FILE_CAP)
}

/// The descriptor table and the files behind it.
pub struct FdTable {
    slots: Vec<Option<FileDescriptor>>,
    memory: Vec<Vec<u8>>,
    cwd: Vec<u8>,
    pipe: Vec<u8>,
    pipe_read: usize,
    console: Vec<u8>,
}

/// The descriptor `fd` names in `slots`: only `3..128` are looked up.
pub open spec fn descriptor_spec(slots: Seq<Option<FileDescriptor>>, fd: int) -> Option<FileDescriptor> {
    if fd < FIRST_DYNAMIC_FD || fd >= MAX_FD { None } else { slots[fd] }
}

/// `stat` fields of `fd`: mode, inode number and size.
pub open spec fn stat_info_spec(slots: Seq<Option<FileDescriptor>>, fd: int) -> Option<(u32, u64, u64)> {
    if fd == STDIN || fd == STDOUT || fd == STDERR {
        Some((STDIO_MODE, fd as u64, 0u64))
    } else {
        match descriptor_spec(slots, fd) {
            None => None,
            Some(d) => Some(match d.kind {
                FileKind::Console | FileKind::DevNull => (STDIO_MODE, d.inode_no as u64, 0u64),
                FileKind::Directory => (DIRECTORY_MODE, d.inode_no as u64, 0u64),
                FileKind::Hello | FileKind::Ext4 | FileKind::Memory => (REGULAR_MODE, d.inode_no as u64, d.size),
                FileKind::PipeRead | FileKind::PipeWrite => (STDIO_MODE, d.inode_no as u64, d.size),
            }),
        }
    }
}

/// Byte `k` of `x`, least significant first.
pub open spec fn byte_of(x: u64, k: int) -> u8 {
    ((x >> ((8 * k) as u64)) & 0xff) as u8
}

/// The `stat` record: inode number at 8, mode at 16, one link at 20, size at 48, the rest zero.
pub open spec fn stat_bytes(mode: u32, ino: u64, size: u64) -> Seq<u8> {
    Seq::new(STAT_SIZE as nat, |i: int|
        if 8 <= i < 16 { byte_of(ino, i - 8) }
        else if 16 <= i < 20 { byte_of(mode as u64, i - 16) }
        else if i == 20 { 1u8 }
        else if 48 <= i < 56 { byte_of(size, i - 48) }
        else { 0u8 })
}

/// The descriptor `dup` copies for `fd`: the console for 1 and 2, `/dev/null` for 0.
pub open spec fn dup_source(slots: Seq<Option<FileDescriptor>>, fd: int) -> Option<FileDescriptor> {
    if fd == STDOUT || fd == STDERR {
        Some(FileDescriptor { kind: FileKind::Console, offset: 0, inode_no: fd as u32, size: 0 })
    } else if fd == STDIN {
        Some(FileDescriptor { kind: FileKind::DevNull, offset: 0, inode_no: fd as u32, size: 0 })
    } else {
        descriptor_spec(slots, fd)
    }
}

impl FdTable {
    pub closed spec fn slots_spec(&self) -> Seq<Option<FileDescriptor>> {
        self.slots@
    }

    pub closed spec fn memory_spec(&self) -> Seq<Seq<u8>> {
        self.memory@.map_values(|m: Vec<u8>| m@)
    }

    pub closed spec fn cwd_spec(&self) -> Seq<u8> {
        self.cwd@
    }

    pub closed spec fn pipe_spec(&self) -> Seq<u8> {
        self.pipe@
    }

    pub closed spec fn pipe_read_spec(&self) -> int {
        self.pipe_read as int
    }

    pub closed spec fn console_spec(&self) -> Seq<u8> {
        self.console@
    }

    /// The invariant of the table.
    pub open spec fn wf(&self) -> bool {
        &&& self.slots_spec().len() == MAX_FD
        &&& self.memory_spec().len() == MAX_FD
        &&& forall|i: int| 0 <= i < MAX_FD ==> (#[trigger] self.memory_spec()[i]).len() == MEMORY_FILE_CAP
        &&& self.cwd_spec().len() <= MAX_PATH_LEN
        &&& self.pipe_spec().len() <= MEMORY_FILE_CAP
        &&& self.pipe_read_spec() <= self.pipe_spec().len()
        &&& forall|i: int| 0 <= i < MAX_FD ==> memory_ok(#[trigger] self.slots_spec()[i])
    }

    /// A table with no descriptor open, empty files, no working directory and an empty pipe.
    pub fn new() -> (r: Self)
        ensures
            r.wf(),
            forall|i: int| 0 <= i < MAX_FD ==> (#[trigger] r.slots_spec()[i]) is None,
            r.cwd_spec() == Seq::<u8>::empty(),
            r.pipe_spec() == Seq::<u8>::empty(),
            r.console_spec() == Seq::<u8>::empty(),
    {
        let mut slots: Vec<Option<FileDescriptor>> = Vec::new();
        let mut memory: Vec<Vec<u8>> = Vec::new();
        let mut i: usize = 0;
        while i < MAX_FD
            invariant
                i <= MAX_FD,
                slots@.len() == i,
                memory@.len() == i,
                forall|j: int| 0 <= j < i ==> (#[trigger] slots@[j]) is None,
                forall|j: int| 0 <= j < i ==> (#[trigger] memory@[j])@.len() == MEMORY_FILE_CAP,
            decreases MAX_FD - i,
        {
            slots.push(None);
            memory.push(crate::ext4::zeroed(MEMORY_FILE_CAP));
            i = i + 1;
        }
        let r = FdTable { slots, memory, cwd: Vec::new(), pipe: Vec::new(), pipe_read: 0, console: Vec::new() };
        assert forall|j: int| 0 <= j < MAX_FD implies (#[trigger] r.memory_spec()[j]).len() == MEMORY_FILE_CAP by {
            assert(r.memory_spec()[j] == memory@[j]@);
        }
        r
    }

    /// The descriptor `fd` names, when it is a dynamic one.
    pub fn descriptor(&self, fd: usize) -> (r: Option<FileDescriptor>)
        requires
            self.wf(),
        ensures
            r == descriptor_spec(self.slots_spec(), fd as int),
    {
        if fd < FIRST_DYNAMIC_FD || fd >= MAX_FD {
            return None;
        }
        self.slots[fd]
    }

    /// The kind of the dynamic descriptor `fd`.
    fn descriptor_kind(&self, fd: usize) -> (r: Option<FileKind>)
        requires
            self.wf(),
        ensures
            r == match descriptor_spec(self.slots_spec(), fd as int) {
                Some(d) => Some(d.kind),
                None => None::<FileKind>,
            },
    {
        match self.descriptor(fd) {
            Some(d) => Some(d.kind),
            None => None,
        }
    }

    /// Whether `fd` is a standard stream or an open dynamic descriptor.
    fn is_valid_fd(&self, fd: usize) -> (r: bool)
        requires
            self.wf(),
        ensures
            r == (fd == STDIN || fd == STDOUT || fd == STDERR || descriptor_spec(self.slots_spec(), fd as int) is Some),
    {
        if fd == STDIN || fd == STDOUT || fd == STDERR {
            true
        } else {
            self.descriptor(fd).is_some()
        }
    }

    /// Puts `descriptor` in the lowest free slot from 3 on.
    fn alloc_descriptor(&mut self, descriptor: FileDescriptor) -> (r: Option<usize>)
        requires
            old(self).wf(),
            descriptor.kind == FileKind::Memory ==> descriptor.offset <= MEMORY_FILE_CAP
                && descriptor.size <= MEMORY_FILE_CAP,
        ensures
            final(self).wf(),
            r == match first_free(old(self).slots_spec(), FIRST_DYNAMIC_FD as int) {
                Some(k) => Some(k as usize),
                None => None::<usize>,
            },
            r matches Some(k) ==> final(self).slots_spec() == old(self).slots_spec().update(k as int, Some(descriptor)),
            r is None ==> final(self).slots_spec() == old(self).slots_spec(),
            final(self).memory_spec() == old(self).memory_spec(),
            final(self).cwd_spec() == old(self).cwd_spec(),
            final(self).pipe_spec() == old(self).pipe_spec(),
            final(self).pipe_read_spec() == old(self).pipe_read_spec(),
            final(self).console_spec() == old(self).console_spec(),
    {
        let mut fd: usize = FIRST_DYNAMIC_FD;
        while fd < MAX_FD
            invariant
                self.wf(),
                *self == *old(self),
                memory_ok(Some(descriptor)),
                FIRST_DYNAMIC_FD <= fd <= MAX_FD,
                first_free(self.slots_spec(), FIRST_DYNAMIC_FD as int) == first_free(self.slots_spec(), fd as int),
            decreases MAX_FD - fd,
        {
            if self.slots[fd].is_none() {
                self.slots.set(fd, Some(descriptor));
                proof {
                    assert forall|i: int| 0 <= i < MAX_FD implies memory_ok(#[trigger] self.slots_spec()[i]) by {
                        if i != fd {
                            assert(self.slots_spec()[i] == old(self).slots_spec()[i]);
                        }
                    }
                }
                return Some(fd);
            }
            fd = fd + 1;
        }
        None
    }

    /// A new descriptor of `kind` for the file `inode_no` of `size` bytes, read from the start.
    fn alloc_fd(&mut self, kind: FileKind, inode_no: u32, size: u64) -> (r: Option<usize>)
        requires
            old(self).wf(),
            kind == FileKind::Memory ==> size <= MEMORY_FILE_CAP,
        ensures
            final(self).wf(),
            r == match first_free(old(self).slots_spec(), FIRST_DYNAMIC_FD as int) {
                Some(k) => Some(k as usize),
                None => None::<usize>,
            },
            r matches Some(k) ==> final(self).slots_spec() == old(self).slots_spec().update(k as int,
                Some(FileDescriptor { kind, offset: 0, inode_no, size })),
            r is None ==> final(self).slots_spec() == old(self).slots_spec(),
            final(self).memory_spec() == old(self).memory_spec(),
            final(self).cwd_spec() == old(self).cwd_spec(),
            final(self).pipe_spec() == old(self).pipe_spec(),
            final(self).pipe_read_spec() == old(self).pipe_read_spec(),
            final(self).console_spec() == old(self).console_spec(),
    {
        self.alloc_descriptor(FileDescriptor { kind, offset: 0, inode_no, size })
    }

    /// The descriptor `dup` copies for `fd`.
    fn descriptor_for_dup(&self, fd: usize) -> (r: Option<FileDescriptor>)
        requires
            self.wf(),
        ensures
            r == dup_source(self.slots_spec(), fd as int),
    {
        if fd == STDOUT || fd == STDERR {
            Some(FileDescriptor { kind: FileKind::Console, offset: 0, inode_no: fd as u32, size: 0 })
        } else if fd == STDIN {
            Some(FileDescriptor { kind: FileKind::DevNull, offset: 0, inode_no: fd as u32, size: 0 })
        } else {
            self.descriptor(fd)
        }
    }

    /// Closes a dynamic descriptor: 0, or -1 when it is not open.
    fn close_dynamic_fd(&mut self, fd: usize) -> (r: isize)
        requires
            old(self).wf(),
        ensures
            final(self).wf(),
            r == (if descriptor_spec(old(self).slots_spec(), fd as int) is Some { 0isize } else { -1isize }),
            r == 0 ==> final(self).slots_spec() == old(self).slots_spec().update(fd as int, None),
            r != 0 ==> *final(self) == *old(self),
            final(self).memory_spec() == old(self).memory_spec(),
            final(self).cwd_spec() == old(self).cwd_spec(),
            final(self).pipe_spec() == old(self).pipe_spec(),
            final(self).pipe_read_spec() == old(self).pipe_read_spec(),
            final(self).console_spec() == old(self).console_spec(),
    {
        if fd < FIRST_DYNAMIC_FD || fd >= MAX_FD {
            return -1;
        }
        if self.slots[fd].is_some() {
            self.slots.set(fd, None);
            0
        } else {
            -1
        }
    }

    /// Closes `fd`: the standard streams always succeed, others when open.
    pub fn close(&mut self, fd: usize) -> (r: isize)
        requires
            old(self).wf(),
        ensures
            final(self).wf(),
            fd == STDIN || fd == STDOUT || fd == STDERR ==> r == 0 && *final(self) == *old(self),
            !(fd == STDIN || fd == STDOUT || fd == STDERR) ==> r == (if descriptor_spec(old(self).slots_spec(),
                fd as int) is Some { 0isize } else { -1isize }),
            r == 0 && fd >= FIRST_DYNAMIC_FD ==> final(self).slots_spec() == old(self).slots_spec().update(fd as int, None),
            r != 0 ==> *final(self) == *old(self),
            final(self).memory_spec() == old(self).memory_spec(),
            final(self).pipe_spec() == old(self).pipe_spec(),
            final(self).console_spec() == old(self).console_spec(),
            final(self).cwd_spec() == old(self).cwd_spec(),
    {
        if fd == STDIN || fd == STDOUT || fd == STDERR {
            0
        } else {
            self.close_dynamic_fd(fd)
        }
    }

    /// A copy of `fd` in the lowest free slot: its number, or -1.
    pub fn dup(&mut self, fd: usize) -> (r: isize)
        requires
            old(self).wf(),
        ensures
            final(self).wf(),
            dup_source(old(self).slots_spec(), fd as int) is None ==> r == -1 && *final(self) == *old(self),
            dup_source(old(self).slots_spec(), fd as int) matches Some(d) ==> match first_free(old(self).slots_spec(),
                FIRST_DYNAMIC_FD as int) {
                Some(k) => r == k && final(self).slots_spec() == old(self).slots_spec().update(k, Some(d)),
                None => r == -1 && final(self).slots_spec() == old(self).slots_spec(),
            },
            final(self).memory_spec() == old(self).memory_spec(),
            final(self).pipe_spec() == old(self).pipe_spec(),
            final(self).console_spec() == old(self).console_spec(),
            final(self).cwd_spec() == old(self).cwd_spec(),
    {
        match self.descriptor_for_dup(fd) {
            Some(d) => {
                proof {
                    if d.kind == FileKind::Memory {
                        assert(self.slots_spec()[fd as int] == Some(d));
                    }
                }
                let ghost ff = first_free(self.slots_spec(), FIRST_DYNAMIC_FD as int);
                proof {
                    lemma_first_free(self.slots_spec(), FIRST_DYNAMIC_FD as int);
                }
                match self.alloc_descriptor(d) {
                    Some(new_fd) => {
                        assert(ff == Some(new_fd as int));
                        new_fd as isize
                    },
                    None => -1,
                }
            },
            None => -1,
        }
    }

    /// Makes `new_fd` a copy of `old_fd`: `new_fd`, or -1.
    pub fn dup_to(&mut self, old_fd: usize, new_fd: usize) -> (r: isize)
        requires
            old(self).wf(),
        ensures
            final(self).wf(),
            new_fd >= MAX_FD || dup_source(old(self).slots_spec(), old_fd as int) is None ==> r == -1
                && *final(self) == *old(self),
            new_fd < MAX_FD && dup_source(old(self).slots_spec(), old_fd as int) is Some ==> r == new_fd
                && final(self).slots_spec() == old(self).slots_spec().update(new_fd as int,
                    dup_source(old(self).slots_spec(), old_fd as int)),
            final(self).memory_spec() == old(self).memory_spec(),
            final(self).pipe_spec() == old(self).pipe_spec(),
            final(self).console_spec() == old(self).console_spec(),
            final(self).cwd_spec() == old(self).cwd_spec(),
    {
        if new_fd >= MAX_FD {
            return -1;
        }
        let descriptor = match self.descriptor_for_dup(old_fd) {
            Some(d) => d,
            None => return -1,
        };
        proof {
            if descriptor.kind == FileKind::Memory {
                assert(self.slots_spec()[old_fd as int] == Some(descriptor));
            }
        }
        self.slots.set(new_fd, Some(descriptor));
        proof {
            assert forall|i: int| 0 <= i < MAX_FD implies memory_ok(#[trigger] self.slots_spec()[i]) by {
                if i != new_fd {
                    assert(self.slots_spec()[i] == old(self).slots_spec()[i]);
                }
            }
        }
        new_fd as isize
    }

    /// Mode, inode number and size of `fd` for `fstat`.
    fn fd_stat_info(&self, fd: usize) -> (r: Option<(u32, u64, u64)>)
        requires
            self.wf(),
        ensures
            r == stat_info_spec(self.slots_spec(), fd as int),
    {
        if fd == STDIN || fd == STDOUT || fd == STDERR {
            return Some((STDIO_MODE, fd as u64, 0));
        }
        let d = match self.descriptor(fd) {
            Some(d) => d,
            None => return None,
        };
        match d.kind {
            FileKind::Console | FileKind::DevNull => Some((STDIO_MODE, d.inode_no as u64, 0)),
            FileKind::Directory => Some((DIRECTORY_MODE, d.inode_no as u64, 0)),
            FileKind::Hello | FileKind::Ext4 | FileKind::Memory => Some((REGULAR_MODE, d.inode_no as u64, d.size)),
            FileKind::PipeRead | FileKind::PipeWrite => Some((STDIO_MODE, d.inode_no as u64, d.size)),
        }
    }

    /// `fstat`: 0 and the record for an open descriptor and a non-null buffer, else -1.
    pub fn fstat(&self, fd: usize, stat_buf: usize) -> (r: (isize, Vec<u8>))
        requires
            self.wf(),
        ensures
            r.0 == 0 || r.0 == -1,
            r.0 == 0 <==> (stat_buf != 0 && stat_info_spec(self.slots_spec(), fd as int) is Some),
            r.0 == 0 ==> r.1@ == {
                let info = stat_info_spec(self.slots_spec(), fd as int)->0;
                stat_bytes(info.0, info.1, info.2)
            },
            r.0 != 0 ==> r.1@.len() == 0,
    {
        if !self.is_valid_fd(fd) {
            return (-1, Vec::new());
        }
        if stat_buf == 0 {
            return (-1, Vec::new());
        }
        let (mode, inode_no, size) = match self.fd_stat_info(fd) {
            Some(info) => info,
            None => return (-1, Vec::new()),
        };
        let mut stat: Vec<u8> = Vec::new();
        let mut i: usize = 0;
        while i < STAT_SIZE
            invariant
                i <= STAT_SIZE,
                stat@.len() == i,
                forall|j: int| 0 <= j < i ==> #[trigger] stat@[j] == stat_bytes(mode, inode_no, size)[j],
            decreases STAT_SIZE - i,
        {
            let b: u8 = if 8 <= i && i < 16 {
                ((inode_no >> ((8 * (i - 8)) as u64)) & 0xff) as u8
            } else if 16 <= i && i < 20 {
                (((mode as u64) >> ((8 * (i - 16)) as u64)) & 0xff) as u8
            } else if i == 20 {
                1u8
            } else if 48 <= i && i < 56 {
                ((size >> ((8 * (i - 48)) as u64)) & 0xff) as u8
            } else {
                0u8
            };
            stat.push(b);
            i = i + 1;
        }
        assert(stat@ =~= stat_bytes(mode, inode_no, size));
        (0, stat)
    }
}

/// `n` bytes of `data` from `off`, or fewer at its end: what reading from `off` gives.
pub open spec fn slice_read(data: Seq<u8>, off: int, n: int) -> Seq<u8> {
    if off >= data.len() || n == 0 {
        Seq::empty()
    } else {
        data.subrange(off, if n < data.len() - off { off + n } else { data.len() as int })
    }
}

/// Two reads one after the other, the second from where the first stopped, give what one
/// read of both lengths gives.
pub proof fn lemma_slice_reads_join(data: Seq<u8>, off: int, a: int, b: int)
    requires
        off >= 0,
        a >= 0,
        b >= 0,
    ensures
        slice_read(data, off, a) + slice_read(data, off + slice_read(data, off, a).len(), b)
            == slice_read(data, off, a + b),
{
    let first = slice_read(data, off, a);
    if off >= data.len() || a == 0 {
        assert(first + slice_read(data, off + first.len(), b) =~= slice_read(data, off, a + b));
    } else if off + a < data.len() {
        assert(first.len() == a);
        assert(first + slice_read(data, off + a, b) =~= slice_read(data, off, a + b));
    } else {
        assert(first.len() == data.len() - off);
        assert(first + slice_read(data, data.len() as int, b) =~= slice_read(data, off, a + b));
    }
}

/// Successive reads of the greeting file, each from where the last stopped, give its
/// bytes in order: the pieces of reads of `a` and then `b` bytes from `off` make up a read
/// of `a + b` bytes, and from the start the whole greeting comes out, then nothing.
pub proof fn lemma_hello_reads_in_order(off: int, a: int, b: int)
    requires
        off >= 0,
        a >= 0,
        b >= 0,
    ensures
        hello_read(off, a) + hello_read(off + hello_read(off, a).len(), b) == hello_read(off, a + b),
        hello_read(0, text::hello_content_spec().len() as int) == text::hello_content_spec(),
        off >= text::hello_content_spec().len() ==> hello_read(off, a).len() == 0,
{
    lemma_slice_reads_join(text::hello_content_spec(), off, a, b);
    assert(text::hello_content_spec().subrange(0, text::hello_content_spec().len() as int)
        =~= text::hello_content_spec());
}

/// Reading the greeting file ten bytes at a time from its start gives `hello from`, then
/// ` kernel\n` (eight bytes), then nothing: each read starts where the one before stopped,
/// as `FdTable::read` moves the offset by what it returns.
pub proof fn lemma_hello_ten_byte_reads()
    ensures
        hello_read(0, 10) == seq![104u8, 101u8, 108u8, 108u8, 111u8, 32u8, 102u8, 114u8, 111u8, 109u8],
        hello_read(10, 10) == seq![32u8, 107u8, 101u8, 114u8, 110u8, 101u8, 108u8, 10u8],
        hello_read(18, 10).len() == 0,
{
    assert(hello_read(0, 10) =~= seq![104u8, 101u8, 108u8, 108u8, 111u8, 32u8, 102u8, 114u8, 111u8, 109u8]);
    assert(hello_read(10, 10) =~= seq![32u8, 107u8, 101u8, 114u8, 110u8, 101u8, 108u8, 10u8]);
}

/// The bytes of an in-memory file after writing `data` at `off`: at most up to its capacity.
pub open spec fn memory_write(m: Seq<u8>, off: int, data: Seq<u8>) -> Seq<u8> {
    let n = written_len(off, data.len() as int);
    Seq::new(m.len(), |i: int| if off <= i < off + n { data[i - off] } else { m[i] })
}

/// How much of `len` bytes fits in an in-memory file from `off`.
pub open spec fn written_len(off: int, len: int) -> int {
    let room = if off < MEMORY_FILE_CAP { MEMORY_FILE_CAP - off } else { 0 };
    if len < room { len } else { room }
}

/// Reading back what was written: after writing `data` at `off` into an in-memory file of
/// `size` bytes, reading `data`'s length from `off` gives the part of `data` that fit.
pub proof fn lemma_memory_write_then_read(m: Seq<u8>, size: int, off: int, data: Seq<u8>)
    requires
        m.len() == MEMORY_FILE_CAP,
        0 <= off <= MEMORY_FILE_CAP,
        0 <= size <= MEMORY_FILE_CAP,
    ensures
        slice_read(memory_write(m, off, data).subrange(0, if size > off + written_len(off, data.len() as int) {
                size } else { off + written_len(off, data.len() as int) }), off, data.len() as int)
            == data.subrange(0, written_len(off, data.len() as int)),
{
    let n = written_len(off, data.len() as int);
    let new_size = if size > off + n { size } else { off + n };
    let w = memory_write(m, off, data);
    if n > 0 {
        assert(slice_read(w.subrange(0, new_size), off, data.len() as int) =~= data.subrange(0, n));
    } else {
        assert(data.subrange(0, n) =~= Seq::<u8>::empty());
    }
}

/// Reading from the pipe gives back what was last written to it, up to its capacity.
pub proof fn lemma_pipe_write_then_read(data: Seq<u8>, len: int)
    requires
        len > 0,
    ensures
        slice_read(data.subrange(0, if data.len() < MEMORY_FILE_CAP { data.len() as int } else { MEMORY_FILE_CAP as int }),
            0, len) == {
            let kept = if data.len() < MEMORY_FILE_CAP { data.len() as int } else { MEMORY_FILE_CAP as int };
            data.subrange(0, if len < kept { len } else { kept })
        },
{
    let kept = if data.len() < MEMORY_FILE_CAP { data.len() as int } else { MEMORY_FILE_CAP as int };
    if kept > 0 {
        assert(slice_read(data.subrange(0, kept), 0, len) =~= data.subrange(0, if len < kept { len } else { kept }));
    } else {
        assert(data.subrange(0, 0) =~= Seq::<u8>::empty());
    }
}

/// The bytes of an in-memory file of `size` bytes.
pub open spec fn file_bytes(m: Seq<u8>, size: u64) -> Seq<u8> {
    m.subrange(0, if size < MEMORY_FILE_CAP { size as int } else { MEMORY_FILE_CAP as int })
}

/// Copies what reading `len` bytes from `offset` of `data` gives.
fn copy_slice_read(data: &[u8], offset: usize, len: usize) -> (r: Vec<u8>)
    ensures
        r@ == slice_read(data@, offset as int, len as int),
{
    if offset >= data.len() || len == 0 {
        return Vec::new();
    }
    let remaining = data.len() - offset;
    let end = if len < remaining { offset + len } else { data.len() };
    copy_range(data, offset, end)
}

/// `read_at` of a fixed byte string: 0 bytes for a null buffer, no length, or an offset
/// past the end.
pub fn copy_slice_at(data: &[u8], offset: usize, buf: usize, len: usize) -> (r: (isize, Vec<u8>))
    requires
        data@.len() <= isize::MAX,
    ensures
        buf == 0 ==> r.1@.len() == 0,
        buf != 0 ==> r.1@ == slice_read(data@, offset as int, len as int),
        r.0 == r.1@.len(),
{
    if buf == 0 || len == 0 || offset >= data.len() {
        return (0, Vec::new());
    }
    let v = copy_slice_read(data, offset, len);
    (v.len() as isize, v)
}

impl FdTable {
    /// Writes `data` to the console: its length.
    fn write_console(&mut self, data: &[u8]) -> (r: isize)
        requires
            data@.len() <= isize::MAX,
        ensures
            r == data@.len(),
            final(self).console_spec() == old(self).console_spec() + data@,
            final(self).slots_spec() == old(self).slots_spec(),
            final(self).memory_spec() == old(self).memory_spec(),
            final(self).cwd_spec() == old(self).cwd_spec(),
            final(self).pipe_spec() == old(self).pipe_spec(),
            final(self).pipe_read_spec() == old(self).pipe_read_spec(),
    {
        crate::bytes::extend_from(&mut self.console, data);
        data.len() as isize
    }

    /// Replaces the pipe's contents with `data`, cut to its capacity.
    fn write_pipe(&mut self, buf: usize, data: &[u8]) -> (r: isize)
        requires
            old(self).wf(),
        ensures
            final(self).wf(),
            buf == 0 ==> r == -1 && *final(self) == *old(self),
            buf != 0 ==> r == (if data@.len() < MEMORY_FILE_CAP { data@.len() as int } else { MEMORY_FILE_CAP as int })
                && final(self).pipe_spec() == data@.subrange(0, r as int)
                && final(self).pipe_read_spec() == 0,
            final(self).slots_spec() == old(self).slots_spec(),
            final(self).memory_spec() == old(self).memory_spec(),
            final(self).cwd_spec() == old(self).cwd_spec(),
            final(self).console_spec() == old(self).console_spec(),
    {
        if buf == 0 {
            return -1;
        }
        let copy_len = if data.len() < MEMORY_FILE_CAP { data.len() } else { MEMORY_FILE_CAP };
        self.pipe = copy_range(data, 0, copy_len);
        self.pipe_read = 0;
        copy_len as isize
    }

    /// Reads from the pipe what was not read yet, up to `len` bytes.
    fn read_pipe(&mut self, buf: usize, len: usize) -> (r: (isize, Vec<u8>))
        requires
            old(self).wf(),
        ensures
            final(self).wf(),
            buf == 0 || len == 0 ==> r.0 == 0 && r.1@.len() == 0 && *final(self) == *old(self),
            buf != 0 && len != 0 ==> r.1@ == slice_read(old(self).pipe_spec(), old(self).pipe_read_spec(), len as int)
                && final(self).pipe_read_spec() == old(self).pipe_read_spec() + r.1@.len(),
            r.0 == r.1@.len(),
            final(self).pipe_spec() == old(self).pipe_spec(),
            final(self).slots_spec() == old(self).slots_spec(),
            final(self).memory_spec() == old(self).memory_spec(),
            final(self).cwd_spec() == old(self).cwd_spec(),
            final(self).console_spec() == old(self).console_spec(),
    {
        if buf == 0 || len == 0 {
            return (0, Vec::new());
        }
        if self.pipe_read >= self.pipe.len() {
            return (0, Vec::new());
        }
        let v = copy_slice_read(self.pipe.as_slice(), self.pipe_read, len);
        self.pipe_read = self.pipe_read + v.len();
        (v.len() as isize, v)
    }

    /// Reads `len` bytes of the in-memory file `fd` from `offset`, within its size.
    fn read_memory_at(&self, fd: usize, offset: usize, buf: usize, len: usize) -> (r: (isize, Vec<u8>))
        requires
            self.wf(),
        ensures
            buf == 0 || len == 0 ==> r.0 == 0 && r.1@.len() == 0,
            buf != 0 && len != 0 && descriptor_spec(self.slots_spec(), fd as int) is None ==> r.0 == -1 && r.1@.len() == 0,
            descriptor_spec(self.slots_spec(), fd as int) matches Some(d) ==> (buf != 0 && len != 0 ==>
                r.1@ == slice_read(file_bytes(self.memory_spec()[fd as int], d.size), offset as int, len as int)
                && r.0 == r.1@.len()),
    {
        if buf == 0 || len == 0 {
            return (0, Vec::new());
        }
        let d = match self.descriptor(fd) {
            Some(d) => d,
            None => return (-1, Vec::new()),
        };
        proof {
            assert(self.memory_spec()[fd as int] == self.memory@[fd as int]@);
        }
        let cap: usize = if d.size < MEMORY_FILE_CAP as u64 { d.size as usize } else { MEMORY_FILE_CAP };
        let contents = copy_range(self.memory[fd].as_slice(), 0, cap);
        let v = copy_slice_read(contents.as_slice(), offset, len);
        (v.len() as isize, v)
    }

    /// Reads the in-memory file `fd` from its offset and moves the offset past what was read.
    fn read_memory_file(&mut self, fd: usize, buf: usize, len: usize) -> (r: (isize, Vec<u8>))
        requires
            old(self).wf(),
        ensures
            final(self).wf(),
            descriptor_spec(old(self).slots_spec(), fd as int) is None ==> r.0 == -1 && *final(self) == *old(self),
            descriptor_spec(old(self).slots_spec(), fd as int) matches Some(d) ==> {
                let data = if buf == 0 || len == 0 { Seq::<u8>::empty() } else {
                    slice_read(file_bytes(old(self).memory_spec()[fd as int], d.size), d.offset as int, len as int)
                };
                &&& r.1@ == data
                &&& r.0 == data.len()
                &&& data.len() > 0 ==> final(self).slots_spec() == old(self).slots_spec().update(fd as int,
                    Some(FileDescriptor { offset: (d.offset + data.len()) as usize, ..d }))
                &&& data.len() == 0 ==> *final(self) == *old(self)
            },
            final(self).memory_spec() == old(self).memory_spec(),
            final(self).pipe_spec() == old(self).pipe_spec(),
            final(self).cwd_spec() == old(self).cwd_spec(),
            final(self).console_spec() == old(self).console_spec(),
    {
        let d = match self.descriptor(fd) {
            Some(d) => d,
            None => return (-1, Vec::new()),
        };
        let (n, v) = self.read_memory_at(fd, d.offset, buf, len);
        if n > 0 {
            let new_offset = if d.offset <= usize::MAX - v.len() { d.offset + v.len() } else { usize::MAX };
            proof {
                assert(self.memory_spec()[fd as int].len() == MEMORY_FILE_CAP);
            }
            self.slots.set(fd, Some(FileDescriptor { kind: d.kind, offset: new_offset, inode_no: d.inode_no, size: d.size }));
            proof {
                assert forall|i: int| 0 <= i < MAX_FD implies memory_ok(#[trigger] self.slots_spec()[i]) by {
                    if i != fd {
                        assert(self.slots_spec()[i] == old(self).slots_spec()[i]);
                    } else {
                        assert(memory_ok(old(self).slots_spec()[i]));
                    }
                }
            }
        }
        (n, v)
    }
}

/// What reading `len` bytes of the greeting file from `off` gives.
pub open spec fn hello_read(off: int, len: int) -> Seq<u8> {
    slice_read(text::hello_content_spec(), off, len)
}

/// `path` joined to a working directory `cwd`: `cwd/path`, cut to 128 bytes.
pub open spec fn join_cwd(cwd: Seq<u8>, path: Seq<u8>) -> Seq<u8> {
    let base = if cwd.len() < MAX_PATH_LEN { cwd.push(47u8) } else { cwd };
    base + crate::script::clip(path, MAX_PATH_LEN - base.len())
}

/// Opening `path` on the test disk: as given, else relative to `cwd` when it is relative
/// and there is a working directory.
pub open spec fn open_relative_spec(fs: Option<crate::ext4::Ext4Fs>, d: Seq<u8>, cwd: Seq<u8>, path: Seq<u8>)
    -> Option<crate::ext4::Ext4File>
{
    if crate::ext4_driver::open_spec(fs, d, path) is Some {
        crate::ext4_driver::open_spec(fs, d, path)
    } else if path.len() > 0 && path[0] == 47u8 {
        None
    } else if cwd.len() == 0 {
        None
    } else {
        crate::ext4_driver::open_spec(fs, d, join_cwd(cwd, path))
    }
}

/// The paths `openat` treats as directories: `.`, `./`, `./mnt`, `mnt` and `.../mnt`.
pub open spec fn dot_path(p: Seq<u8>) -> bool {
    p == text::dot_spec() || p == text::dot_slash_spec() || p == text::dot_mnt_spec() || p == text::mnt_word_spec()
        || crate::bytes::has_suffix(p, text::slash_mnt_spec())
}

/// Whether `path` is one `openat` treats as a directory.
fn is_dot_path(path: &[u8]) -> (r: bool)
    ensures
        r == dot_path(path@),
{
    let a = text::dot();
    let b = text::dot_slash();
    let c = text::dot_mnt();
    let d = text::mnt_word();
    let e = text::slash_mnt();
    crate::bytes::bytes_eq(path, a.as_slice()) || crate::bytes::bytes_eq(path, b.as_slice())
        || crate::bytes::bytes_eq(path, c.as_slice()) || crate::bytes::bytes_eq(path, d.as_slice())
        || crate::bytes::ends_with(path, e.as_slice())
}

/// `path` without its leading `./` parts and then one leading slash.
pub open spec fn strip_relative(p: Seq<u8>) -> Seq<u8>
    decreases p.len(),
{
    if p.len() >= 2 && p[0] == 46u8 && p[1] == 47u8 {
        strip_relative(p.subrange(2, p.len() as int))
    } else if p.len() >= 1 && p[0] == 47u8 {
        p.subrange(1, p.len() as int)
    } else {
        p
    }
}

/// The working directory `chdir` sets for `path`: `strip_relative(path)` cut to 128 bytes.
fn resolve_relative_path(path: &[u8]) -> (r: Vec<u8>)
    ensures
        r@ == crate::script::clip(strip_relative(path@), MAX_PATH_LEN as int),
{
    let mut start: usize = 0;
    assert(path@.subrange(0, path@.len() as int) =~= path@);
    while path.len() - start >= 2 && path[start] == 46u8 && path[start + 1] == 47u8
        invariant
            start <= path@.len(),
            strip_relative(path@) == strip_relative(path@.subrange(start as int, path@.len() as int)),
        decreases path@.len() - start,
    {
        assert(path@.subrange(start as int, path@.len() as int).subrange(2, path@.len() - start)
            =~= path@.subrange(start + 2, path@.len() as int));
        start = start + 2;
    }
    if path.len() - start >= 1 && path[start] == 47u8 {
        assert(path@.subrange(start as int, path@.len() as int).subrange(1, path@.len() - start)
            =~= path@.subrange(start + 1, path@.len() as int));
        start = start + 1;
    }
    let remaining = path.len() - start;
    let copy_len = if remaining < MAX_PATH_LEN { remaining } else { MAX_PATH_LEN };
    let r = copy_range(path, start, start + copy_len);
    assert(r@ =~= crate::script::clip(strip_relative(path@), MAX_PATH_LEN as int));
    r
}

/// The `getdents64` record of the one entry `.`.
pub open spec fn dot_dirent() -> Seq<u8> {
    seq![1u8, 0, 0, 0, 0, 0, 0, 0, 26u8, 0, 0, 0, 0, 0, 0, 0, 26u8, 0, 4u8, 46u8, 0, 0, 0, 0, 0, 0]
}

/// `getdents64`: one record for `.`, or -1 for a null or too small buffer.
pub fn getdents64(fd: usize, buf: usize, len: usize) -> (r: (isize, Vec<u8>))
    ensures
        buf == 0 || len < 32 ==> r.0 == -1 && r.1@.len() == 0,
        !(buf == 0 || len < 32) ==> r.0 == 26 && r.1@ == dot_dirent(),
{
    if buf == 0 || len < 32 {
        return (-1, Vec::new());
    }
    let name = text::dot_entry_name();
    let reclen: usize = 24 + name.len();
    let mut v: Vec<u8> = Vec::new();
    v.push(1u8);
    let mut i: usize = 1;
    while i < 8
        invariant
            1 <= i <= 8,
            v@.len() == i,
            v@[0] == 1u8,
            forall|j: int| 1 <= j < i ==> #[trigger] v@[j] == 0u8,
        decreases 8 - i,
    {
        v.push(0u8);
        i = i + 1;
    }
    v.push(reclen as u8);
    let mut k: usize = 0;
    while k < 7
        invariant
            k <= 7,
            v@.len() == 9 + k,
            v@[0] == 1u8,
            v@[8] == 26u8,
            forall|j: int| 1 <= j < 8 ==> #[trigger] v@[j] == 0u8,
            forall|j: int| 9 <= j < 9 + k ==> #[trigger] v@[j] == 0u8,
        decreases 7 - k,
    {
        v.push(0u8);
        k = k + 1;
    }
    v.push(reclen as u8);
    v.push(0u8);
    v.push(4u8);
    v.push(name[0]);
    v.push(name[1]);
    let mut m: usize = 0;
    while m < 5
        invariant
            m <= 5,
            v@.len() == 21 + m,
            v@[0] == 1u8,
            v@[8] == 26u8,
            v@[16] == 26u8,
            v@[17] == 0u8,
            v@[18] == 4u8,
            v@[19] == 46u8,
            v@[20] == 0u8,
            forall|j: int| 1 <= j < 8 ==> #[trigger] v@[j] == 0u8,
            forall|j: int| 9 <= j < 16 ==> #[trigger] v@[j] == 0u8,
            forall|j: int| 21 <= j < 21 + m ==> #[trigger] v@[j] == 0u8,
        decreases 5 - m,
    {
        v.push(0u8);
        m = m + 1;
    }
    assert(v@ =~= dot_dirent());
    (reclen as isize, v)
}

impl FdTable {
    /// Writes `data` into the in-memory file `fd` at its offset, as much as fits, and moves
    /// the offset past it.
    fn write_memory_file(&mut self, fd: usize, buf: usize, data: &[u8]) -> (r: isize)
        requires
            old(self).wf(),
            descriptor_spec(old(self).slots_spec(), fd as int) matches Some(d) ==> d.kind == FileKind::Memory,
        ensures
            final(self).wf(),
            buf == 0 || descriptor_spec(old(self).slots_spec(), fd as int) is None ==> r == -1 && *final(self) == *old(self),
            descriptor_spec(old(self).slots_spec(), fd as int) matches Some(d) ==> buf != 0 ==> {
                let n = written_len(d.offset as int, data@.len() as int);
                &&& r == n
                &&& final(self).memory_spec() == old(self).memory_spec().update(fd as int,
                    memory_write(old(self).memory_spec()[fd as int], d.offset as int, data@))
                &&& final(self).slots_spec() == old(self).slots_spec().update(fd as int, Some(FileDescriptor {
                    offset: (d.offset + n) as usize,
                    size: if d.size >= d.offset + n { d.size } else { (d.offset + n) as u64 },
                    ..d
                }))
            },
            final(self).pipe_spec() == old(self).pipe_spec(),
            final(self).pipe_read_spec() == old(self).pipe_read_spec(),
            final(self).cwd_spec() == old(self).cwd_spec(),
            final(self).console_spec() == old(self).console_spec(),
    {
        if buf == 0 {
            return -1;
        }
        let d = match self.descriptor(fd) {
            Some(d) => d,
            None => return -1,
        };
        proof {
            assert(memory_ok(self.slots_spec()[fd as int]));
            assert(self.memory_spec()[fd as int] == self.memory@[fd as int]@);
        }
        let offset = d.offset;
        let room: usize = if offset < MEMORY_FILE_CAP { MEMORY_FILE_CAP - offset } else { 0 };
        let copy_len: usize = if data.len() < room { data.len() } else { room };
        let mut m = copy_range(self.memory[fd].as_slice(), 0, MEMORY_FILE_CAP);
        let ghost m0 = m@;
        assert(m0 =~= old(self).memory_spec()[fd as int]);
        let mut i: usize = 0;
        while i < copy_len
            invariant
                i <= copy_len,
                offset + copy_len <= MEMORY_FILE_CAP,
                copy_len <= data@.len(),
                m@.len() == MEMORY_FILE_CAP,
                forall|j: int| 0 <= j < MEMORY_FILE_CAP ==> #[trigger] m@[j] == (if offset <= j < offset + i {
                    data@[j - offset] } else { m0[j] }),
            decreases copy_len - i,
        {
            m.set(offset + i, data[i]);
            i = i + 1;
        }
        proof {
            assert(m@ =~= memory_write(m0, offset as int, data@));
        }
        self.memory.set(fd, m);
        let end = offset + copy_len;
        let new_size: u64 = if d.size >= end as u64 { d.size } else { end as u64 };
        self.slots.set(fd, Some(FileDescriptor { kind: d.kind, offset: end, inode_no: d.inode_no, size: new_size }));
        proof {
            assert(self.memory_spec() =~= old(self).memory_spec().update(fd as int,
                memory_write(old(self).memory_spec()[fd as int], d.offset as int, data@)));
            assert forall|i: int| 0 <= i < MAX_FD implies (#[trigger] self.memory_spec()[i]).len() == MEMORY_FILE_CAP by {
                if i != fd {
                    assert(self.memory_spec()[i] == old(self).memory_spec()[i]);
                }
            }
            assert forall|i: int| 0 <= i < MAX_FD implies memory_ok(#[trigger] self.slots_spec()[i]) by {
                if i != fd {
                    assert(self.slots_spec()[i] == old(self).slots_spec()[i]);
                }
            }
        }
        copy_len as isize
    }

    /// Reads the greeting file `fd` from its offset and moves the offset past what was read.
    fn read_hello_file(&mut self, fd: usize, buf: usize, len: usize) -> (r: (isize, Vec<u8>))
        requires
            old(self).wf(),
            fd < MAX_FD,
            old(self).slots_spec()[fd as int] matches Some(d) ==> d.kind == FileKind::Hello,
        ensures
            final(self).wf(),
            buf == 0 ==> r.0 == -1 && r.1@.len() == 0 && *final(self) == *old(self),
            buf != 0 && len == 0 ==> r.0 == 0 && r.1@.len() == 0 && *final(self) == *old(self),
            buf != 0 && len != 0 && old(self).slots_spec()[fd as int] is None ==> r.0 == -1 && *final(self) == *old(self),
            buf != 0 && len != 0 && old(self).slots_spec()[fd as int] is Some ==> {
                let d = old(self).slots_spec()[fd as int]->0;
                &&& r.1@ == hello_read(d.offset as int, len as int)
                &&& r.0 == r.1@.len()
                &&& final(self).slots_spec() == old(self).slots_spec().update(fd as int,
                    Some(FileDescriptor { offset: (d.offset + r.1@.len()) as usize, ..d }))
            },
            final(self).memory_spec() == old(self).memory_spec(),
            final(self).pipe_spec() == old(self).pipe_spec(),
            final(self).cwd_spec() == old(self).cwd_spec(),
            final(self).console_spec() == old(self).console_spec(),
    {
        if buf == 0 {
            return (-1, Vec::new());
        }
        if len == 0 {
            return (0, Vec::new());
        }
        let d = match self.slots[fd] {
            Some(d) => d,
            None => return (-1, Vec::new()),
        };
        let hello = text::hello_content();
        let v = copy_slice_read(hello.as_slice(), d.offset, len);
        proof {
            assert(v@.len() <= 18);
            assert(d.offset < 18 ==> d.offset + v@.len() <= 18);
        }
        if v.len() > 0 {
            self.slots.set(fd, Some(FileDescriptor { kind: d.kind, offset: d.offset + v.len(), inode_no: d.inode_no,
                size: d.size }));
            proof {
                assert forall|i: int| 0 <= i < MAX_FD implies memory_ok(#[trigger] self.slots_spec()[i]) by {
                    if i != fd {
                        assert(self.slots_spec()[i] == old(self).slots_spec()[i]);
                    }
                }
            }
        } else {
            proof {
                assert(old(self).slots_spec().update(fd as int, Some(FileDescriptor { offset: (d.offset + 0) as usize, ..d }))
                    =~= old(self).slots_spec());
            }
        }
        (v.len() as isize, v)
    }
}

/// What reading `len` bytes of `d` from `off` on the test disk gives: the bytes, or `None`
/// when the read fails.
pub open spec fn ext4_read(drv: Ext4Driver, disk: Seq<u8>, d: FileDescriptor, off: int, len: int) -> Option<Seq<u8>> {
    match crate::ext4_driver::read_at_spec(drv.fs_spec(), disk,
        crate::ext4::Ext4File { inode_no: d.inode_no, size: d.size }, off, len) {
        Ok(v) => Some(v),
        Err(_) => None,
    }
}

impl FdTable {
    /// Reads the test-disk file `fd` from its offset and moves the offset past what was read.
    fn read_ext4_file(&mut self, fd: usize, buf: usize, len: usize, driver: &Ext4Driver, disk: &[u8]) -> (r: (isize, Vec<u8>))
        requires
            old(self).wf(),
            driver.wf(),
            fd < MAX_FD,
            len <= isize::MAX,
            old(self).slots_spec()[fd as int] matches Some(d) ==> d.kind == FileKind::Ext4,
        ensures
            final(self).wf(),
            buf == 0 ==> r.0 == -1 && *final(self) == *old(self),
            buf != 0 && len == 0 ==> r.0 == 0 && r.1@.len() == 0 && *final(self) == *old(self),
            buf != 0 && len != 0 && old(self).slots_spec()[fd as int] is None ==> r.0 == -1 && *final(self) == *old(self),
            buf != 0 && len != 0 && old(self).slots_spec()[fd as int] is Some ==> {
                let d = old(self).slots_spec()[fd as int]->0;
                match ext4_read(*driver, disk@, d, d.offset as int, len as int) {
                    None => r.0 == -1 && *final(self) == *old(self),
                    Some(v) => r.1@ == v && r.0 == v.len() && final(self).slots_spec() == old(self).slots_spec().update(
                        fd as int, Some(FileDescriptor {
                            offset: if d.offset + v.len() <= usize::MAX { (d.offset + v.len()) as usize } else { usize::MAX },
                            ..d
                        })),
                }
            },
            final(self).memory_spec() == old(self).memory_spec(),
            final(self).pipe_spec() == old(self).pipe_spec(),
            final(self).cwd_spec() == old(self).cwd_spec(),
            final(self).console_spec() == old(self).console_spec(),
    {
        if buf == 0 {
            return (-1, Vec::new());
        }
        if len == 0 {
            return (0, Vec::new());
        }
        let d = match self.slots[fd] {
            Some(d) => d,
            None => return (-1, Vec::new()),
        };
        let file = crate::ext4::Ext4File { inode_no: d.inode_no, size: d.size };
        let v = match driver.read_file_at(disk, file, d.offset, len) {
            Ok(v) => v,
            Err(_) => return (-1, Vec::new()),
        };
        let n: usize = v.len();
        let new_offset = if d.offset <= usize::MAX - n { d.offset + n } else { usize::MAX };
        self.slots.set(fd, Some(FileDescriptor { kind: d.kind, offset: new_offset, inode_no: d.inode_no, size: d.size }));
        proof {
            assert forall|i: int| 0 <= i < MAX_FD implies memory_ok(#[trigger] self.slots_spec()[i]) by {
                if i != fd {
                    assert(self.slots_spec()[i] == old(self).slots_spec()[i]);
                }
            }
        }
        (n as isize, v)
    }
}

/// The kind of the dynamic descriptor `fd`.
pub open spec fn kind_of(slots: Seq<Option<FileDescriptor>>, fd: int) -> Option<FileKind> {
    match descriptor_spec(slots, fd) {
        Some(d) => Some(d.kind),
        None => None,
    }
}

impl FdTable {
    /// `read_at` of a test-disk file: 0 for a null buffer or no length, -1 when `fd` is not
    /// open or the read fails.
    fn read_ext4_at(&self, fd: usize, offset: usize, buf: usize, len: usize, driver: &Ext4Driver, disk: &[u8])
        -> (r: (isize, Vec<u8>))
        requires
            self.wf(),
            driver.wf(),
            len <= isize::MAX,
        ensures
            buf == 0 || len == 0 ==> r.0 == 0 && r.1@.len() == 0,
            buf != 0 && len != 0 ==> match descriptor_spec(self.slots_spec(), fd as int) {
                None => r.0 == -1,
                Some(d) => match ext4_read(*driver, disk@, d, offset as int, len as int) {
                    None => r.0 == -1,
                    Some(v) => r.1@ == v && r.0 == v.len(),
                },
            },
    {
        if buf == 0 || len == 0 {
            return (0, Vec::new());
        }
        let d = match self.descriptor(fd) {
            Some(d) => d,
            None => return (-1, Vec::new()),
        };
        let file = crate::ext4::Ext4File { inode_no: d.inode_no, size: d.size };
        match driver.read_file_at(disk, file, offset, len) {
            Ok(v) => (v.len() as isize, v),
            Err(_) => (-1, Vec::new()),
        }
    }

    /// `read`: reads from `fd` into a buffer at `buf` of `len` bytes; the count and the bytes,
    /// or -1. Standard input and `/dev/null` give nothing.
    pub fn read(&mut self, fd: usize, buf: usize, len: usize, driver: &Ext4Driver, disk: &[u8]) -> (r: (isize, Vec<u8>))
        requires
            old(self).wf(),
            driver.wf(),
            len <= isize::MAX,
        ensures
            final(self).wf(),
            r.0 >= 0 ==> r.0 == r.1@.len(),
            fd == STDIN ==> r.0 == 0 && *final(self) == *old(self),
            fd != STDIN && kind_of(old(self).slots_spec(), fd as int) is None ==> r.0 == -1 && *final(self) == *old(self),
            fd != STDIN && kind_of(old(self).slots_spec(), fd as int) == Some(FileKind::DevNull) ==> r.0 == 0
                && *final(self) == *old(self),
            fd != STDIN && (kind_of(old(self).slots_spec(), fd as int) == Some(FileKind::Console)
                || kind_of(old(self).slots_spec(), fd as int) == Some(FileKind::Directory)
                || kind_of(old(self).slots_spec(), fd as int) == Some(FileKind::PipeWrite)) ==> r.0 == -1
                && *final(self) == *old(self),
            fd != STDIN && kind_of(old(self).slots_spec(), fd as int) == Some(FileKind::Hello) && buf == 0 ==> r.0 == -1
                && *final(self) == *old(self),
            fd != STDIN && kind_of(old(self).slots_spec(), fd as int) == Some(FileKind::Hello) && buf != 0 ==> {
                let d = old(self).slots_spec()[fd as int]->0;
                &&& r.1@ == hello_read(d.offset as int, len as int)
                &&& r.0 == r.1@.len()
                &&& final(self).slots_spec() == old(self).slots_spec().update(fd as int,
                    Some(FileDescriptor { offset: (d.offset + r.1@.len()) as usize, ..d }))
            },
            fd != STDIN && kind_of(old(self).slots_spec(), fd as int) == Some(FileKind::Memory) ==> {
                let d = old(self).slots_spec()[fd as int]->0;
                &&& r.1@ == (if buf == 0 || len == 0 { Seq::<u8>::empty() } else {
                    slice_read(file_bytes(old(self).memory_spec()[fd as int], d.size), d.offset as int, len as int) })
                &&& r.0 == r.1@.len()
                &&& final(self).slots_spec() == old(self).slots_spec().update(fd as int,
                    Some(FileDescriptor { offset: (d.offset + r.1@.len()) as usize, ..d }))
            },
            fd != STDIN && kind_of(old(self).slots_spec(), fd as int) == Some(FileKind::PipeRead) ==> {
                &&& r.1@ == (if buf == 0 || len == 0 { Seq::<u8>::empty() } else {
                    slice_read(old(self).pipe_spec(), old(self).pipe_read_spec(), len as int) })
                &&& r.0 == r.1@.len()
                &&& final(self).pipe_read_spec() == old(self).pipe_read_spec() + r.1@.len()
                &&& final(self).slots_spec() == old(self).slots_spec()
            },
            fd != STDIN && kind_of(old(self).slots_spec(), fd as int) == Some(FileKind::Ext4) && buf == 0 ==> r.0 == -1
                && *final(self) == *old(self),
            fd != STDIN && kind_of(old(self).slots_spec(), fd as int) == Some(FileKind::Ext4) && buf != 0 && len == 0 ==> r.0
                == 0 && r.1@.len() == 0 && *final(self) == *old(self),
            fd != STDIN && kind_of(old(self).slots_spec(), fd as int) == Some(FileKind::Ext4) && buf != 0 && len != 0 ==> {
                let d = old(self).slots_spec()[fd as int]->0;
                match ext4_read(*driver, disk@, d, d.offset as int, len as int) {
                    None => r.0 == -1 && *final(self) == *old(self),
                    Some(v) => r.1@ == v && r.0 == v.len() && final(self).slots_spec() == old(self).slots_spec().update(
                        fd as int, Some(FileDescriptor {
                            offset: if d.offset + v.len() <= usize::MAX { (d.offset + v.len()) as usize } else { usize::MAX },
                            ..d
                        })),
                }
            },
            final(self).memory_spec() == old(self).memory_spec(),
            final(self).pipe_spec() == old(self).pipe_spec(),
            final(self).cwd_spec() == old(self).cwd_spec(),
            final(self).console_spec() == old(self).console_spec(),
    {
        if fd == STDIN {
            return (0, Vec::new());
        }
        match self.descriptor_kind(fd) {
            Some(FileKind::DevNull) => (0, Vec::new()),
            Some(FileKind::Hello) => self.read_hello_file(fd, buf, len),
            Some(FileKind::Ext4) => self.read_ext4_file(fd, buf, len, driver, disk),
            Some(FileKind::Memory) => self.read_memory_file(fd, buf, len),
            Some(FileKind::PipeRead) => {
                let (n, v) = self.read_pipe(buf, len);
                proof {
                    assert(v@.len() <= MEMORY_FILE_CAP);
                }
                (n, v)
            },
            _ => (-1, Vec::new()),
        }
    }

    /// `write`: writes `data` (from a buffer at `buf`) to `fd`; the count, or -1.
    pub fn write(&mut self, fd: usize, buf: usize, data: &[u8]) -> (r: isize)
        requires
            old(self).wf(),
            data@.len() <= isize::MAX,
        ensures
            final(self).wf(),
            (fd == STDOUT || fd == STDERR || kind_of(old(self).slots_spec(), fd as int) == Some(FileKind::Console))
                ==> r == data@.len() && final(self).console_spec() == old(self).console_spec() + data@
                && final(self).slots_spec() == old(self).slots_spec(),
            !(fd == STDOUT || fd == STDERR) && kind_of(old(self).slots_spec(), fd as int) == Some(FileKind::DevNull)
                ==> r == data@.len() && *final(self) == *old(self),
            !(fd == STDOUT || fd == STDERR) && kind_of(old(self).slots_spec(), fd as int) == Some(FileKind::Memory)
                && buf != 0 ==> {
                let d = old(self).slots_spec()[fd as int]->0;
                let n = written_len(d.offset as int, data@.len() as int);
                &&& r == n
                &&& final(self).memory_spec() == old(self).memory_spec().update(fd as int,
                    memory_write(old(self).memory_spec()[fd as int], d.offset as int, data@))
                &&& final(self).slots_spec() == old(self).slots_spec().update(fd as int, Some(FileDescriptor {
                    offset: (d.offset + n) as usize,
                    size: if d.size >= d.offset + n { d.size } else { (d.offset + n) as u64 },
                    ..d
                }))
                &&& final(self).console_spec() == old(self).console_spec()
            },
            !(fd == STDOUT || fd == STDERR) && (kind_of(old(self).slots_spec(), fd as int) == Some(FileKind::Memory)
                || kind_of(old(self).slots_spec(), fd as int) == Some(FileKind::PipeWrite)) && buf == 0 ==> r == -1
                && *final(self) == *old(self),
            !(fd == STDOUT || fd == STDERR) && kind_of(old(self).slots_spec(), fd as int) == Some(FileKind::PipeWrite)
                && buf != 0 ==> r == (if data@.len() < MEMORY_FILE_CAP { data@.len() as int } else { MEMORY_FILE_CAP as int })
                && final(self).pipe_spec() == data@.subrange(0, r as int) && final(self).pipe_read_spec() == 0
                && final(self).slots_spec() == old(self).slots_spec(),
            !(fd == STDOUT || fd == STDERR) && (kind_of(old(self).slots_spec(), fd as int) is None
                || kind_of(old(self).slots_spec(), fd as int) == Some(FileKind::Directory)
                || kind_of(old(self).slots_spec(), fd as int) == Some(FileKind::Hello)
                || kind_of(old(self).slots_spec(), fd as int) == Some(FileKind::Ext4)
                || kind_of(old(self).slots_spec(), fd as int) == Some(FileKind::PipeRead)) ==> r == -1
                && *final(self) == *old(self),
    {
        if fd == STDOUT || fd == STDERR {
            return self.write_console(data);
        }
        match self.descriptor_kind(fd) {
            Some(FileKind::Console) => self.write_console(data),
            Some(FileKind::DevNull) => data.len() as isize,
            Some(FileKind::Memory) => self.write_memory_file(fd, buf, data),
            Some(FileKind::PipeWrite) => self.write_pipe(buf, data),
            _ => -1,
        }
    }

    /// `pread`: reads `len` bytes of `fd` from `offset` without moving its offset; 0 for
    /// descriptors that are not files.
    pub fn read_at(&self, fd: usize, offset: usize, buf: usize, len: usize, driver: &Ext4Driver, disk: &[u8])
        -> (r: (isize, Vec<u8>))
        requires
            self.wf(),
            driver.wf(),
            len <= isize::MAX,
        ensures
            r.0 >= 0 ==> r.0 == r.1@.len(),
            kind_of(self.slots_spec(), fd as int) == Some(FileKind::Memory) ==> r.1@ == (if buf == 0 || len == 0 {
                Seq::<u8>::empty() } else {
                slice_read(file_bytes(self.memory_spec()[fd as int], self.slots_spec()[fd as int]->0.size), offset as int,
                    len as int) }),
            kind_of(self.slots_spec(), fd as int) == Some(FileKind::Hello) ==> r.1@ == (if buf == 0 {
                Seq::<u8>::empty() } else { hello_read(offset as int, len as int) }),
            kind_of(self.slots_spec(), fd as int) == Some(FileKind::Memory) || kind_of(self.slots_spec(), fd as int)
                == Some(FileKind::Hello) ==> r.0 == r.1@.len(),
            kind_of(self.slots_spec(), fd as int) == Some(FileKind::Ext4) && (buf == 0 || len == 0) ==> r.0 == 0
                && r.1@.len() == 0,
            kind_of(self.slots_spec(), fd as int) == Some(FileKind::Ext4) && buf != 0 && len != 0 ==> match ext4_read(
                *driver, disk@, self.slots_spec()[fd as int]->0, offset as int, len as int) {
                None => r.0 == -1,
                Some(v) => r.1@ == v && r.0 == v.len(),
            },
            !(kind_of(self.slots_spec(), fd as int) == Some(FileKind::Memory)
                || kind_of(self.slots_spec(), fd as int) == Some(FileKind::Hello)
                || kind_of(self.slots_spec(), fd as int) == Some(FileKind::Ext4)) ==> r.0 == 0 && r.1@.len() == 0,
    {
        match self.descriptor_kind(fd) {
            Some(FileKind::Memory) => self.read_memory_at(fd, offset, buf, len),
            Some(FileKind::Hello) => {
                let hello = text::hello_content();
                copy_slice_at(hello.as_slice(), offset, buf, len)
            },
            Some(FileKind::Ext4) => self.read_ext4_at(fd, offset, buf, len, driver, disk),
            _ => (0, Vec::new()),
        }
    }

    /// The working directory.
    fn current_cwd(&self) -> (r: &Vec<u8>)
        ensures
            r@ == self.cwd_spec(),
    {
        &self.cwd
    }

    /// Opens `path` on the test disk, as given or relative to the working directory.
    fn open_ext4_relative(&self, path: &[u8], driver: &Ext4Driver, disk: &[u8]) -> (r: Option<crate::ext4::Ext4File>)
        requires
            self.wf(),
            driver.wf(),
        ensures
            r == open_relative_spec(driver.fs_spec(), disk@, self.cwd_spec(), path@),
    {
        match driver.open_path(disk, path) {
            Some(file) => return Some(file),
            None => {},
        }
        if path.len() > 0 && path[0] == 47u8 {
            return None;
        }
        let cwd = self.current_cwd();
        if cwd.len() == 0 {
            return None;
        }
        let mut full = copy_range(cwd.as_slice(), 0, cwd.len());
        if full.len() < MAX_PATH_LEN {
            full.push(47u8);
        }
        let room = MAX_PATH_LEN - full.len();
        let copy_len = if path.len() < room { path.len() } else { room };
        let part = copy_range(path, 0, copy_len);
        crate::bytes::extend_from(&mut full, part.as_slice());
        proof {
            assert(full@ =~= join_cwd(self.cwd_spec(), path@));
        }
        driver.open_path(disk, full.as_slice())
    }

    /// `openat`: opens `path` with `flags`; the new descriptor, or -1. `/dev/null`,
    /// directories, the greeting file, test-disk files and, with `O_CREATE`, new in-memory
    /// files can be opened.
    pub fn openat(&mut self, dirfd: usize, path: &[u8], flags: usize, mode: usize, driver: &Ext4Driver, disk: &[u8])
        -> (r: isize)
        requires
            old(self).wf(),
            driver.wf(),
        ensures
            final(self).wf(),
            ({
                let kind: Option<(FileKind, u32, u64)> = if path@ == text::dev_null_path_spec() {
                    Some((FileKind::DevNull, 0u32, 0u64))
                } else if flags & O_DIRECTORY != 0 || dot_path(path@) {
                    Some((FileKind::Directory, 0u32, 0u64))
                } else if path@ == text::hello_path_spec() {
                    Some((FileKind::Hello, 0u32, 18u64))
                } else if open_relative_spec(driver.fs_spec(), disk@, old(self).cwd_spec(), path@) is Some {
                    let f = open_relative_spec(driver.fs_spec(), disk@, old(self).cwd_spec(), path@)->0;
                    Some((FileKind::Ext4, f.inode_no, f.size))
                } else if flags & O_CREATE != 0 {
                    Some((FileKind::Memory, 0u32, 0u64))
                } else {
                    None
                };
                match kind {
                    None => r == -1 && *final(self) == *old(self),
                    Some(k) => match first_free(old(self).slots_spec(), FIRST_DYNAMIC_FD as int) {
                        None => r == -1 && final(self).slots_spec() == old(self).slots_spec(),
                        Some(fd) => r == fd && final(self).slots_spec() == old(self).slots_spec().update(fd,
                            Some(FileDescriptor { kind: k.0, offset: 0, inode_no: k.1, size: k.2 })),
                    },
                }
            }),
            final(self).memory_spec() == old(self).memory_spec(),
            final(self).pipe_spec() == old(self).pipe_spec(),
            final(self).cwd_spec() == old(self).cwd_spec(),
            final(self).console_spec() == old(self).console_spec(),
    {
        proof {
            lemma_first_free(self.slots_spec(), FIRST_DYNAMIC_FD as int);
        }
        let dev_null = text::dev_null_path();
        let hello = text::hello_path();
        let opened = if crate::bytes::bytes_eq(path, dev_null.as_slice()) {
            self.alloc_fd(FileKind::DevNull, 0, 0)
        } else if flags & O_DIRECTORY != 0 || is_dot_path(path) {
            self.alloc_fd(FileKind::Directory, 0, 0)
        } else if crate::bytes::bytes_eq(path, hello.as_slice()) {
            self.alloc_fd(FileKind::Hello, 0, 18)
        } else {
            match self.open_ext4_relative(path, driver, disk) {
                Some(file) => self.alloc_fd(FileKind::Ext4, file.inode_no, file.size),
                None => {
                    if flags & O_CREATE != 0 {
                        self.alloc_fd(FileKind::Memory, 0, 0)
                    } else {
                        return -1;
                    }
                },
            }
        };
        match opened {
            Some(fd) => fd as isize,
            None => -1,
        }
    }

    /// Takes the working directory the loader holds for the external program.
    pub fn reset_cwd_from_loader(&mut self, loader: &crate::loader::Loader)
        ensures
            final(self).cwd_spec() == crate::script::clip(loader.cwd_spec(), MAX_PATH_LEN as int),
            final(self).slots_spec() == old(self).slots_spec(),
            final(self).memory_spec() == old(self).memory_spec(),
            final(self).pipe_spec() == old(self).pipe_spec(),
            final(self).pipe_read_spec() == old(self).pipe_read_spec(),
            final(self).console_spec() == old(self).console_spec(),
    {
        let cwd = loader.external_cwd();
        self.cwd = crate::script::copy_path(cwd);
    }

    /// `getcwd`: the buffer's address and what goes at its start, `/` and the working
    /// directory and a NUL, the rest of the buffer being zero; -1 for a null or too small
    /// buffer.
    pub fn getcwd(&self, buf: usize, size: usize) -> (r: (isize, Vec<u8>))
        requires
            self.wf(),
        ensures
            buf == 0 || size == 0 || 2 + self.cwd_spec().len() > size ==> r.0 == -1 && r.1@.len() == 0,
            !(buf == 0 || size == 0 || 2 + self.cwd_spec().len() > size) ==> r.0 == buf as isize
                && r.1@ == seq![47u8] + self.cwd_spec() + seq![0u8],
    {
        if buf == 0 || size == 0 {
            return (-1, Vec::new());
        }
        let cwd = self.current_cwd();
        let needed = 1 + cwd.len() + 1;
        if needed > size {
            return (-1, Vec::new());
        }
        let mut out: Vec<u8> = Vec::new();
        out.push(47u8);
        crate::bytes::extend_from(&mut out, cwd.as_slice());
        out.push(0u8);
        assert(out@ =~= seq![47u8] + self.cwd_spec() + seq![0u8]);
        (buf as isize, out)
    }

    /// `chdir`: makes `path`, without leading `./` and one leading slash, the working
    /// directory.
    pub fn chdir(&mut self, path: &[u8]) -> (r: isize)
        ensures
            r == 0,
            final(self).cwd_spec() == crate::script::clip(strip_relative(path@), MAX_PATH_LEN as int),
            final(self).slots_spec() == old(self).slots_spec(),
            final(self).memory_spec() == old(self).memory_spec(),
            final(self).pipe_spec() == old(self).pipe_spec(),
            final(self).pipe_read_spec() == old(self).pipe_read_spec(),
            final(self).console_spec() == old(self).console_spec(),
    {
        self.cwd = resolve_relative_path(path);
        0
    }

    /// `pipe2`: empties the pipe and opens its two ends: 0 with the read and write
    /// descriptors, or -1.
    pub fn pipe2(&mut self, pipe: usize) -> (r: (isize, i32, i32))
        requires
            old(self).wf(),
        ensures
            final(self).wf(),
            pipe == 0 ==> r.0 == -1 && *final(self) == *old(self),
            pipe != 0 ==> final(self).pipe_spec() == Seq::<u8>::empty() && final(self).pipe_read_spec() == 0,
            r.0 == 0 ==> r.1 >= FIRST_DYNAMIC_FD && r.2 >= FIRST_DYNAMIC_FD && r.1 != r.2
                && final(self).slots_spec()[r.1 as int] == Some(FileDescriptor { kind: FileKind::PipeRead, offset: 0,
                    inode_no: 0, size: 0 })
                && final(self).slots_spec()[r.2 as int] == Some(FileDescriptor { kind: FileKind::PipeWrite, offset: 0,
                    inode_no: 0, size: 0 }),
            pipe != 0 && r.0 != 0 ==> forall|i: int| FIRST_DYNAMIC_FD <= i < MAX_FD ==> (#[trigger] final(self).slots_spec()[i]) is Some,
            final(self).memory_spec() == old(self).memory_spec(),
            final(self).cwd_spec() == old(self).cwd_spec(),
            final(self).console_spec() == old(self).console_spec(),
    {
        if pipe == 0 {
            return (-1, 0, 0);
        }
        self.pipe = Vec::new();
        self.pipe_read = 0;
        let ghost s0 = self.slots_spec();
        proof {
            lemma_first_free(s0, FIRST_DYNAMIC_FD as int);
        }
        let read_fd = match self.alloc_fd(FileKind::PipeRead, 0, 0) {
            Some(fd) => fd,
            None => return (-1, 0, 0),
        };
        let ghost s1 = self.slots_spec();
        proof {
            lemma_first_free(s1, FIRST_DYNAMIC_FD as int);
        }
        let write_fd = match self.alloc_fd(FileKind::PipeWrite, 0, 0) {
            Some(fd) => fd,
            None => return (-1, 0, 0),
        };
        (0, read_fd as i32, write_fd as i32)
    }
}

} // verus!
