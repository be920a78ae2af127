//! Plain data shared with user space: time values, file and memory advice
//! records, page-cache page states and user-space addresses.
use vstd::prelude::*;
use crate::time::SyscallErr;
use crate::time_value::TimeValue;

verus! {

/// Seconds and nanoseconds.
#[derive(Debug, Clone, Copy, PartialEq, Eq, Structural)]
pub struct Timespec {
    pub tv_sec: i64,
    pub tv_nsec: i64,
}

/// Seconds and microseconds.
#[derive(Debug, Clone, Copy, PartialEq, Eq, Structural)]
pub struct Timeval {
    pub tv_sec: i64,
    pub tv_usec: i64,
}

/// A broken-down time of a real-time clock.
#[allow(non_camel_case_types)]
#[derive(Debug, Clone, Copy, PartialEq, Eq, Structural)]
pub struct rtc_time {
    pub tm_sec: i32,
    pub tm_min: i32,
    pub tm_hour: i32,
    pub tm_mday: i32,
    pub tm_mon: i32,
    pub tm_year: i32,
    pub tm_wday: i32,
    pub tm_yday: i32,
    pub tm_isdst: i32,
}

/// Access and modification times of a file, in seconds.
#[allow(non_camel_case_types)]
#[derive(Debug, Clone, Copy, PartialEq, Eq, Structural)]
pub struct utimbuf {
    pub actime: i64,
    pub modtime: i64,
}

/// The setting of an interval timer.
#[allow(non_camel_case_types)]
#[derive(Debug, Clone, Copy, PartialEq, Eq, Structural)]
pub struct itimerspec {
    /// The period of a periodic timer.
    pub it_interval: Timespec,
    /// The time until the first expiry.
    pub it_value: Timespec,
}

impl Default for itimerspec {
    /// A disarmed timer: both times zero.
    fn default() -> (r: Self)
        ensures
            r.it_interval == (Timespec { tv_sec: 0, tv_nsec: 0 }),
            r.it_value == (Timespec { tv_sec: 0, tv_nsec: 0 }),
    {
        itimerspec { it_interval: Timespec { tv_sec: 0, tv_nsec: 0 }, it_value: Timespec { tv_sec: 0, tv_nsec: 0 } }
    }
}

/// The header of a file-access notification.
#[derive(Debug, Clone, Copy, PartialEq, Eq, Structural)]
pub struct FanotifyEventMetadata {
    pub event_len: u32,
    pub vers: u8,
    pub reserved: u8,
    pub metadata_len: u16,
    pub mask: u64,
    pub fd: i32,
    pub pid: i32,
}

/// Advice about how a memory range will be used (`madvise`).
#[allow(non_camel_case_types)]
#[derive(Debug, Clone, Copy, PartialEq, Eq, Structural)]
pub enum Madv {
    MADV_NORMAL,
    MADV_RANDOM,
    MADV_SEQUENTIAL,
    MADV_WILLNEED,
    MADV_DONTNEED,
    MADV_FREE,
    MADV_REMOVE,
    MADV_DONTFORK,
    MADV_DOFORK,
    MADV_MERGEABLE,
    MADV_UNMERGEABLE,
    MADV_HUGEPAGE,
    MADV_NOHUGEPAGE,
    MADV_DONTDUMP,
    MADV_DODUMP,
    MADV_WIPEONFORK,
    MADV_KEEPONFORK,
    MADV_COLD,
    MADV_PAGEOUT,
    MADV_POPULATE_READ,
    MADV_POPULATE_WRITE,
    MADV_HWPOISON,
}

impl Madv {
    /// The number of this advice.
    pub open spec fn value_spec(self) -> i32 {
        match self {
            Madv::MADV_NORMAL => 0i32,
            Madv::MADV_RANDOM => 1i32,
            Madv::MADV_SEQUENTIAL => 2i32,
            Madv::MADV_WILLNEED => 3i32,
            Madv::MADV_DONTNEED => 4i32,
            Madv::MADV_FREE => 8i32,
            Madv::MADV_REMOVE => 9i32,
            Madv::MADV_DONTFORK => 10i32,
            Madv::MADV_DOFORK => 11i32,
            Madv::MADV_MERGEABLE => 12i32,
            Madv::MADV_UNMERGEABLE => 13i32,
            Madv::MADV_HUGEPAGE => 14i32,
            Madv::MADV_NOHUGEPAGE => 15i32,
            Madv::MADV_DONTDUMP => 16i32,
            Madv::MADV_DODUMP => 17i32,
            Madv::MADV_WIPEONFORK => 18i32,
            Madv::MADV_KEEPONFORK => 19i32,
            Madv::MADV_COLD => 20i32,
            Madv::MADV_PAGEOUT => 21i32,
            Madv::MADV_POPULATE_READ => 22i32,
            Madv::MADV_POPULATE_WRITE => 23i32,
            Madv::MADV_HWPOISON => 100i32,
        }
    }

    /// The number of this advice.
    pub fn value(&self) -> (r: i32)
        ensures
            r == self.value_spec(),
    {
        match self {
            Madv::MADV_NORMAL => 0i32,
            Madv::MADV_RANDOM => 1i32,
            Madv::MADV_SEQUENTIAL => 2i32,
            Madv::MADV_WILLNEED => 3i32,
            Madv::MADV_DONTNEED => 4i32,
            Madv::MADV_FREE => 8i32,
            Madv::MADV_REMOVE => 9i32,
            Madv::MADV_DONTFORK => 10i32,
            Madv::MADV_DOFORK => 11i32,
            Madv::MADV_MERGEABLE => 12i32,
            Madv::MADV_UNMERGEABLE => 13i32,
            Madv::MADV_HUGEPAGE => 14i32,
            Madv::MADV_NOHUGEPAGE => 15i32,
            Madv::MADV_DONTDUMP => 16i32,
            Madv::MADV_DODUMP => 17i32,
            Madv::MADV_WIPEONFORK => 18i32,
            Madv::MADV_KEEPONFORK => 19i32,
            Madv::MADV_COLD => 20i32,
            Madv::MADV_PAGEOUT => 21i32,
            Madv::MADV_POPULATE_READ => 22i32,
            Madv::MADV_POPULATE_WRITE => 23i32,
            Madv::MADV_HWPOISON => 100i32,
        }
    }

    /// The advice with number `v`, if there is one.
    pub fn from_repr(v: i32) -> (r: Option<Madv>)
        ensures
            match r {
                Some(m) => m.value_spec() == v,
                None => forall|m: Madv| #[trigger] m.value_spec() != v,
            },
    {
        match v {
            0i32 => Some(Madv::MADV_NORMAL),
            1i32 => Some(Madv::MADV_RANDOM),
            2i32 => Some(Madv::MADV_SEQUENTIAL),
            3i32 => Some(Madv::MADV_WILLNEED),
            4i32 => Some(Madv::MADV_DONTNEED),
            8i32 => Some(Madv::MADV_FREE),
            9i32 => Some(Madv::MADV_REMOVE),
            10i32 => Some(Madv::MADV_DONTFORK),
            11i32 => Some(Madv::MADV_DOFORK),
            12i32 => Some(Madv::MADV_MERGEABLE),
            13i32 => Some(Madv::MADV_UNMERGEABLE),
            14i32 => Some(Madv::MADV_HUGEPAGE),
            15i32 => Some(Madv::MADV_NOHUGEPAGE),
            16i32 => Some(Madv::MADV_DONTDUMP),
            17i32 => Some(Madv::MADV_DODUMP),
            18i32 => Some(Madv::MADV_WIPEONFORK),
            19i32 => Some(Madv::MADV_KEEPONFORK),
            20i32 => Some(Madv::MADV_COLD),
            21i32 => Some(Madv::MADV_PAGEOUT),
            22i32 => Some(Madv::MADV_POPULATE_READ),
            23i32 => Some(Madv::MADV_POPULATE_WRITE),
            100i32 => Some(Madv::MADV_HWPOISON),
            _ => None,
        }
    }
}

/// The state of a page of the page cache.
#[derive(Debug, Clone, Copy, PartialEq, Eq, Structural)]
pub enum PageState {
    UpToDate,
    Dirty,
    WriteBack,
    ToWrite,
}

/// A page of the page cache: its physical address and its state.
#[derive(Debug, Clone, Copy, PartialEq, Eq, Structural)]
pub struct CachePage {
    pub addr: usize,
    pub state: PageState,
}

impl CachePage {
    /// A page just read in: up to date.
    pub fn new(addr: usize) -> (r: Self)
        ensures
            r == (CachePage { addr, state: PageState::UpToDate }),
    {
        CachePage { addr, state: PageState::UpToDate }
    }

    /// Marks the page written to.
    pub fn mark_dirty(&mut self)
        ensures
            *final(self) == (CachePage { addr: old(self).addr, state: PageState::Dirty }),
    {
        self.state = PageState::Dirty;
    }

    /// Marks the page as being written back.
    pub fn mark_write_back(&mut self)
        ensures
            *final(self) == (CachePage { addr: old(self).addr, state: PageState::WriteBack }),
    {
        self.state = PageState::WriteBack;
    }

    /// Marks the page as due to be written back.
    pub fn mark_to_write(&mut self)
        ensures
            *final(self) == (CachePage { addr: old(self).addr, state: PageState::ToWrite }),
    {
        self.state = PageState::ToWrite;
    }

    /// Marks the page as matching the file.
    pub fn mark_up_to_date(&mut self)
        ensures
            *final(self) == (CachePage { addr: old(self).addr, state: PageState::UpToDate }),
    {
        self.state = PageState::UpToDate;
    }

    /// Whether the page was written to.
    pub fn is_dirty(&self) -> (r: bool)
        ensures
            r == (self.state == PageState::Dirty),
    {
        self.state == PageState::Dirty
    }

    /// Whether the page is being written back.
    pub fn is_write_back(&self) -> (r: bool)
        ensures
            r == (self.state == PageState::WriteBack),
    {
        self.state == PageState::WriteBack
    }

    /// Whether the page is due to be written back.
    pub fn is_to_write(&self) -> (r: bool)
        ensures
            r == (self.state == PageState::ToWrite),
    {
        self.state == PageState::ToWrite
    }

    /// Whether the page matches the file.
    pub fn is_up_to_date(&self) -> (r: bool)
        ensures
            r == (self.state == PageState::UpToDate),
    {
        self.state == PageState::UpToDate
    }
}

/// What a file system says of a file: its type code, permission bits, device, inode,
/// link count, owner, size, block size, blocks, device number and times.
#[derive(Debug, Clone, Copy, PartialEq, Eq, Structural)]
pub struct Metadata {
    pub node_type: u8,
    pub mode: u16,
    pub device: u64,
    pub inode: u64,
    pub nlink: u64,
    pub uid: u32,
    pub gid: u32,
    pub size: u64,
    pub block_size: u64,
    pub blocks: u64,
    pub rdev: u64,
    pub atime: TimeValue,
    pub mtime: TimeValue,
    pub ctime: TimeValue,
}

/// The status of a file as the kernel reports it.
#[derive(Debug, Clone, Copy, PartialEq, Eq, Structural)]
pub struct Kstat {
    pub dev: u64,
    pub ino: u64,
    pub nlink: u32,
    pub mode: u32,
    pub uid: u32,
    pub gid: u32,
    pub size: u64,
    pub blksize: u32,
    pub blocks: u64,
    pub rdev: u64,
    pub atime: TimeValue,
    pub mtime: TimeValue,
    pub ctime: TimeValue,
}

impl Default for Kstat {
    /// Device 0, inode 1, one link, owner 1:1, empty, blocks of 4096 bytes, times zero.
    fn default() -> (r: Self)
        ensures
            r.dev == 0 && r.ino == 1 && r.nlink == 1 && r.mode == 0 && r.uid == 1 && r.gid == 1,
            r.size == 0 && r.blksize == 4096 && r.blocks == 0 && r.rdev == 0,
            r.atime.total() == 0 && r.mtime.total() == 0 && r.ctime.total() == 0,
    {
        let zero = TimeValue::new(0, 0);
        Kstat {
            dev: 0,
            ino: 1,
            nlink: 1,
            mode: 0,
            uid: 1,
            gid: 1,
            size: 0,
            blksize: 4096,
            blocks: 0,
            rdev: 0,
            atime: zero,
            mtime: zero,
            ctime: zero,
        }
    }
}

/// The low 32 bits of `x`.
fn low32(x: u64) -> (r: u32)
    ensures
        r == x % 0x1_0000_0000,
{
    (x % 0x1_0000_0000) as u32
}

/// The status of a file from its metadata: the type code shifted above the twelve
/// permission bits and or-ed with them in the mode, the link count and the block size cut to 32 bits, the rest as it is.
pub fn metadata_to_kstat(metadata: &Metadata) -> (r: Kstat)
    ensures
        r == (Kstat {
            dev: metadata.device,
            ino: metadata.inode,
            nlink: (metadata.nlink % 0x1_0000_0000) as u32,
            mode: ((metadata.node_type as u32) << 12u32) | (metadata.mode as u32),
            uid: metadata.uid,
            gid: metadata.gid,
            size: metadata.size,
            blksize: (metadata.block_size % 0x1_0000_0000) as u32,
            blocks: metadata.blocks,
            rdev: metadata.rdev,
            atime: metadata.atime,
            mtime: metadata.mtime,
            ctime: metadata.ctime,
        }),
{
    let ty: u32 = metadata.node_type as u32;
    let perm: u32 = metadata.mode as u32;
    let mode: u32 = (ty << 12u32) | perm;
    Kstat {
        dev: metadata.device,
        ino: metadata.inode,
        mode,
        nlink: low32(metadata.nlink),
        uid: metadata.uid,
        gid: metadata.gid,
        size: metadata.size,
        blksize: low32(metadata.block_size),
        blocks: metadata.blocks,
        rdev: metadata.rdev,
        atime: metadata.atime,
        mtime: metadata.mtime,
        ctime: metadata.ctime,
    }
}

/// Mapping protection: readable.
pub const PROT_READ: u32 = 0x1;
/// Mapping protection: writable.
pub const PROT_WRITE: u32 = 0x2;
/// Mapping protection: executable.
pub const PROT_EXEC: u32 = 0x4;
/// Mapping protection: extends down to the next mapping.
pub const PROT_GROWSDOWN: u32 = 0x0100_0000;
/// Mapping protection: extends up to the next mapping.
pub const PROT_GROWSUP: u32 = 0x0200_0000;

/// The protection bits that `mmap` and `mprotect` take.
#[derive(Debug, Clone, Copy, PartialEq, Eq, Structural)]
pub struct MmapProt(pub u32);

/// Page mapping flag: readable.
pub const MAPPING_READ: usize = 0x1;
/// Page mapping flag: writable.
pub const MAPPING_WRITE: usize = 0x2;
/// Page mapping flag: executable.
pub const MAPPING_EXECUTE: usize = 0x4;
/// Page mapping flag: reachable from user mode.
pub const MAPPING_USER: usize = 0x8;

/// The flags of a page mapping.
#[derive(Debug, Clone, Copy, PartialEq, Eq, Structural)]
pub struct MappingFlags(pub usize);

/// The mapping flags of a user mapping with protection `prot`: readable, writable and
/// executable as the protection says.
pub open spec fn mapping_bits(prot: u32) -> usize {
    (MAPPING_USER + (if prot & PROT_READ == PROT_READ {
        MAPPING_READ
    } else {
        0
    }) + (if prot & PROT_WRITE == PROT_WRITE {
        MAPPING_WRITE
    } else {
        0
    }) + (if prot & PROT_EXEC == PROT_EXEC {
        MAPPING_EXECUTE
    } else {
        0
    })) as usize
}

impl MmapProt {
    /// The flags of a user mapping with this protection.
    pub fn to_mapping_flags(&self) -> (r: MappingFlags)
        ensures
            r.0 == mapping_bits(self.0),
    {
        let mut flags: usize = MAPPING_USER;
        if self.0 & PROT_READ == PROT_READ {
            flags = flags + MAPPING_READ;
        }
        if self.0 & PROT_WRITE == PROT_WRITE {
            flags = flags + MAPPING_WRITE;
        }
        if self.0 & PROT_EXEC == PROT_EXEC {
            flags = flags + MAPPING_EXECUTE;
        }
        MappingFlags(flags)
    }
}

impl From<MmapProt> for MappingFlags {
    /// The flags of a user mapping with this protection.
    fn from(value: MmapProt) -> (r: MappingFlags) {
        value.to_mapping_flags()
    }
}

impl vstd::std_specs::convert::FromSpecImpl<MmapProt> for MappingFlags {
    open spec fn obeys_from_spec() -> bool {
        true
    }

    open spec fn from_spec(v: MmapProt) -> MappingFlags {
        MappingFlags(mapping_bits(v.0))
    }
}

/// Open flag: append on each write.
pub const O_APPEND: u32 = 0o2000;
/// Open flag: truncate to length 0.
pub const O_TRUNC: u32 = 0o1000;
/// Open flag: create where missing.
pub const O_CREAT: u32 = 0o100;
/// Open flag: fail where the file exists, with `O_CREAT`.
pub const O_EXCL: u32 = 0o200;
/// Open flag: the path must name a directory.
pub const O_DIRECTORY: u32 = 0o200000;
/// Open flag: bypass the page cache.
pub const O_DIRECT: u32 = 0o40000;
/// Open flag: open the path only, not the file.
pub const O_PATH: u32 = 0o10000000;
/// Open flag: open for execution; the same bit as `O_PATH`.
pub const O_EXEC: u32 = O_PATH;
/// Open access mode: write only.
pub const O_WRONLY: u32 = 1;

/// How to open a file: the access wanted, what to do where it exists or not, and the mode
/// and owner of a file created.
#[derive(Debug, Clone, Copy, PartialEq, Eq, Structural)]
pub struct OpenOptions {
    pub read: bool,
    pub write: bool,
    pub append: bool,
    pub truncate: bool,
    pub create: bool,
    pub create_new: bool,
    pub execute: bool,
    pub directory: bool,
    pub direct: bool,
    pub path: bool,
    pub mode: u32,
    pub uid: u32,
    pub gid: u32,
}

/// The bits of `x` as an unsigned number.
pub open spec fn u32_bits(x: i32) -> u32 {
    if x >= 0 {
        x as u32
    } else {
        (x + 0x1_0000_0000) as u32
    }
}

/// The open options that the open flags `flags` ask for: access mode 0 reads, 1 writes,
/// any other does both; each flag bit sets its option; the mode and the owner are kept.
pub fn flags_to_options(flags: i32, mode: u32, owner: (u32, u32)) -> (r: OpenOptions)
    ensures
        ({
            let f = u32_bits(flags);
            r == OpenOptions {
                read: f & 3 != O_WRONLY,
                write: f & 3 != 0,
                append: f & O_APPEND != 0,
                truncate: f & O_TRUNC != 0,
                create: f & O_CREAT != 0,
                create_new: f & O_EXCL != 0,
                execute: f & O_EXEC != 0,
                directory: f & O_DIRECTORY != 0,
                direct: f & O_DIRECT != 0,
                path: f & O_PATH != 0,
                mode,
                uid: owner.0,
                gid: owner.1,
            }
        }),
{
    let f: u32 = if flags >= 0 {
        flags as u32
    } else {
        let above: i32 = flags - i32::MIN;
        above as u32 + 0x8000_0000u32
    };
    let access: u32 = f & 3;
    let read: bool = access != O_WRONLY;
    let write: bool = access != 0;
    OpenOptions {
        read,
        write,
        append: f & O_APPEND != 0,
        truncate: f & O_TRUNC != 0,
        create: f & O_CREAT != 0,
        create_new: f & O_EXCL != 0,
        execute: f & O_EXEC != 0,
        directory: f & O_DIRECTORY != 0,
        direct: f & O_DIRECT != 0,
        path: f & O_PATH != 0,
        mode,
        uid: owner.0,
        gid: owner.1,
    }
}

/// log2 of the page size.
pub const PAGE_SHIFT: u64 = 12;

/// The page of a file that byte `offset` lies in.
pub fn page_index(offset: u64) -> (r: u64)
    ensures
        r == offset / 4096,
{
    offset / 4096
}

/// Where byte `offset` lies within its page.
pub fn page_offset(offset: u64) -> (r: usize)
    ensures
        r == offset % 4096,
{
    (offset % 4096) as usize
}

/// A writable address in user space.
#[derive(Debug, Clone, Copy, PartialEq, Eq, Structural)]
pub struct UserPtr {
    pub addr: usize,
}

/// A read-only address in user space.
#[derive(Debug, Clone, Copy, PartialEq, Eq, Structural)]
pub struct UserConstPtr {
    pub addr: usize,
}

impl UserPtr {
    /// The pointer to `addr`.
    pub fn from_addr(addr: usize) -> (r: Self)
        ensures
            r.addr == addr,
    {
        UserPtr { addr }
    }

    /// The null pointer.
    pub fn null() -> (r: Self)
        ensures
            r.addr == 0,
    {
        UserPtr { addr: 0 }
    }

    /// The address.
    pub fn address(&self) -> (r: usize)
        ensures
            r == self.addr,
    {
        self.addr
    }

    /// Whether this is the null pointer.
    pub fn is_null(&self) -> (r: bool)
        ensures
            r == (self.addr == 0),
    {
        self.addr == 0
    }

    /// The pointer `count` elements of `elem_size` bytes further.
    pub fn offset(self, count: usize, elem_size: usize) -> (r: Self)
        requires
            self.addr + count * elem_size <= usize::MAX,
        ensures
            r.addr == self.addr + count * elem_size,
    {
        proof {
            assert(0 <= count * elem_size) by (nonlinear_arith);
        }
        UserPtr { addr: self.addr + count * elem_size }
    }
}

impl UserConstPtr {
    /// The pointer to `addr`.
    pub fn from_addr(addr: usize) -> (r: Self)
        ensures
            r.addr == addr,
    {
        UserConstPtr { addr }
    }

    /// The null pointer.
    pub fn null() -> (r: Self)
        ensures
            r.addr == 0,
    {
        UserConstPtr { addr: 0 }
    }

    /// The address.
    pub fn address(&self) -> (r: usize)
        ensures
            r == self.addr,
    {
        self.addr
    }

    /// Whether this is the null pointer.
    pub fn is_null(&self) -> (r: bool)
        ensures
            r == (self.addr == 0),
    {
        self.addr == 0
    }

    /// The pointer `count` elements of `elem_size` bytes further.
    pub fn offset(self, count: usize, elem_size: usize) -> (r: Self)
        requires
            self.addr + count * elem_size <= usize::MAX,
        ensures
            r.addr == self.addr + count * elem_size,
    {
        proof {
            assert(0 <= count * elem_size) by (nonlinear_arith);
        }
        UserConstPtr { addr: self.addr + count * elem_size }
    }
}

/// Setting a scheduling policy: accepted, with no effect.
pub fn sys_sched_setscheduler() -> (r: Result<usize, SyscallErr>)
    ensures
        r == Ok::<usize, SyscallErr>(0),
{
    Ok(0)
}

/// Asking for the scheduling policy: the default policy, 0.
pub fn sys_sched_getscheduler() -> (r: Result<usize, SyscallErr>)
    ensures
        r == Ok::<usize, SyscallErr>(0),
{
    Ok(0)
}

/// The size in bytes of the CPU set the kernel keeps for a thread.
pub const CPU_SET_BYTES: usize = 128;

/// The thread a scheduling call means: the calling thread for pid 0, else the thread of
/// that id.
pub open spec fn target_tid(pid: usize, current_tid: usize) -> usize {
    if pid == 0 {
        current_tid
    } else {
        pid
    }
}

/// `sched_getaffinity`, up to finding the thread: `EINVAL` for an empty set size,
/// `EFAULT` where the set cannot be written; otherwise the thread to ask (`target_tid`)
/// and how many bytes of its CPU set to copy out: the set size, at most the kernel's.
/// The kernel looks the thread up and `sched_getaffinity_reply` gives the answer.
pub fn sys_sched_getaffinity(pid: usize, cpusetsize: usize, user_ok: bool, current_tid: usize) -> (r:
    Result<(usize, usize), SyscallErr>)
    ensures
        r == (if cpusetsize == 0 {
            Err(SyscallErr::EINVAL)
        } else if !user_ok {
            Err(SyscallErr::EFAULT)
        } else {
            Ok(
                (
                    target_tid(pid, current_tid),
                    if cpusetsize < CPU_SET_BYTES {
                        cpusetsize
                    } else {
                        CPU_SET_BYTES
                    },
                ),
            )
        }),
{
    if cpusetsize == 0 {
        return Err(SyscallErr::EINVAL);
    }
    if !user_ok {
        return Err(SyscallErr::EFAULT);
    }
    let tid: usize = if pid == 0 {
        current_tid
    } else {
        pid
    };
    let len: usize = if cpusetsize < CPU_SET_BYTES {
        cpusetsize
    } else {
        CPU_SET_BYTES
    };
    Ok((tid, len))
}

/// `sched_getaffinity` once the thread `sys_sched_getaffinity` names has been looked up:
/// `ESRCH` where it is gone (`None`), else 0 and the first `len` bytes of its CPU set, at
/// most the whole set, which are what is copied out to the caller's mask.
pub fn sched_getaffinity_reply(cpu_set: &Option<Vec<u8>>, len: usize) -> (r: Result<(usize, Vec<u8>), SyscallErr>)
    ensures
        match cpu_set {
            None => r == Err::<(usize, Vec<u8>), SyscallErr>(SyscallErr::ESRCH),
            Some(set) => r matches Ok((n, bytes)) && n == 0 && bytes@ == set@.take(
                if len < set@.len() { len as int } else { set@.len() as int },
            ),
        },
{
    match cpu_set {
        None => Err(SyscallErr::ESRCH),
        Some(set) => {
            let n: usize = if len < set.len() { len } else { set.len() };
            let bytes = crate::bytes::copy_range(set.as_slice(), 0, n);
            assert(bytes@ =~= set@.take(n as int));
            Ok((0, bytes))
        },
    }
}

/// `sched_setaffinity`, up to finding the thread: `EINVAL` for a set smaller than a word
/// of 8 bytes,
/// `EFAULT` where the set cannot be read; otherwise the thread to set (`target_tid`).
pub fn sys_sched_setaffinity(pid: usize, cpusetsize: usize, user_ok: bool, current_tid: usize) -> (r:
    Result<usize, SyscallErr>)
    ensures
        r == (if cpusetsize < 8 {
            Err(SyscallErr::EINVAL)
        } else if !user_ok {
            Err(SyscallErr::EFAULT)
        } else {
            Ok(target_tid(pid, current_tid))
        }),
{
    if cpusetsize < 8 {
        return Err(SyscallErr::EINVAL);
    }
    if !user_ok {
        return Err(SyscallErr::EFAULT);
    }
    if pid == 0 {
        Ok(current_tid)
    } else {
        Ok(pid)
    }
}

/// A resource limit: the soft limit and the hard one.
#[derive(Debug, Clone, Copy, PartialEq, Eq, Structural)]
pub struct RLimit {
    pub rlim_cur: u64,
    pub rlim_max: u64,
}

/// `prlimit64`, once the old limit is reported: with no new limit, nothing to set; a new
/// limit that cannot be read gives `EFAULT`, one whose soft limit exceeds its hard limit
/// `EINVAL`; otherwise the limit to set.
pub fn sys_prlimit64(new_limit: Option<RLimit>, user_ok: bool) -> (r: Result<Option<RLimit>, SyscallErr>)
    ensures
        r == (match new_limit {
            None => Ok(None),
            Some(l) => if !user_ok {
                Err(SyscallErr::EFAULT)
            } else if l.rlim_cur > l.rlim_max {
                Err(SyscallErr::EINVAL)
            } else {
                Ok(Some(l))
            },
        }),
{
    match new_limit {
        None => Ok(None),
        Some(l) => {
            if !user_ok {
                Err(SyscallErr::EFAULT)
            } else if l.rlim_cur > l.rlim_max {
                Err(SyscallErr::EINVAL)
            } else {
                Ok(Some(l))
            }
        },
    }
}

/// Asking for the scheduling parameters: accepted, with nothing written.
pub fn sys_sched_getparam() -> (r: Result<usize, SyscallErr>)
    ensures
        r == Ok::<usize, SyscallErr>(0),
{
    Ok(0)
}

} // verus!
