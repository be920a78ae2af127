//! What the kernel and its programs ask of the layer below them: the
//! registers of a system call, of an SBI call, and the next timer deadline.
use vstd::prelude::*;

verus! {

/// `sys_test`.
pub const SYS_TEST: usize = 0;
/// `exit`.
pub const SYS_EXIT: usize = 1;
/// `sched_yield`.
pub const SYS_YIELD: usize = 2;
/// `openat`.
pub const SYS_OPENAT: usize = 56;
/// `close`.
pub const SYS_CLOSE: usize = 57;
/// `read`.
pub const SYS_READ: usize = 63;
/// `write`.
pub const SYS_WRITE: usize = 64;
/// `fstat`.
pub const SYS_FSTAT: usize = 80;
/// `getpid`.
pub const SYS_GETPID: usize = 172;
/// `brk`.
pub const SYS_BRK: usize = 214;
/// The directory descriptor meaning "the working directory".
pub const AT_FDCWD: isize = -100;
/// Bytes of the `stat` buffer a program hands to `fstat`.
pub const STAT_SIZE: usize = 128;

/// A system call as a program issues it: the call number (register a7) and
/// four arguments (a0 to a3).
#[derive(Clone, Copy, Debug, PartialEq, Eq, Structural)]
pub struct SyscallRequest {
    pub id: usize,
    pub a0: usize,
    pub a1: usize,
    pub a2: usize,
    pub a3: usize,
}

/// The request for call `id` with arguments `a`.
pub open spec fn request(id: usize, a0: usize, a1: usize, a2: usize, a3: usize) -> SyscallRequest {
    SyscallRequest { id, a0, a1, a2, a3 }
}

/// The test call with `value`.
pub fn sys_test(value: usize) -> (r: SyscallRequest)
    ensures
        r == request(SYS_TEST, value, 0, 0, 0),
{
    SyscallRequest { id: SYS_TEST, a0: value, a1: 0, a2: 0, a3: 0 }
}

/// Giving up the processor.
pub fn sys_yield() -> (r: SyscallRequest)
    ensures
        r == request(SYS_YIELD, 0, 0, 0, 0),
{
    SyscallRequest { id: SYS_YIELD, a0: 0, a1: 0, a2: 0, a3: 0 }
}

/// Opening `path` (at address `path_addr`) relative to `dirfd`.
pub fn openat(dirfd: isize, path_addr: usize, flags: usize, mode: usize) -> (r: SyscallRequest)
    ensures
        r == request(SYS_OPENAT, dirfd as usize, path_addr, flags, mode),
{
    SyscallRequest { id: SYS_OPENAT, a0: dirfd as usize, a1: path_addr, a2: flags, a3: mode }
}

/// Opening `path` (at address `path_addr`) relative to the working directory.
pub fn open(path_addr: usize, flags: usize) -> (r: SyscallRequest)
    ensures
        r == request(SYS_OPENAT, AT_FDCWD as usize, path_addr, flags, 0),
{
    openat(AT_FDCWD, path_addr, flags, 0)
}

/// Closing `fd`.
pub fn close(fd: usize) -> (r: SyscallRequest)
    ensures
        r == request(SYS_CLOSE, fd, 0, 0, 0),
{
    SyscallRequest { id: SYS_CLOSE, a0: fd, a1: 0, a2: 0, a3: 0 }
}

/// Asking for the status of `fd` into the buffer at `buf_addr`.
pub fn fstat(fd: usize, buf_addr: usize) -> (r: SyscallRequest)
    ensures
        r == request(SYS_FSTAT, fd, buf_addr, 0, 0),
{
    SyscallRequest { id: SYS_FSTAT, a0: fd, a1: buf_addr, a2: 0, a3: 0 }
}

/// Reading up to `len` bytes of `fd` into the buffer at `buf_addr`.
pub fn read(fd: usize, buf_addr: usize, len: usize) -> (r: SyscallRequest)
    ensures
        r == request(SYS_READ, fd, buf_addr, len, 0),
{
    SyscallRequest { id: SYS_READ, a0: fd, a1: buf_addr, a2: len, a3: 0 }
}

/// Writing the `len` bytes at `buf_addr` to `fd`.
pub fn write(fd: usize, buf_addr: usize, len: usize) -> (r: SyscallRequest)
    ensures
        r == request(SYS_WRITE, fd, buf_addr, len, 0),
{
    SyscallRequest { id: SYS_WRITE, a0: fd, a1: buf_addr, a2: len, a3: 0 }
}

/// Moving the program break to `addr`.
pub fn brk(addr: usize) -> (r: SyscallRequest)
    ensures
        r == request(SYS_BRK, addr, 0, 0, 0),
{
    SyscallRequest { id: SYS_BRK, a0: addr, a1: 0, a2: 0, a3: 0 }
}

/// Asking for the process id.
pub fn getpid() -> (r: SyscallRequest)
    ensures
        r == request(SYS_GETPID, 0, 0, 0, 0),
{
    SyscallRequest { id: SYS_GETPID, a0: 0, a1: 0, a2: 0, a3: 0 }
}

/// Exiting with `code` (sign-extended into the register).
pub fn sys_exit(code: i32) -> (r: SyscallRequest)
    ensures
        r == request(SYS_EXIT, code as usize, 0, 0, 0),
{
    SyscallRequest { id: SYS_EXIT, a0: code as usize, a1: 0, a2: 0, a3: 0 }
}

/// The legacy console extension.
pub const SBI_CONSOLE_PUTCHAR: usize = 1;
/// The timer extension, `TIME`.
pub const SBI_EXT_TIME: usize = 0x54494D45;
/// The timer extension's set-timer function.
pub const SBI_SET_TIMER: usize = 0;

/// A call into the supervisor binary interface: extension, function and
/// three arguments.
#[derive(Clone, Copy, Debug, PartialEq, Eq, Structural)]
pub struct SbiCall {
    pub eid: usize,
    pub fid: usize,
    pub a0: usize,
    pub a1: usize,
    pub a2: usize,
}

/// Printing character `c` on the console.
pub fn console_putchar(c: usize) -> (r: SbiCall)
    ensures
        r == (SbiCall { eid: SBI_CONSOLE_PUTCHAR, fid: 0, a0: c, a1: 0, a2: 0 }),
{
    SbiCall { eid: SBI_CONSOLE_PUTCHAR, fid: 0, a0: c, a1: 0, a2: 0 }
}

/// Arming the timer for time `timer`.
pub fn set_timer(timer: usize) -> (r: SbiCall)
    ensures
        r == (SbiCall { eid: SBI_EXT_TIME, fid: SBI_SET_TIMER, a0: timer, a1: 0, a2: 0 }),
{
    SbiCall { eid: SBI_EXT_TIME, fid: SBI_SET_TIMER, a0: timer, a1: 0, a2: 0 }
}

/// Ticks of the time counter per second.
pub const CLOCK_FREQ: usize = 10_000_000;
/// Timer interrupts per second.
pub const TICKS_PER_SEC: usize = 2;

/// The timer arming for the next tick after time `now`: one tick period later.
pub fn set_next_trigger(now: usize) -> (r: SbiCall)
    requires
        now + CLOCK_FREQ / TICKS_PER_SEC <= usize::MAX,
    ensures
        r == (SbiCall { eid: SBI_EXT_TIME, fid: SBI_SET_TIMER, a0: (now + CLOCK_FREQ / TICKS_PER_SEC) as usize, a1: 0, a2: 0 }),
{
    set_timer(now + CLOCK_FREQ / TICKS_PER_SEC)
}

} // verus!
