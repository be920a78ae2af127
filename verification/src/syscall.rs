//! The kernel's side of system calls: which handler a call number goes to with which
//! arguments, and the computations of the small handlers.
use crate::frame_allocator::{round_up_spec, StackFrameAllocator};
use crate::loader::{Loader, EXTERNAL_ARG_MAX};
use crate::task::{heap_grown, space_ok, TaskTable, MAX_TASKS, PAGE_BYTES};
use vstd::prelude::*;

verus! {

pub const SYS_TEST: usize = 0;
pub const SYS_LEGACY_EXIT: usize = 1;
pub const SYS_YIELD: usize = 2;
pub const SYS_GETCWD: usize = 17;
pub const SYS_DUP: usize = 23;
pub const SYS_DUP3: usize = 24;
pub const SYS_MKDIRAT: usize = 34;
pub const SYS_UNLINKAT: usize = 35;
pub const SYS_UMOUNT2: usize = 39;
pub const SYS_MOUNT: usize = 40;
pub const SYS_CHDIR: usize = 49;
pub const SYS_OPENAT: usize = 56;
pub const SYS_CLOSE: usize = 57;
pub const SYS_PIPE2: usize = 59;
pub const SYS_GETDENTS64: usize = 61;
pub const SYS_READ: usize = 63;
pub const SYS_WRITE: usize = 64;
pub const SYS_FSTAT: usize = 80;
pub const SYS_EXIT: usize = 93;
pub const SYS_EXIT_GROUP: usize = 94;
pub const SYS_NANOSLEEP: usize = 101;
pub const SYS_SCHED_YIELD: usize = 124;
pub const SYS_TIMES: usize = 153;
pub const SYS_UNAME: usize = 160;
pub const SYS_GETTIMEOFDAY: usize = 169;
pub const SYS_GETPID: usize = 172;
pub const SYS_GETPPID: usize = 173;
pub const SYS_BRK: usize = 214;
pub const SYS_MUNMAP: usize = 215;
pub const SYS_CLONE: usize = 220;
pub const SYS_EXECVE: usize = 221;
pub const SYS_MMAP: usize = 222;
pub const SYS_WAIT4: usize = 260;

/// A decoded system call: the handler to run and its arguments, or the answer itself
/// where no handler is needed.
#[derive(Debug, Clone, Copy, PartialEq, Eq, Structural)]
pub enum Syscall {
    /// Answer at once with this value.
    Done(isize),
    Test(usize),
    Exit(i32),
    Getcwd(usize, usize),
    Chdir(usize),
    Dup(usize),
    Dup3(usize, usize),
    Openat(usize, usize, usize, usize),
    Close(usize),
    Pipe2(usize),
    Getdents64(usize, usize, usize),
    Read(usize, usize, usize),
    Write(usize, usize, usize),
    Fstat(usize, usize),
    Nanosleep(usize, usize),
    Times(usize),
    Uname(usize),
    Gettimeofday(usize),
    Getpid,
    Getppid,
    Brk(usize),
    Execve(usize, usize, usize),
    Mmap(usize, usize, usize, usize, usize, usize),
    Wait4(usize, usize, usize),
    /// A call number with no handler: report it and answer -1.
    Unsupported(usize),
}

/// The low 32 bits of `x`, read as a signed number.
pub open spec fn low_i32(x: usize) -> int {
    let low = x as int % 0x1_0000_0000;
    if low <= i32::MAX {
        low
    } else {
        low - 0x1_0000_0000
    }
}

/// The low 32 bits of `x`, read as a signed number.
fn to_i32(x: usize) -> (r: i32)
    ensures
        r == low_i32(x),
{
    let low: u64 = x as u64 % 0x1_0000_0000;
    if low <= 0x7fff_ffff {
        low as i32
    } else {
        (low - 0x8000_0000) as i32 + i32::MIN
    }
}

/// The handler of call number `id` with the arguments `args`: making and removing
/// directories, mounting, unmounting and unmapping answer 0 at once, yielding answers 0,
/// cloning answers -1, and an unknown number is unsupported.
pub fn syscall(id: usize, args: [usize; 6]) -> (r: Syscall)
    ensures
        r == (if id == SYS_TEST {
            Syscall::Test(args[0])
        } else if id == SYS_LEGACY_EXIT || id == SYS_EXIT || id == SYS_EXIT_GROUP {
            Syscall::Exit(low_i32(args[0]) as i32)
        } else if id == SYS_YIELD || id == SYS_SCHED_YIELD {
            Syscall::Done(0isize)
        } else if id == SYS_GETCWD {
            Syscall::Getcwd(args[0], args[1])
        } else if id == SYS_DUP {
            Syscall::Dup(args[0])
        } else if id == SYS_DUP3 {
            Syscall::Dup3(args[0], args[1])
        } else if id == SYS_MKDIRAT || id == SYS_UNLINKAT || id == SYS_UMOUNT2 || id == SYS_MOUNT
            || id == SYS_MUNMAP {
            Syscall::Done(0isize)
        } else if id == SYS_CHDIR {
            Syscall::Chdir(args[0])
        } else if id == SYS_OPENAT {
            Syscall::Openat(args[0], args[1], args[2], args[3])
        } else if id == SYS_CLOSE {
            Syscall::Close(args[0])
        } else if id == SYS_PIPE2 {
            Syscall::Pipe2(args[0])
        } else if id == SYS_GETDENTS64 {
            Syscall::Getdents64(args[0], args[1], args[2])
        } else if id == SYS_READ {
            Syscall::Read(args[0], args[1], args[2])
        } else if id == SYS_WRITE {
            Syscall::Write(args[0], args[1], args[2])
        } else if id == SYS_FSTAT {
            Syscall::Fstat(args[0], args[1])
        } else if id == SYS_NANOSLEEP {
            Syscall::Nanosleep(args[0], args[1])
        } else if id == SYS_TIMES {
            Syscall::Times(args[0])
        } else if id == SYS_UNAME {
            Syscall::Uname(args[0])
        } else if id == SYS_GETTIMEOFDAY {
            Syscall::Gettimeofday(args[0])
        } else if id == SYS_GETPID {
            Syscall::Getpid
        } else if id == SYS_GETPPID {
            Syscall::Getppid
        } else if id == SYS_BRK {
            Syscall::Brk(args[0])
        } else if id == SYS_CLONE {
            Syscall::Done(-1isize)
        } else if id == SYS_EXECVE {
            Syscall::Execve(args[0], args[1], args[2])
        } else if id == SYS_MMAP {
            Syscall::Mmap(args[0], args[1], args[2], args[3], args[4], args[5])
        } else if id == SYS_WAIT4 {
            Syscall::Wait4(args[0], args[1], args[2])
        } else {
            Syscall::Unsupported(id)
        }),
{
    match id {
        SYS_TEST => Syscall::Test(args[0]),
        SYS_LEGACY_EXIT | SYS_EXIT | SYS_EXIT_GROUP => Syscall::Exit(to_i32(args[0])),
        SYS_YIELD | SYS_SCHED_YIELD => Syscall::Done(0),
        SYS_GETCWD => Syscall::Getcwd(args[0], args[1]),
        SYS_DUP => Syscall::Dup(args[0]),
        SYS_DUP3 => Syscall::Dup3(args[0], args[1]),
        SYS_MKDIRAT | SYS_UNLINKAT | SYS_UMOUNT2 | SYS_MOUNT | SYS_MUNMAP => Syscall::Done(0),
        SYS_CHDIR => Syscall::Chdir(args[0]),
        SYS_OPENAT => Syscall::Openat(args[0], args[1], args[2], args[3]),
        SYS_CLOSE => Syscall::Close(args[0]),
        SYS_PIPE2 => Syscall::Pipe2(args[0]),
        SYS_GETDENTS64 => Syscall::Getdents64(args[0], args[1], args[2]),
        SYS_READ => Syscall::Read(args[0], args[1], args[2]),
        SYS_WRITE => Syscall::Write(args[0], args[1], args[2]),
        SYS_FSTAT => Syscall::Fstat(args[0], args[1]),
        SYS_NANOSLEEP => Syscall::Nanosleep(args[0], args[1]),
        SYS_TIMES => Syscall::Times(args[0]),
        SYS_UNAME => Syscall::Uname(args[0]),
        SYS_GETTIMEOFDAY => Syscall::Gettimeofday(args[0]),
        SYS_GETPID => Syscall::Getpid,
        SYS_GETPPID => Syscall::Getppid,
        SYS_BRK => Syscall::Brk(args[0]),
        SYS_CLONE => Syscall::Done(-1),
        SYS_EXECVE => Syscall::Execve(args[0], args[1], args[2]),
        SYS_MMAP => Syscall::Mmap(args[0], args[1], args[2], args[3], args[4], args[5]),
        SYS_WAIT4 => Syscall::Wait4(args[0], args[1], args[2]),
        _ => Syscall::Unsupported(id),
    }
}

/// The answer of the test call: its argument plus one, as a signed number.
pub fn sys_test(value: usize) -> (r: isize)
    requires
        value < usize::MAX,
    ensures
        r == (if value + 1 <= isize::MAX {
            value + 1
        } else {
            value + 1 - (usize::MAX + 1)
        }),
{
    let next: usize = value + 1;
    if next <= isize::MAX as usize {
        next as isize
    } else {
        (next - isize::MAX as usize - 1) as isize + isize::MIN
    }
}

/// How long `nanosleep` waits for a request of `sec` seconds and `usec` microseconds:
/// the request in microseconds, saturated, held between 1 and 10 milliseconds.
pub fn nanosleep_delay_us(sec: u64, usec: u64) -> (r: usize)
    ensures
        ({
            let requested = if sec * 1_000_000 + usec > u64::MAX {
                u64::MAX as int
            } else {
                sec * 1_000_000 + usec
            };
            let capped = if requested > usize::MAX {
                usize::MAX as int
            } else {
                requested
            };
            r == (if capped < 1_000 {
                1_000
            } else if capped > 10_000 {
                10_000
            } else {
                capped
            })
        }),
{
    let scaled: u64 = match sec.checked_mul(1_000_000) {
        Some(p) => p,
        None => u64::MAX,
    };
    let requested: u64 = match scaled.checked_add(usec) {
        Some(t) => t,
        None => u64::MAX,
    };
    let requested_us: usize = if requested > usize::MAX as u64 {
        usize::MAX
    } else {
        requested as usize
    };
    let upper: usize = if requested_us < 10_000 {
        requested_us
    } else {
        10_000
    };
    if upper < 1_000 {
        1_000
    } else {
        upper
    }
}

/// The fields `uname` reports, each in a field of 65 bytes, NUL padded.
pub open spec fn uname_fields() -> Seq<Seq<u8>> {
    seq![
        seq![115u8, 117u8, 100u8, 111u8, 45u8, 119u8, 105u8, 110u8],
        seq![111u8, 115u8, 107u8, 101u8, 114u8, 110u8, 101u8, 108u8],
        seq![48u8, 46u8, 49u8],
        seq![50u8, 48u8, 50u8, 54u8],
        seq![114u8, 105u8, 115u8, 99u8, 118u8, 54u8, 52u8],
        seq![108u8, 111u8, 99u8, 97u8, 108u8],
    ]
}

/// The bytes `uname` stores: six fields of 65 bytes, each a name followed by NULs.
pub fn uname_buffer() -> (r: Vec<u8>)
    ensures
        r@.len() == 6 * 65,
        forall|f: int, i: int|
            0 <= f < 6 && 0 <= i < 65 ==> #[trigger] r@[f * 65 + i] == (if i < uname_fields()[f].len() {
                uname_fields()[f][i]
            } else {
                0u8
            }),
{
    let names: Vec<Vec<u8>> = vec![
        vec![115u8, 117u8, 100u8, 111u8, 45u8, 119u8, 105u8, 110u8],
        vec![111u8, 115u8, 107u8, 101u8, 114u8, 110u8, 101u8, 108u8],
        vec![48u8, 46u8, 49u8],
        vec![50u8, 48u8, 50u8, 54u8],
        vec![114u8, 105u8, 115u8, 99u8, 118u8, 54u8, 52u8],
        vec![108u8, 111u8, 99u8, 97u8, 108u8],
    ];
    assert(names@.len() == 6);
    assert forall|f: int| 0 <= f < 6 implies #[trigger] names@[f]@ == uname_fields()[f] by {
        if f == 0 {
            assert(names@[0]@ =~= uname_fields()[0]);
        } else if f == 1 {
            assert(names@[1]@ =~= uname_fields()[1]);
        } else if f == 2 {
            assert(names@[2]@ =~= uname_fields()[2]);
        } else if f == 3 {
            assert(names@[3]@ =~= uname_fields()[3]);
        } else if f == 4 {
            assert(names@[4]@ =~= uname_fields()[4]);
        } else {
            assert(names@[5]@ =~= uname_fields()[5]);
        }
    }
    let mut out: Vec<u8> = Vec::new();
    let mut f: usize = 0;
    while f < 6
        invariant
            f <= 6,
            names@.len() == 6,
            forall|g: int| 0 <= g < 6 ==> #[trigger] names@[g]@ == uname_fields()[g],
            forall|g: int| 0 <= g < 6 ==> #[trigger] uname_fields()[g].len() <= 65,
            out@.len() == f * 65,
            forall|g: int, i: int|
                0 <= g < f && 0 <= i < 65 ==> #[trigger] out@[g * 65 + i] == (if i
                    < uname_fields()[g].len() {
                    uname_fields()[g][i]
                } else {
                    0u8
                }),
        decreases 6 - f,
    {
        let name: &Vec<u8> = &names[f];
        let mut i: usize = 0;
        while i < 65
            invariant
                f < 6,
                i <= 65,
                name@ == uname_fields()[f as int],
                name@.len() <= 65,
                out@.len() == f * 65 + i,
                forall|g: int, j: int|
                    0 <= g < f && 0 <= j < 65 ==> #[trigger] out@[g * 65 + j] == (if j
                        < uname_fields()[g].len() {
                        uname_fields()[g][j]
                    } else {
                        0u8
                    }),
                forall|j: int|
                    0 <= j < i ==> #[trigger] out@[f * 65 + j] == (if j < name@.len() {
                        name@[j]
                    } else {
                        0u8
                    }),
            decreases 65 - i,
        {
            let byte: u8 = if i < name.len() {
                name[i]
            } else {
                0
            };
            proof {
                assert forall|g: int, j: int| 0 <= g < f && 0 <= j < 65 implies #[trigger] out@.push(
                    byte,
                )[g * 65 + j] == out@[g * 65 + j] by {
                    assert(g * 65 + j < f * 65) by (nonlinear_arith)
                        requires
                            g < f,
                            j < 65,
                    ;
                }
            }
            out.push(byte);
            i = i + 1;
        }
        f = f + 1;
    }
    out
}

/// The arguments a program is executed with: those of `args` that could be read from user
/// memory, up to the loader's limit, or `fallback`, the path, where none could be.
pub open spec fn exec_args_spec(args: Seq<Option<Vec<u8>>>, fallback: Seq<u8>) -> Seq<Seq<u8>> {
    let read = read_args(args);
    if read.len() == 0 {
        seq![fallback]
    } else if read.len() <= EXTERNAL_ARG_MAX {
        read
    } else {
        read.take(EXTERNAL_ARG_MAX as int)
    }
}

/// Sets the arguments of the program being executed: those of `args` that could be read
/// from user memory, up to the loader's limit, or `fallback`, the path, where none of them
/// was kept.
pub fn push_exec_args(loader: &mut Loader, args: &Vec<Option<Vec<u8>>>, fallback: &[u8])
    ensures
        final(loader).app_spec() == old(loader).app_spec(),
        final(loader).ready_spec() == old(loader).ready_spec(),
        final(loader).group_spec() == old(loader).group_spec(),
        final(loader).cwd_spec() == old(loader).cwd_spec(),
        final(loader).args_spec() == exec_args_spec(args@, fallback@),
{
    loader.clear_external_args();
    let mut pushed: usize = 0;
    let mut index: usize = 0;
    while index < args.len()
        invariant
            index <= args@.len(),
            pushed <= EXTERNAL_ARG_MAX,
            loader.app_spec() == old(loader).app_spec(),
            loader.ready_spec() == old(loader).ready_spec(),
            loader.group_spec() == old(loader).group_spec(),
            loader.cwd_spec() == old(loader).cwd_spec(),
            pushed == loader.args_spec().len(),
            loader.args_spec() == (if read_args(args@.take(index as int)).len() <= EXTERNAL_ARG_MAX {
                read_args(args@.take(index as int))
            } else {
                read_args(args@.take(index as int)).take(EXTERNAL_ARG_MAX as int)
            }),
        decreases args@.len() - index,
    {
        let ghost before = read_args(args@.take(index as int));
        assert(args@.take(index as int + 1).drop_last() =~= args@.take(index as int));
        assert(args@.take(index as int + 1).last() == args@[index as int]);
        match &args[index] {
            Some(arg) => {
                if loader.push_external_arg(arg.as_slice()) {
                    pushed = pushed + 1;
                }
                proof {
                    let now = read_args(args@.take(index as int + 1));
                    assert(now == before.push(arg@));
                    if before.len() < EXTERNAL_ARG_MAX {
                        assert(now =~= before.push(arg@));
                    } else {
                        assert(now.take(EXTERNAL_ARG_MAX as int) =~= before.take(
                            EXTERNAL_ARG_MAX as int,
                        ));
                    }
                }
            },
            None => {},
        }
        index = index + 1;
    }
    assert(args@.take(args@.len() as int) =~= args@);
    if pushed == 0 {
        loader.push_external_arg(fallback);
    }
}

/// `addr` as a signed number: its bits read in two's complement.
pub open spec fn signed_addr(addr: usize) -> int {
    if addr <= isize::MAX {
        addr as int
    } else {
        addr - (usize::MAX + 1)
    }
}

/// `addr` as a signed number.
fn to_isize(addr: usize) -> (r: isize)
    ensures
        r == signed_addr(addr),
{
    if addr <= isize::MAX as usize {
        addr as isize
    } else {
        (addr - isize::MAX as usize - 1) as isize + isize::MIN
    }
}

/// `mmap` for the running task: -1 for an empty length. Otherwise the mapping starts at
/// `addr`, or, where that is 0, at the task's next anonymous mapping, handed out as
/// `alloc_current_mmap` does; a start of 0 gives -1; else the pages of the mapping are
/// mapped as `map_current_user_range` does, and the answer is the start, or -1 where
/// mapping failed. Also tells whether the file `fd` is to be read into the mapping: where
/// the call succeeded and `fd` is not `usize::MAX`.
pub fn sys_mmap(tasks: &mut TaskTable, frames: &mut StackFrameAllocator, addr: usize, len: usize, fd: usize) -> (r: (
    isize,
    bool,
))
    requires
        old(tasks).wf(),
        space_ok(old(tasks).task(old(tasks).current_spec() as int).memory_set, *old(frames)),
        len > 0 && addr == 0 ==> old(tasks).task(old(tasks).current_spec() as int).mmap_end + len + 3
            * PAGE_BYTES <= usize::MAX,
        len > 0 && addr != 0 ==> addr + len <= usize::MAX - 4095,
    ensures
        final(tasks).wf(),
        final(tasks).current_spec() == old(tasks).current_spec(),
        space_ok(final(tasks).task(old(tasks).current_spec() as int).memory_set, *final(frames)),
        forall|k: int|
            0 <= k < MAX_TASKS && k != old(tasks).current_spec() ==> #[trigger] final(tasks).task(k)
                == old(tasks).task(k),
        len == 0 ==> r == (-1isize, false) && *final(tasks) == *old(tasks),
        len > 0 ==> {
            let t = old(tasks).task(old(tasks).current_spec() as int);
            let n = final(tasks).task(old(tasks).current_spec() as int);
            let start = if addr == 0 {
                round_up_spec(t.mmap_end as int, PAGE_BYTES as int)
            } else {
                addr as int
            };
            &&& addr == 0 ==> n.mmap_end == round_up_spec(start + len, PAGE_BYTES as int)
            &&& addr != 0 ==> n.mmap_end == t.mmap_end
            &&& start == 0 ==> r == (-1isize, false)
            &&& r.0 != -1 ==> r.0 == signed_addr(start as usize) && r.1 == (fd != usize::MAX) && heap_grown(
                t.memory_set,
                n.memory_set,
                start as usize,
                (start + len) as usize,
                true,
            )
            &&& r.0 == -1 ==> !r.1
        },
{
    if len == 0 {
        return (-1, false);
    }
    let ghost end0: int = old(tasks).task(old(tasks).current_spec() as int).mmap_end as int;
    let start: usize = if addr == 0 {
        tasks.alloc_current_mmap(len)
    } else {
        addr
    };
    if start == 0 {
        return (-1, false);
    }
    proof {
        if addr == 0 {
            assert(start <= end0 + 4095) by (nonlinear_arith)
                requires
                    start == ((end0 + 4095) / 4096) * 4096,
            ;
        }
    }
    if !tasks.map_current_user_range(start, start + len, frames) {
        return (-1, false);
    }
    (to_isize(start), fd != usize::MAX)
}

/// The arguments that could be read, in order.
pub open spec fn read_args(args: Seq<Option<Vec<u8>>>) -> Seq<Seq<u8>>
    decreases args.len(),
{
    if args.len() == 0 {
        Seq::empty()
    } else {
        match args.last() {
            Some(a) => read_args(args.drop_last()).push(a@),
            None => read_args(args.drop_last()),
        }
    }
}

} // verus!
