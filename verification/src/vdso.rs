//! The time calls of the vDSO: what they answer from a snapshot of the kernel's time data
//! and the current cycle counter, and when they fall back to the real system call.
use crate::ctypes::{Timespec, Timeval};
use vstd::arithmetic::power2::pow2;
use vstd::prelude::*;

verus! {

/// Nanoseconds in a second.
pub const NANOS_PER_SEC: u64 = 1_000_000_000;
pub const CLOCK_REALTIME: i32 = 0;
pub const CLOCK_MONOTONIC: i32 = 1;
pub const CLOCK_MONOTONIC_RAW: i32 = 4;
pub const NR_CLOCK_GETTIME: usize = 113;
pub const NR_GETTIMEOFDAY: usize = 169;
pub const NR_CLOCK_GETRES: usize = 114;
pub const NR_GETCPU: usize = 168;

/// The time data as read in one consistent snapshot: the wall clock, the monotonic clock
/// and the cycle count at which they were taken, and the cycles-to-nanoseconds scale.
#[derive(Debug, Clone, Copy, PartialEq, Eq, Structural)]
pub struct Snapshot {
    pub wall_sec: u64,
    pub wall_nsec: u32,
    pub mono_ns: u64,
    pub mono_cycles_at_capture: u64,
    pub mult: u32,
    pub shift: u32,
}

/// `x` modulo 2^64.
pub open spec fn mod64(x: int) -> int {
    x % 0x1_0000_0000_0000_0000
}

/// The monotonic time at cycle count `now`: the snapshot's time plus the cycles since,
/// scaled by `mult / 2^shift`, all modulo 2^64.
pub open spec fn mono_at(s: Snapshot, now: u64) -> int {
    mod64(s.mono_ns + (mod64(now - s.mono_cycles_at_capture) * s.mult) / pow2(s.shift as nat) as int)
}

/// The wall clock of the snapshot in nanoseconds, the seconds' part modulo 2^64.
pub open spec fn wall_ns(s: Snapshot) -> int {
    mod64(s.wall_sec * NANOS_PER_SEC) + s.wall_nsec
}

/// The wall-clock time at cycle count `now`: the snapshot's wall clock plus the monotonic
/// time elapsed since, modulo 2^64.
pub open spec fn real_at(s: Snapshot, now: u64) -> int {
    mod64(wall_ns(s) + mod64(mono_at(s, now) - s.mono_ns))
}

/// Whether the snapshot can be computed with: its shift fits, and so does its wall clock
/// in nanoseconds.
pub open spec fn usable(s: Snapshot) -> bool {
    s.shift < 128 && wall_ns(s) <= u64::MAX
}

/// The monotonic time in nanoseconds at cycle count `now`.
pub fn monotonic_ns(s: &Snapshot, now: u64) -> (r: u64)
    requires
        s.shift < 128,
    ensures
        r == mono_at(*s, now),
{
    let delta: u64 = now.wrapping_sub(s.mono_cycles_at_capture);
    proof {
        vstd::arithmetic::mul::lemma_mul_upper_bound(
            delta as int,
            0xffff_ffff_ffff_ffff,
            s.mult as int,
            0xffff_ffff,
        );
    }
    let product: u128 = delta as u128 * s.mult as u128;
    let delta_ns: u128 = product >> (s.shift as u128);
    let low: u64 = (delta_ns % 0x1_0000_0000_0000_0000u128) as u64;
    proof {
        assert(delta as int == mod64(now - s.mono_cycles_at_capture));
        vstd::bits::lemma_u128_shr_is_div(product, s.shift as u128);
        vstd::arithmetic::div_mod::lemma_add_mod_noop(
            s.mono_ns as int,
            delta_ns as int,
            0x1_0000_0000_0000_0000,
        );
        vstd::arithmetic::div_mod::lemma_mod_twice(s.mono_ns as int, 0x1_0000_0000_0000_0000);
        vstd::arithmetic::div_mod::lemma_small_mod(s.mono_ns as nat, 0x1_0000_0000_0000_0000);
    }
    s.mono_ns.wrapping_add(low)
}

/// The wall-clock time in nanoseconds at cycle count `now`.
pub fn realtime_ns(s: &Snapshot, now: u64) -> (r: u64)
    requires
        usable(*s),
    ensures
        r == real_at(*s, now),
{
    let mono: u64 = monotonic_ns(s, now);
    let wall: u64 = s.wall_sec.wrapping_mul(NANOS_PER_SEC) + s.wall_nsec as u64;
    wall.wrapping_add(mono.wrapping_sub(s.mono_ns))
}

/// Whether a read of the time data between the sequence counts `before` and `after` saw a
/// consistent snapshot: no update was under way and none happened meanwhile.
pub fn seq_stable(before: u32, after: u32) -> (r: bool)
    ensures
        r == (before % 2 == 0 && after == before),
{
    before % 2 == 0 && after == before
}

/// What a vDSO time call does.
#[derive(Debug, Clone, Copy, PartialEq, Eq, Structural)]
pub enum VdsoReply {
    /// Return `-EFAULT`.
    Fault,
    /// Store this time and return 0.
    Time(Timespec),
    /// Store this time of day and return 0.
    TimeOfDay(Timeval),
    /// Store this resolution, where a place for it was given, and return 0.
    Resolution(Option<Timespec>),
    /// Make the system call of this number with the call's own arguments.
    Fallback(usize),
}

/// Whether the vDSO answers for the clock itself.
pub open spec fn fast_clock(clock_id: i32) -> bool {
    clock_id == CLOCK_REALTIME || clock_id == CLOCK_MONOTONIC || clock_id == CLOCK_MONOTONIC_RAW
}

/// A time of `ns` nanoseconds as seconds and nanoseconds.
pub open spec fn split_ns(ns: int) -> Timespec {
    Timespec { tv_sec: (ns / NANOS_PER_SEC as int) as i64, tv_nsec: (ns % NANOS_PER_SEC as int) as i64 }
}

/// A time in nanoseconds splits exactly into whole seconds and the nanoseconds left,
/// fewer than a second.
pub proof fn lemma_split_exact(ns: int)
    requires
        0 <= ns <= u64::MAX,
    ensures
        split_ns(ns).tv_sec * NANOS_PER_SEC + split_ns(ns).tv_nsec == ns,
        0 <= split_ns(ns).tv_nsec < NANOS_PER_SEC,
        split_ns(ns).tv_sec >= 0,
{
    vstd::arithmetic::div_mod::lemma_fundamental_div_mod(ns, NANOS_PER_SEC as int);
    vstd::arithmetic::div_mod::lemma_div_pos_is_pos(ns, NANOS_PER_SEC as int);
    vstd::arithmetic::div_mod::lemma_div_is_ordered(ns, u64::MAX as int, NANOS_PER_SEC as int);
}

/// `gettimeofday` and `clock_gettime` of the wall clock agree: on the same snapshot and
/// cycle count they give the same seconds, and the microseconds of the one are the
/// nanoseconds of the other divided by a thousand.
pub proof fn lemma_timeofday_matches_gettime(snap: Snapshot, now: u64)
    requires
        usable(snap),
        snap.mult != 0,
    ensures
        ({
            let t = split_ns(real_at(snap, now));
            Timeval {
                tv_sec: (real_at(snap, now) / NANOS_PER_SEC as int) as i64,
                tv_usec: ((real_at(snap, now) % NANOS_PER_SEC as int) / 1000) as i64,
            } == Timeval { tv_sec: t.tv_sec, tv_usec: (t.tv_nsec / 1000) as i64 }
        }),
{
    let ns = real_at(snap, now);
    assert(0 <= ns < 0x1_0000_0000_0000_0000) by {
        vstd::arithmetic::div_mod::lemma_mod_bound(
            wall_ns(snap) + mod64(mono_at(snap, now) - snap.mono_ns),
            0x1_0000_0000_0000_0000,
        );
    }
    lemma_split_exact(ns);
}

/// `clock_gettime`: without a place for the time, `EFAULT`; for a clock it serves, with a
/// snapshot whose scale is not zero, the wall-clock or monotonic time at `now`; otherwise
/// the system call. `snap` is what reading the time data gave, where it succeeded.
pub fn vdso_clock_gettime(clock_id: i32, ts_given: bool, snap: Option<Snapshot>, now: u64) -> (r:
    VdsoReply)
    requires
        snap matches Some(s) ==> usable(s),
    ensures
        r == (if !ts_given {
            VdsoReply::Fault
        } else if fast_clock(clock_id) && snap is Some && snap->0.mult != 0 {
            VdsoReply::Time(
                split_ns(
                    if clock_id == CLOCK_REALTIME {
                        real_at(snap->0, now)
                    } else {
                        mono_at(snap->0, now)
                    },
                ),
            )
        } else {
            VdsoReply::Fallback(NR_CLOCK_GETTIME)
        }),
{
    if !ts_given {
        return VdsoReply::Fault;
    }
    if clock_id == CLOCK_REALTIME || clock_id == CLOCK_MONOTONIC || clock_id == CLOCK_MONOTONIC_RAW {
        if let Some(s) = snap {
            if s.mult != 0 {
                let ns: u64 = if clock_id == CLOCK_REALTIME {
                    realtime_ns(&s, now)
                } else {
                    monotonic_ns(&s, now)
                };
                return VdsoReply::Time(
                    Timespec {
                        tv_sec: (ns / NANOS_PER_SEC) as i64,
                        tv_nsec: (ns % NANOS_PER_SEC) as i64,
                    },
                );
            }
        }
    }
    VdsoReply::Fallback(NR_CLOCK_GETTIME)
}

/// `gettimeofday`: with a place for the time and a snapshot whose scale is not zero, the
/// wall-clock time at `now` in seconds and microseconds; otherwise the system call.
pub fn vdso_gettimeofday(tv_given: bool, snap: Option<Snapshot>, now: u64) -> (r: VdsoReply)
    requires
        snap matches Some(s) ==> usable(s),
    ensures
        r == (if tv_given && snap is Some && snap->0.mult != 0 {
            VdsoReply::TimeOfDay(
                Timeval {
                    tv_sec: (real_at(snap->0, now) / NANOS_PER_SEC as int) as i64,
                    tv_usec: ((real_at(snap->0, now) % NANOS_PER_SEC as int) / 1000) as i64,
                },
            )
        } else {
            VdsoReply::Fallback(NR_GETTIMEOFDAY)
        }),
{
    if tv_given {
        if let Some(s) = snap {
            if s.mult != 0 {
                let ns: u64 = realtime_ns(&s, now);
                return VdsoReply::TimeOfDay(
                    Timeval {
                        tv_sec: (ns / NANOS_PER_SEC) as i64,
                        tv_usec: ((ns % NANOS_PER_SEC) / 1_000) as i64,
                    },
                );
            }
        }
    }
    VdsoReply::Fallback(NR_GETTIMEOFDAY)
}

/// `clock_getres`: a resolution of one nanosecond for the clocks it serves, stored where a
/// place for it was given; otherwise the system call.
pub fn vdso_clock_getres(clock_id: i32, res_given: bool) -> (r: VdsoReply)
    ensures
        r == (if fast_clock(clock_id) {
            VdsoReply::Resolution(
                if res_given {
                    Some(Timespec { tv_sec: 0, tv_nsec: 1 })
                } else {
                    None
                },
            )
        } else {
            VdsoReply::Fallback(NR_CLOCK_GETRES)
        }),
{
    if clock_id == CLOCK_REALTIME || clock_id == CLOCK_MONOTONIC || clock_id == CLOCK_MONOTONIC_RAW {
        if res_given {
            VdsoReply::Resolution(Some(Timespec { tv_sec: 0, tv_nsec: 1 }))
        } else {
            VdsoReply::Resolution(None)
        }
    } else {
        VdsoReply::Fallback(NR_CLOCK_GETRES)
    }
}

/// `time`, from what `clock_gettime` of the wall clock returned (`status`) and stored
/// (`ts`): -1 where it failed; otherwise the seconds, which are also stored where a place
/// was given. Gives the return value and what to store.
pub fn vdso_time(status: i32, ts: Timespec, tloc_given: bool) -> (r: (i64, Option<i64>))
    ensures
        r == (if status != 0 {
            (-1i64, None::<i64>)
        } else if tloc_given {
            (ts.tv_sec, Some(ts.tv_sec))
        } else {
            (ts.tv_sec, None::<i64>)
        }),
{
    if status != 0 {
        return (-1, None);
    }
    if tloc_given {
        (ts.tv_sec, Some(ts.tv_sec))
    } else {
        (ts.tv_sec, None)
    }
}

} // verus!
