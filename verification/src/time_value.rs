//! Durations and the time records of the system call interface: conversions between a
//! duration, a count of nanoseconds, and records of seconds with nanoseconds or with
//! microseconds.
use crate::ctypes::{Timespec, Timeval};
use crate::vma::LinuxError;
use vstd::prelude::*;

verus! {

/// Nanoseconds in a second.
pub const NANOS_PER_SEC: u64 = 1_000_000_000;
/// Nanoseconds in a microsecond.
pub const NANOS_PER_MICROS: u64 = 1_000;

/// A span of time: whole seconds and the nanoseconds past them, fewer than a second.
#[derive(Debug, Clone, Copy, PartialEq, Eq, Structural)]
pub struct TimeValue {
    secs: u64,
    nanos: u32,
}

/// `x` read as a 64-bit two's complement pattern, as an unsigned number.
pub open spec fn unsigned_of(x: i64) -> int {
    if x >= 0 {
        x as int
    } else {
        x + 0x1_0000_0000_0000_0000
    }
}

/// `x` read as a 64-bit two's complement pattern, as a signed number.
pub open spec fn signed_of(x: u64) -> int {
    if x <= i64::MAX {
        x as int
    } else {
        x - 0x1_0000_0000_0000_0000
    }
}

/// The bits of `x` as an unsigned number.
fn to_unsigned(x: i64) -> (r: u64)
    ensures
        r == unsigned_of(x),
{
    if x >= 0 {
        x as u64
    } else {
        let above: i64 = x - i64::MIN;
        above as u64 + 0x8000_0000_0000_0000u64
    }
}

/// The bits of `x` as a signed number.
fn to_signed(x: u64) -> (r: i64)
    ensures
        r == signed_of(x),
{
    if x <= 0x7fff_ffff_ffff_ffffu64 {
        x as i64
    } else {
        (x - 0x8000_0000_0000_0000u64) as i64 + i64::MIN
    }
}

impl TimeValue {
    /// The whole seconds.
    pub closed spec fn secs_spec(&self) -> u64 {
        self.secs
    }

    /// The nanoseconds past the whole seconds.
    pub closed spec fn nanos_spec(&self) -> u32 {
        self.nanos
    }

    /// The nanoseconds are fewer than a second.
    pub open spec fn wf(&self) -> bool {
        self.nanos_spec() < NANOS_PER_SEC
    }

    /// The span in nanoseconds.
    pub open spec fn total(&self) -> int {
        self.secs_spec() * NANOS_PER_SEC + self.nanos_spec()
    }

    /// `secs` seconds and `nanos` nanoseconds, where whole seconds among the nanoseconds
    /// carry over; the seconds must not overflow.
    pub fn new(secs: u64, nanos: u32) -> (r: TimeValue)
        requires
            secs + nanos as int / NANOS_PER_SEC as int <= u64::MAX,
        ensures
            r.wf(),
            r.secs_spec() == secs + nanos as int / NANOS_PER_SEC as int,
            r.nanos_spec() == nanos as int % NANOS_PER_SEC as int,
    {
        let carry: u64 = nanos as u64 / NANOS_PER_SEC;
        TimeValue { secs: secs + carry, nanos: (nanos as u64 % NANOS_PER_SEC) as u32 }
    }

    /// The whole seconds.
    pub fn as_secs(&self) -> (r: u64)
        ensures
            r == self.secs_spec(),
    {
        self.secs
    }

    /// The nanoseconds past the whole seconds.
    pub fn subsec_nanos(&self) -> (r: u32)
        ensures
            r == self.nanos_spec(),
    {
        self.nanos
    }

    /// The whole microseconds past the whole seconds.
    pub fn subsec_micros(&self) -> (r: u32)
        ensures
            r == self.nanos_spec() / 1000,
    {
        self.nanos / 1000
    }
}

/// Conversions of a time record from and to a duration and a count of nanoseconds.
pub trait TimeValueLike: Sized {
    /// Whether the record's nanoseconds fit in a `u64`.
    spec fn nanos_fit(&self) -> bool;

    /// The record of a duration.
    fn from_time_value(tv: TimeValue) -> Self
        requires
            tv.wf(),
    ;

    /// The duration of the record, where it is a valid one.
    fn to_time_value(self) -> Result<TimeValue, LinuxError>;

    /// The record of `nanos` nanoseconds.
    fn from_nanos(nanos: u64) -> Self;

    /// The record in nanoseconds.
    fn to_nanos(self) -> u64
        requires
            self.nanos_fit(),
    ;
}

impl TimeValueLike for Timespec {
    open spec fn nanos_fit(&self) -> bool {
        unsigned_of(self.tv_sec) * NANOS_PER_SEC + unsigned_of(self.tv_nsec) <= u64::MAX
    }

    /// The seconds, their bits read as signed, and the nanoseconds.
    fn from_time_value(tv: TimeValue) -> (r: Self)
        ensures
            r.tv_sec == signed_of(tv.secs_spec()),
            r.tv_nsec == tv.nanos_spec(),
    {
        Timespec { tv_sec: to_signed(tv.as_secs()), tv_nsec: tv.subsec_nanos() as i64 }
    }

    /// `EINVAL` where the seconds are negative or the nanoseconds lie outside
    /// 0..=999 999 999; otherwise that duration.
    fn to_time_value(self) -> (r: Result<TimeValue, LinuxError>)
        ensures
            self.tv_nsec < 0 || self.tv_nsec > 999_999_999 || self.tv_sec < 0 ==> r == Err::<
                TimeValue,
                LinuxError,
            >(LinuxError::EINVAL),
            !(self.tv_nsec < 0 || self.tv_nsec > 999_999_999 || self.tv_sec < 0) ==> (r matches Ok(
                tv,
            ) && tv.wf() && tv.secs_spec() == self.tv_sec && tv.nanos_spec() == self.tv_nsec),
    {
        if self.tv_nsec < 0 || self.tv_nsec > 999_999_999 || self.tv_sec < 0 {
            return Err(LinuxError::EINVAL);
        }
        Ok(TimeValue::new(self.tv_sec as u64, self.tv_nsec as u32))
    }

    /// The whole seconds and the nanoseconds left.
    fn from_nanos(nanos: u64) -> (r: Self)
        ensures
            r.tv_sec == nanos / NANOS_PER_SEC,
            r.tv_nsec == nanos % NANOS_PER_SEC,
    {
        Timespec { tv_sec: (nanos / NANOS_PER_SEC) as i64, tv_nsec: (nanos % NANOS_PER_SEC) as i64 }
    }

    /// The seconds times a billion plus the nanoseconds, each field's bits read as
    /// unsigned.
    fn to_nanos(self) -> (r: u64)
        ensures
            r == unsigned_of(self.tv_sec) * NANOS_PER_SEC + unsigned_of(self.tv_nsec),
    {
        let secs: u64 = to_unsigned(self.tv_sec);
        let nsec: u64 = to_unsigned(self.tv_nsec);
        proof {
            vstd::arithmetic::mul::lemma_mul_inequality(0, secs as int, NANOS_PER_SEC as int);
        }
        secs * NANOS_PER_SEC + nsec
    }
}

impl TimeValueLike for Timeval {
    open spec fn nanos_fit(&self) -> bool {
        unsigned_of(self.tv_sec) * NANOS_PER_SEC + unsigned_of(self.tv_usec) * NANOS_PER_MICROS
            <= u64::MAX
    }

    /// The seconds, their bits read as signed, and the whole microseconds.
    fn from_time_value(tv: TimeValue) -> (r: Self)
        ensures
            r.tv_sec == signed_of(tv.secs_spec()),
            r.tv_usec == tv.nanos_spec() / 1000,
    {
        Timeval { tv_sec: to_signed(tv.as_secs()), tv_usec: tv.subsec_micros() as i64 }
    }

    /// `EINVAL` where the seconds are negative or the microseconds lie outside
    /// 0..=999 999; otherwise that duration.
    fn to_time_value(self) -> (r: Result<TimeValue, LinuxError>)
        ensures
            self.tv_usec < 0 || self.tv_usec > 999_999 || self.tv_sec < 0 ==> r == Err::<
                TimeValue,
                LinuxError,
            >(LinuxError::EINVAL),
            !(self.tv_usec < 0 || self.tv_usec > 999_999 || self.tv_sec < 0) ==> (r matches Ok(tv)
                && tv.wf() && tv.secs_spec() == self.tv_sec && tv.nanos_spec() == self.tv_usec * 1000),
    {
        if self.tv_usec < 0 || self.tv_usec > 999_999 || self.tv_sec < 0 {
            return Err(LinuxError::EINVAL);
        }
        Ok(TimeValue::new(self.tv_sec as u64, self.tv_usec as u32 * 1000))
    }

    /// The whole seconds and the whole microseconds left.
    fn from_nanos(nanos: u64) -> (r: Self)
        ensures
            r.tv_sec == nanos / NANOS_PER_SEC,
            r.tv_usec == (nanos % NANOS_PER_SEC) / NANOS_PER_MICROS,
    {
        Timeval {
            tv_sec: (nanos / NANOS_PER_SEC) as i64,
            tv_usec: ((nanos % NANOS_PER_SEC) / NANOS_PER_MICROS) as i64,
        }
    }

    /// The seconds times a billion plus the microseconds times a thousand, each field's
    /// bits read as unsigned.
    fn to_nanos(self) -> (r: u64)
        ensures
            r == unsigned_of(self.tv_sec) * NANOS_PER_SEC + unsigned_of(self.tv_usec)
                * NANOS_PER_MICROS,
    {
        let secs: u64 = to_unsigned(self.tv_sec);
        let usec: u64 = to_unsigned(self.tv_usec);
        proof {
            vstd::arithmetic::mul::lemma_mul_inequality(0, secs as int, NANOS_PER_SEC as int);
            vstd::arithmetic::mul::lemma_mul_inequality(0, usec as int, NANOS_PER_MICROS as int);
        }
        secs * NANOS_PER_SEC + usec * NANOS_PER_MICROS
    }
}

impl TimeValueLike for TimeValue {
    open spec fn nanos_fit(&self) -> bool {
        self.total() <= u64::MAX
    }

    /// The duration itself.
    fn from_time_value(tv: TimeValue) -> (r: Self)
        ensures
            r == tv,
    {
        tv
    }

    /// The duration itself.
    fn to_time_value(self) -> (r: Result<TimeValue, LinuxError>)
        ensures
            r == Ok::<TimeValue, LinuxError>(self),
    {
        Ok(self)
    }

    /// The whole seconds and the nanoseconds left.
    fn from_nanos(nanos: u64) -> (r: Self)
        ensures
            r.wf(),
            r.total() == nanos,
    {
        proof {
            vstd::arithmetic::div_mod::lemma_fundamental_div_mod(nanos as int, NANOS_PER_SEC as int);
        }
        TimeValue::new(nanos / NANOS_PER_SEC, (nanos % NANOS_PER_SEC) as u32)
    }

    /// The duration in nanoseconds.
    fn to_nanos(self) -> (r: u64)
        ensures
            r == self.total(),
    {
        proof {
            vstd::arithmetic::mul::lemma_mul_inequality(0, self.secs as int, NANOS_PER_SEC as int);
        }
        self.as_secs() * NANOS_PER_SEC + self.subsec_nanos() as u64
    }
}

/// Counting nanoseconds and splitting them again is exact: a record made from a count of
/// nanoseconds holds that count, to the nanosecond for `Timespec` and to the whole
/// microsecond below it for `Timeval`.
pub proof fn lemma_nanos_round_trip(nanos: u64)
    ensures
        ({
            let sec = nanos / NANOS_PER_SEC;
            let ts = Timespec { tv_sec: sec as i64, tv_nsec: (nanos % NANOS_PER_SEC) as i64 };
            let tv = Timeval {
                tv_sec: sec as i64,
                tv_usec: ((nanos % NANOS_PER_SEC) / NANOS_PER_MICROS) as i64,
            };
            &&& unsigned_of(ts.tv_sec) * NANOS_PER_SEC + unsigned_of(ts.tv_nsec) == nanos
            &&& nanos - (unsigned_of(tv.tv_sec) * NANOS_PER_SEC + unsigned_of(tv.tv_usec)
                * NANOS_PER_MICROS) == nanos % NANOS_PER_MICROS
        }),
{
    vstd::arithmetic::div_mod::lemma_fundamental_div_mod(nanos as int, NANOS_PER_SEC as int);
    vstd::arithmetic::div_mod::lemma_div_is_ordered(nanos as int, u64::MAX as int, NANOS_PER_SEC as int);
    let r = nanos % NANOS_PER_SEC;
    vstd::arithmetic::div_mod::lemma_fundamental_div_mod(r as int, NANOS_PER_MICROS as int);
    vstd::arithmetic::div_mod::lemma_mod_mod(nanos as int, NANOS_PER_SEC as int, 1_000_000);
    assert(nanos % NANOS_PER_MICROS == r % NANOS_PER_MICROS) by {
        vstd::arithmetic::div_mod::lemma_mod_mod(nanos as int, NANOS_PER_MICROS as int, 1_000_000);
    }
}

/// Turning a valid `Timespec` into a duration and back gives the record again: the
/// duration holds its seconds and nanoseconds, and the record made from those holds them
/// as they were.
pub proof fn lemma_timespec_round_trip(ts: Timespec)
    requires
        0 <= ts.tv_nsec <= 999_999_999,
        ts.tv_sec >= 0,
    ensures
        signed_of(ts.tv_sec as u64) == ts.tv_sec,
        ts.tv_nsec as u32 as i64 == ts.tv_nsec,
{
}

} // verus!
