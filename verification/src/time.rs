//! Time system calls: timer and event file descriptors, clocks, interval timers and
//! sleeps. Durations are counted in nanoseconds; the current time and what the process
//! has used are handed in by the caller.
use vstd::prelude::*;

verus! {

/// Nanoseconds in a second.
pub const NSEC_PER_SEC: u128 = 1_000_000_000;
/// The largest duration: `u64::MAX` seconds and 999 999 999 nanoseconds.
pub const DURATION_MAX_NS: u128 = 18_446_744_073_709_551_615_999_999_999;

pub const CLOCK_REALTIME: usize = 0;
pub const CLOCK_MONOTONIC: usize = 1;
pub const CLOCK_PROCESS_CPUTIME_ID: usize = 2;
/// `clock_nanosleep` flag: the request is an absolute time.
pub const TIMER_ABSTIME: usize = 1;

pub const EFD_SEMAPHORE: u32 = 1;
pub const EFD_NONBLOCK: u32 = 1 << 11;
pub const EFD_CLOEXEC: u32 = 1 << 19;
pub const TFD_NONBLOCK: u32 = 1 << 11;
pub const TFD_CLOEXEC: u32 = 1 << 19;
pub const TFD_TIMER_ABSTIME: u32 = 1;
pub const TFD_TIMER_CANCEL_ON_SET: u32 = 2;

/// Open flag: read only.
pub const O_RDONLY: u32 = 0;
/// Open flag: read and write.
pub const O_RDWR: u32 = 2;
/// Open flag: do not block.
pub const O_NONBLOCK: u32 = 0x800;
/// Open flag: close on exec.
pub const O_CLOEXEC: u32 = 0x80000;

pub const ITIMER_REAL: i32 = 0;
pub const ITIMER_VIRTUAL: i32 = 1;
pub const ITIMER_PROF: i32 = 2;

/// Clock ticks per second that `times` counts.
pub const CLK_TCK: usize = 100;

/// Why a time system call failed.
#[derive(Clone, Copy, Debug, PartialEq, Eq, Structural)]
pub enum SyscallErr {
    EINVAL,
    EFAULT,
    EBADF,
    EAGAIN,
    EPERM,
    EINTR,
    ESRCH,
}

/// Seconds and nanoseconds.
#[derive(Clone, Copy, Debug, PartialEq, Eq, Structural)]
pub struct TimeSpec {
    pub sec: usize,
    pub nsec: usize,
}

/// Seconds and microseconds.
#[derive(Clone, Copy, Debug, PartialEq, Eq, Structural)]
pub struct TimeVal {
    pub sec: usize,
    pub usec: usize,
}

/// An interval timer: its period and when it next fires.
#[derive(Clone, Copy, Debug, PartialEq, Eq, Structural)]
pub struct ITimerval {
    pub it_interval: TimeVal,
    pub it_value: TimeVal,
}

/// A timer file's setting: its period and the time left before it fires.
#[derive(Clone, Copy, Debug, PartialEq, Eq, Structural)]
pub struct ITimerSpec {
    pub it_interval: TimeSpec,
    pub it_value: TimeSpec,
}

/// Times of a process, in clock ticks.
#[derive(Clone, Copy, Debug, PartialEq, Eq, Structural)]
pub struct Tms {
    pub utime: usize,
    pub stime: usize,
    pub cutime: usize,
    pub cstime: usize,
}

/// The nanoseconds a `TimeSpec` stands for.
pub open spec fn ts_ns(t: TimeSpec) -> int {
    t.sec * NSEC_PER_SEC + t.nsec
}

/// The nanoseconds a `TimeVal` stands for.
pub open spec fn tv_ns(t: TimeVal) -> int {
    t.sec * NSEC_PER_SEC + t.usec * 1000
}

/// A duration as seconds and nanoseconds.
pub open spec fn ns_ts(ns: int) -> TimeSpec {
    TimeSpec { sec: (ns / NSEC_PER_SEC as int) as usize, nsec: (ns % NSEC_PER_SEC as int) as usize }
}

/// A duration as seconds and microseconds.
pub open spec fn ns_tv(ns: int) -> TimeVal {
    TimeVal { sec: (ns / NSEC_PER_SEC as int) as usize, usec: ((ns % NSEC_PER_SEC as int) / 1000) as usize }
}

/// The duration of `t`.
pub fn timespec_ns(t: TimeSpec) -> (r: u128)
    ensures
        r == ts_ns(t),
{
    assert(t.sec * NSEC_PER_SEC + t.nsec <= 0xffff_ffff_ffff_ffff * 1_000_000_000 + 0xffff_ffff_ffff_ffff) by (nonlinear_arith)
        requires t.sec <= 0xffff_ffff_ffff_ffff, t.nsec <= 0xffff_ffff_ffff_ffff;
    (t.sec as u128) * NSEC_PER_SEC + (t.nsec as u128)
}

/// The duration of `t`.
pub fn timeval_ns(t: TimeVal) -> (r: u128)
    ensures
        r == tv_ns(t),
{
    assert(t.sec * NSEC_PER_SEC + t.usec * 1000 <= 0xffff_ffff_ffff_ffff * 1_000_000_000 + 0xffff_ffff_ffff_ffff * 1000)
        by (nonlinear_arith)
        requires t.sec <= 0xffff_ffff_ffff_ffff, t.usec <= 0xffff_ffff_ffff_ffff;
    (t.sec as u128) * NSEC_PER_SEC + (t.usec as u128) * 1000
}

/// `ns` as seconds and nanoseconds.
pub fn ns_timespec(ns: u128) -> (r: TimeSpec)
    requires
        ns / NSEC_PER_SEC <= usize::MAX,
    ensures
        r == ns_ts(ns as int),
{
    TimeSpec { sec: (ns / NSEC_PER_SEC) as usize, nsec: (ns % NSEC_PER_SEC) as usize }
}

/// `ns` as seconds and microseconds.
pub fn ns_timeval(ns: u128) -> (r: TimeVal)
    requires
        ns / NSEC_PER_SEC <= usize::MAX,
    ensures
        r == ns_tv(ns as int),
{
    TimeVal { sec: (ns / NSEC_PER_SEC) as usize, usec: ((ns % NSEC_PER_SEC) / 1000) as usize }
}

/// A duration `Duration` can hold: it fits a `TimeSpec` back.
pub open spec fn dur_ok(ns: int) -> bool {
    0 <= ns <= DURATION_MAX_NS && ns / NSEC_PER_SEC as int <= usize::MAX
}

/// An event counter file: its count and whether reads take one at a time.
#[derive(Clone, Copy, Debug, PartialEq, Eq, Structural)]
pub struct EventFd {
    pub counter: u64,
    pub semaphore: bool,
}

/// What reading an event file with a buffer of `buf_len` bytes gives: the value read, or
/// nothing yet when the count is zero; `EINVAL` for a buffer under eight bytes.
pub open spec fn eventfd_read_spec(e: EventFd, buf_len: int) -> Result<(Option<u64>, EventFd), SyscallErr> {
    if buf_len < 8 {
        Err(SyscallErr::EINVAL)
    } else if e.counter == 0 {
        Ok((None, e))
    } else if e.semaphore {
        Ok((Some(1u64), EventFd { counter: (e.counter - 1) as u64, ..e }))
    } else {
        Ok((Some(e.counter), EventFd { counter: 0, ..e }))
    }
}

impl EventFd {
    /// A counter starting at `initval`.
    pub fn new(initval: u64, semaphore: bool) -> (r: Self)
        ensures
            r == (EventFd { counter: initval, semaphore }),
    {
        EventFd { counter: initval, semaphore }
    }

    /// One read: the whole count, or one in semaphore mode; nothing while the count is zero.
    pub fn read_once(&mut self, buf_len: usize) -> (r: Result<Option<u64>, SyscallErr>)
        ensures
            match eventfd_read_spec(*old(self), buf_len as int) {
                Err(e) => r == Err::<Option<u64>, SyscallErr>(e) && *final(self) == *old(self),
                Ok((v, s)) => r == Ok::<Option<u64>, SyscallErr>(v) && *final(self) == s,
            },
    {
        if buf_len < 8 {
            return Err(SyscallErr::EINVAL);
        }
        if self.counter == 0 {
            Ok(None)
        } else if self.semaphore {
            self.counter = self.counter - 1;
            Ok(Some(1))
        } else {
            let value = self.counter;
            self.counter = 0;
            Ok(Some(value))
        }
    }

    /// A write of `value` from a buffer of `buf_len` bytes: adds it to the count, saturating.
    pub fn write_value(&mut self, buf_len: usize, value: u64) -> (r: Result<usize, SyscallErr>)
        ensures
            buf_len < 8 || value == u64::MAX ==> r == Err::<usize, SyscallErr>(SyscallErr::EINVAL)
                && *final(self) == *old(self),
            !(buf_len < 8 || value == u64::MAX) ==> r == Ok::<usize, SyscallErr>(8)
                && final(self).semaphore == old(self).semaphore
                && final(self).counter == (if old(self).counter + value > u64::MAX { u64::MAX as int } else {
                    old(self).counter + value }),
    {
        if buf_len < 8 {
            return Err(SyscallErr::EINVAL);
        }
        if value == u64::MAX {
            return Err(SyscallErr::EINVAL);
        }
        self.counter = self.counter.saturating_add(value);
        Ok(8)
    }

    /// Whether reading would find a value.
    pub fn pollin(&self) -> (r: bool)
        ensures
            r == (self.counter > 0),
    {
        self.counter > 0
    }
}

/// Reading an event file with room for the count: nothing while the count is zero, the
/// file left as it was; else one in semaphore mode, the count going down by exactly one,
/// and the whole count otherwise, the count going to zero. What is read and what is left
/// add up to the count before, and the mode stays. A buffer under eight bytes is refused.
pub proof fn lemma_eventfd_read(e: EventFd, buf_len: int)
    ensures
        buf_len < 8 ==> eventfd_read_spec(e, buf_len) == Err::<(Option<u64>, EventFd), SyscallErr>(
            SyscallErr::EINVAL),
        buf_len >= 8 && e.counter == 0 ==> eventfd_read_spec(e, buf_len) == Ok::<(Option<u64>, EventFd), SyscallErr>(
            (None, e)),
        buf_len >= 8 && e.counter > 0 ==> (eventfd_read_spec(e, buf_len) matches Ok((Some(v), after))
            && v + after.counter == e.counter && after.semaphore == e.semaphore
            && (e.semaphore ==> v == 1 && after.counter == e.counter - 1)
            && (!e.semaphore ==> v == e.counter && after.counter == 0)),
{
}

/// `eventfd2`: the open flags of the new file and its counter; `EINVAL` for unknown flags.
pub fn sys_eventfd2(initval: u64, flags: u32) -> (r: Result<(u32, EventFd), SyscallErr>)
    ensures
        flags & !(EFD_SEMAPHORE | EFD_NONBLOCK | EFD_CLOEXEC) != 0 ==> r == Err::<(u32, EventFd), SyscallErr>(SyscallErr::EINVAL),
        flags & !(EFD_SEMAPHORE | EFD_NONBLOCK | EFD_CLOEXEC) == 0 ==> r == Ok::<(u32, EventFd), SyscallErr>((
            O_RDWR | (if flags & EFD_NONBLOCK != 0 { O_NONBLOCK } else { 0 })
                | (if flags & EFD_CLOEXEC != 0 { O_CLOEXEC } else { 0 }),
            EventFd { counter: initval, semaphore: flags & EFD_SEMAPHORE != 0 },
        )),
{
    let allowed = EFD_SEMAPHORE | EFD_NONBLOCK | EFD_CLOEXEC;
    if flags & !allowed != 0 {
        return Err(SyscallErr::EINVAL);
    }
    let mut open_flags = O_RDWR;
    if flags & EFD_NONBLOCK != 0 {
        open_flags = open_flags | O_NONBLOCK;
    }
    if flags & EFD_CLOEXEC != 0 {
        open_flags = open_flags | O_CLOEXEC;
    }
    proof {
        assert((O_RDWR | O_NONBLOCK) | O_CLOEXEC == O_RDWR | O_NONBLOCK | O_CLOEXEC) by (bit_vector);
        assert(O_RDWR | 0u32 == O_RDWR) by (bit_vector);
        assert((O_RDWR | O_NONBLOCK) | 0u32 == O_RDWR | O_NONBLOCK) by (bit_vector);
        assert((O_RDWR | 0u32) | O_CLOEXEC == O_RDWR | O_CLOEXEC) by (bit_vector);
        assert((O_RDWR | 0u32) | 0u32 == O_RDWR) by (bit_vector);
    }
    Ok((open_flags, EventFd::new(initval, flags & EFD_SEMAPHORE != 0)))
}

/// A timer file: its clock, its period and when it next fires, in nanoseconds.
#[derive(Clone, Copy, Debug, PartialEq, Eq, Structural)]
pub struct TimerFdInner {
    pub clock_id: usize,
    pub interval: u128,
    pub next_expiration: Option<u128>,
}

/// The time of `clock_id`: the real-time clock runs `offset` ahead of the monotonic one.
pub open spec fn clock_now(clock_id: usize, now: int, offset: int) -> int {
    if clock_id == CLOCK_REALTIME { now + offset } else { now }
}

/// The times the timer functions take: durations `Duration` can hold, whose sums it can
/// hold too.
pub open spec fn times_ok(now: int, offset: int) -> bool {
    0 <= now && 0 <= offset && now + offset <= DURATION_MAX_NS
}

/// How many times a timer fired by `now`, and its next deadline after: none before its
/// deadline; one, then disarmed, without a period; else one plus the periods elapsed past
/// the deadline, the deadline moving on by that many periods (at most `u64::MAX` ns).
pub open spec fn expired_spec(t: TimerFdInner, now: int) -> (u64, TimerFdInner) {
    match t.next_expiration {
        None => (0u64, t),
        Some(deadline) => if now < deadline {
            (0u64, t)
        } else if t.interval == 0 {
            (1u64, TimerFdInner { next_expiration: None, ..t })
        } else {
            let q = ((now - deadline) / t.interval as int) as u64;
            let count: u64 = if q == u64::MAX { 0 } else { (q + 1) as u64 };
            let product = t.interval * count;
            let advance = if product > u64::MAX { u64::MAX as int } else { product };
            (count, TimerFdInner { next_expiration: Some((deadline + advance) as u128), ..t })
        },
    }
}

/// `validate_timespec`: the duration, or `EINVAL` for seconds past `isize::MAX` or
/// nanoseconds of a second or more.
pub fn validate_timespec(time: TimeSpec) -> (r: Result<u128, SyscallErr>)
    ensures
        time.sec > isize::MAX || time.nsec >= 1_000_000_000 ==> r == Err::<u128, SyscallErr>(SyscallErr::EINVAL),
        !(time.sec > isize::MAX || time.nsec >= 1_000_000_000) ==> r == Ok::<u128, SyscallErr>(ts_ns(time) as u128),
{
    if time.sec > isize::MAX as usize || time.nsec >= 1_000_000_000 {
        return Err(SyscallErr::EINVAL);
    }
    Ok(timespec_ns(time))
}

impl TimerFdInner {
    /// A disarmed timer on `clock_id`.
    pub fn new(clock_id: usize) -> (r: Self)
        ensures
            r == (TimerFdInner { clock_id, interval: 0, next_expiration: None }),
    {
        TimerFdInner { clock_id, interval: 0, next_expiration: None }
    }

    /// The time of this timer's clock.
    pub fn now_for_clock(&self, now: u128, offset: u128) -> (r: u128)
        requires
            times_ok(now as int, offset as int),
        ensures
            r == clock_now(self.clock_id, now as int, offset as int),
    {
        if self.clock_id == CLOCK_REALTIME {
            now + offset
        } else {
            now
        }
    }

    /// Counts the expirations up to now and moves the deadline past them.
    pub fn expired_count(&mut self, now: u128, offset: u128) -> (r: u64)
        requires
            times_ok(now as int, offset as int),
            old(self).next_expiration matches Some(d) ==> d + u64::MAX <= DURATION_MAX_NS,
        ensures
            (r, *final(self)) == expired_spec(*old(self), clock_now(old(self).clock_id, now as int, offset as int)),
    {
        let deadline = match self.next_expiration {
            None => return 0,
            Some(d) => d,
        };
        let now = self.now_for_clock(now, offset);
        if now < deadline {
            return 0;
        }
        if self.interval == 0 {
            self.next_expiration = None;
            return 1;
        }
        let elapsed = now - deadline;
        let step = self.interval;
        let q: u64 = (elapsed / step) as u64;
        let count: u64 = if q == u64::MAX { 0 } else { q + 1 };
        let advance: u128 = if count == 0 {
            0
        } else {
            let limit: u128 = (u64::MAX as u128) / (count as u128);
            if step > limit {
                proof {
                    let m = u64::MAX as int;
                    assert(step * count > m) by (nonlinear_arith)
                        requires step > m / (count as int), count >= 1, m >= 0;
                }
                u64::MAX as u128
            } else {
                proof {
                    let m = u64::MAX as int;
                    assert(step * count <= m) by (nonlinear_arith)
                        requires step <= m / (count as int), count >= 1, m >= 0;
                }
                step * (count as u128)
            }
        };
        self.next_expiration = Some(deadline + advance);
        count
    }

    /// The setting as `timerfd_gettime` reports it: the period and the time left.
    pub fn snapshot(&self, now: u128, offset: u128) -> (r: ITimerSpec)
        requires
            times_ok(now as int, offset as int),
            dur_ok(self.interval as int),
            self.next_expiration matches Some(d) ==> dur_ok(d as int),
        ensures
            r.it_interval == ns_ts(self.interval as int),
            r.it_value == ns_ts(match self.next_expiration {
                Some(d) => if d >= clock_now(self.clock_id, now as int, offset as int) {
                    d - clock_now(self.clock_id, now as int, offset as int) } else { 0 },
                None => 0,
            }),
    {
        let remaining: u128 = match self.next_expiration {
            Some(deadline) => {
                let n = self.now_for_clock(now, offset);
                let rem = if deadline >= n { deadline - n } else { 0 };
                proof {
                    vstd::arithmetic::div_mod::lemma_div_is_ordered(rem as int, deadline as int, NSEC_PER_SEC as int);
                }
                rem
            },
            None => 0,
        };
        ITimerSpec { it_interval: ns_timespec(self.interval), it_value: ns_timespec(remaining) }
    }

    /// How long until the next expiration, if armed.
    pub fn next_wait(&self, now: u128, offset: u128) -> (r: Option<u128>)
        requires
            times_ok(now as int, offset as int),
        ensures
            r == match self.next_expiration {
                Some(d) => Some(if d >= clock_now(self.clock_id, now as int, offset as int) {
                    (d - clock_now(self.clock_id, now as int, offset as int)) as u128 } else { 0u128 }),
                None => None::<u128>,
            },
    {
        match self.next_expiration {
            Some(deadline) => {
                let n = self.now_for_clock(now, offset);
                Some(if deadline >= n { deadline - n } else { 0 })
            },
            None => None,
        }
    }

    /// Whether the deadline has passed.
    pub fn has_expired(&self, now: u128, offset: u128) -> (r: bool)
        requires
            times_ok(now as int, offset as int),
        ensures
            r == match self.next_expiration {
                Some(d) => clock_now(self.clock_id, now as int, offset as int) >= d,
                None => false,
            },
    {
        match self.next_expiration {
            Some(deadline) => self.now_for_clock(now, offset) >= deadline,
            None => false,
        }
    }
}

/// What a read of a timer file does next.
#[derive(Clone, Copy, Debug, PartialEq, Eq, Structural)]
pub enum TimerRead {
    /// Return the expiration count.
    Count(u64),
    /// Sleep this long, then look again.
    Sleep(u128),
    /// Look again at once.
    Retry,
}

/// A timer without a period fires once: counting its expirations gives at most one, and
/// one exactly where it is armed and its deadline has come; it is then disarmed, on the
/// same clock, so any later count finds none. Where nothing expired it is left as it was.
pub proof fn lemma_one_shot_fires_once(t: TimerFdInner, now: int, later: int)
    requires
        t.interval == 0,
    ensures
        expired_spec(t, now).0 <= 1,
        expired_spec(t, now).0 == 1 <==> (t.next_expiration matches Some(d) && d <= now),
        expired_spec(t, now).0 == 1 ==> expired_spec(t, now).1.next_expiration is None
            && expired_spec(t, now).1.clock_id == t.clock_id && expired_spec(t, now).1.interval == 0,
        expired_spec(t, now).0 == 1 ==> expired_spec(expired_spec(t, now).1, later).0 == 0,
        expired_spec(t, now).0 == 0 ==> expired_spec(t, now).1 == t,
{
}

/// A periodic timer whose deadline `d` has come counts every deadline `d`, `d + interval`,
/// ... up to now, and its next deadline is the first of them after now (where the count
/// and the distance it moves fit `u64`).
pub proof fn lemma_periodic_counts_passed_deadlines(t: TimerFdInner, now: int)
    requires
        t.interval > 0,
        t.next_expiration matches Some(d) && d <= now && d + u64::MAX <= DURATION_MAX_NS
            && (now - d) / (t.interval as int) < u64::MAX
            && t.interval * ((now - d) / (t.interval as int) + 1) <= u64::MAX,
    ensures
        expired_spec(t, now).0 >= 1,
        expired_spec(t, now).1.interval == t.interval && expired_spec(t, now).1.clock_id == t.clock_id,
        expired_spec(t, now).1.next_expiration matches Some(n) && n == t.next_expiration->0
            + expired_spec(t, now).0 * t.interval && now < n && n - t.interval <= now,
{
    let d = t.next_expiration->0 as int;
    let i = t.interval as int;
    let q = (now - d) / i;
    vstd::arithmetic::div_mod::lemma_fundamental_div_mod(now - d, i);
    assert(0 <= (now - d) % i < i) by {
        vstd::arithmetic::div_mod::lemma_mod_bound(now - d, i);
    }
    assert(q >= 0) by {
        vstd::arithmetic::div_mod::lemma_div_pos_is_pos(now - d, i);
    }
    assert(i * (q + 1) == i * q + i) by (nonlinear_arith);
    assert(i * (q + 1) == (q + 1) * i) by (nonlinear_arith);
    let count: u64 = (q + 1) as u64;
    assert((q as u64) as int == q);
    assert(expired_spec(t, now).0 == count);
    assert(t.interval * count == i * (q + 1));
    assert(expired_spec(t, now).1.next_expiration == Some((d + i * (q + 1)) as u128));
}

/// One step of reading a timer file with a buffer of `buf_len` bytes.
pub fn timerfd_read_step(t: &mut TimerFdInner, buf_len: usize, nonblock: bool, now: u128, offset: u128)
    -> (r: Result<TimerRead, SyscallErr>)
    requires
        times_ok(now as int, offset as int),
        old(t).next_expiration matches Some(d) ==> d + u64::MAX <= DURATION_MAX_NS,
    ensures
        buf_len < 8 ==> r == Err::<TimerRead, SyscallErr>(SyscallErr::EINVAL) && *final(t) == *old(t),
        buf_len >= 8 ==> {
            let (count, after) = expired_spec(*old(t), clock_now(old(t).clock_id, now as int, offset as int));
            &&& *final(t) == after
            &&& count > 0 ==> r == Ok::<TimerRead, SyscallErr>(TimerRead::Count(count))
            &&& count == 0 && nonblock ==> r == Err::<TimerRead, SyscallErr>(SyscallErr::EAGAIN)
            &&& count == 0 && !nonblock && after.next_expiration is None ==> r == Err::<TimerRead, SyscallErr>(SyscallErr::EAGAIN)
            &&& after.next_expiration matches Some(d) ==> (count == 0 && !nonblock ==> {
                let n = clock_now(after.clock_id, now as int, offset as int);
                let wait = if d >= n { d - n } else { 0 };
                r == Ok::<TimerRead, SyscallErr>(if wait == 0 { TimerRead::Retry } else { TimerRead::Sleep(wait as u128) })
            })
        },
{
    if buf_len < 8 {
        return Err(SyscallErr::EINVAL);
    }
    let count = t.expired_count(now, offset);
    if count > 0 {
        return Ok(TimerRead::Count(count));
    }
    if nonblock {
        return Err(SyscallErr::EAGAIN);
    }
    let wait = match t.next_wait(now, offset) {
        Some(w) => w,
        None => return Err(SyscallErr::EAGAIN),
    };
    if wait == 0 {
        Ok(TimerRead::Retry)
    } else {
        Ok(TimerRead::Sleep(wait))
    }
}

/// `timerfd_create`: the open flags of the new file and its disarmed timer; `EINVAL` for
/// unknown flags or a clock other than the real-time and monotonic ones.
pub fn sys_timerfd_create(clock_id: usize, flags: u32) -> (r: Result<(u32, TimerFdInner), SyscallErr>)
    ensures
        flags & !(TFD_NONBLOCK | TFD_CLOEXEC) != 0 || !(clock_id == CLOCK_REALTIME || clock_id == CLOCK_MONOTONIC)
            ==> r == Err::<(u32, TimerFdInner), SyscallErr>(SyscallErr::EINVAL),
        !(flags & !(TFD_NONBLOCK | TFD_CLOEXEC) != 0 || !(clock_id == CLOCK_REALTIME || clock_id == CLOCK_MONOTONIC))
            ==> r == Ok::<(u32, TimerFdInner), SyscallErr>((
            O_RDONLY | (if flags & TFD_NONBLOCK != 0 { O_NONBLOCK } else { 0 })
                | (if flags & TFD_CLOEXEC != 0 { O_CLOEXEC } else { 0 }),
            TimerFdInner { clock_id, interval: 0, next_expiration: None },
        )),
{
    let allowed = TFD_NONBLOCK | TFD_CLOEXEC;
    if flags & !allowed != 0 {
        return Err(SyscallErr::EINVAL);
    }
    if !(clock_id == CLOCK_REALTIME || clock_id == CLOCK_MONOTONIC) {
        return Err(SyscallErr::EINVAL);
    }
    let mut open_flags = O_RDONLY;
    if flags & TFD_NONBLOCK != 0 {
        open_flags = open_flags | O_NONBLOCK;
    }
    if flags & TFD_CLOEXEC != 0 {
        open_flags = open_flags | O_CLOEXEC;
    }
    proof {
        assert((O_RDONLY | O_NONBLOCK) | O_CLOEXEC == O_RDONLY | O_NONBLOCK | O_CLOEXEC) by (bit_vector);
        assert((O_RDONLY | O_NONBLOCK) | 0u32 == O_RDONLY | O_NONBLOCK) by (bit_vector);
        assert((O_RDONLY | 0u32) | O_CLOEXEC == O_RDONLY | O_CLOEXEC) by (bit_vector);
        assert((O_RDONLY | 0u32) | 0u32 == O_RDONLY) by (bit_vector);
        assert(O_RDONLY | 0u32 == O_RDONLY) by (bit_vector);
    }
    Ok((open_flags, TimerFdInner::new(clock_id)))
}

/// Checks a `timerfd_settime` request: its flags and both durations. The period and the
/// value, or the error.
pub fn timerfd_settime_check(flags: u32, new_spec: ITimerSpec) -> (r: Result<(u128, u128), SyscallErr>)
    ensures
        flags & !(TFD_TIMER_ABSTIME | TFD_TIMER_CANCEL_ON_SET) != 0 ==> r == Err::<(u128, u128), SyscallErr>(SyscallErr::EINVAL),
        flags & !(TFD_TIMER_ABSTIME | TFD_TIMER_CANCEL_ON_SET) == 0 ==> match (validate_spec(new_spec.it_interval),
            validate_spec(new_spec.it_value)) {
            (None, _) => r == Err::<(u128, u128), SyscallErr>(SyscallErr::EINVAL),
            (Some(_), None) => r == Err::<(u128, u128), SyscallErr>(SyscallErr::EINVAL),
            (Some(i), Some(v)) => r == Ok::<(u128, u128), SyscallErr>((i as u128, v as u128)),
        },
{
    let allowed = TFD_TIMER_ABSTIME | TFD_TIMER_CANCEL_ON_SET;
    if flags & !allowed != 0 {
        return Err(SyscallErr::EINVAL);
    }
    let interval = match validate_timespec(new_spec.it_interval) {
        Ok(v) => v,
        Err(e) => return Err(e),
    };
    let value = match validate_timespec(new_spec.it_value) {
        Ok(v) => v,
        Err(e) => return Err(e),
    };
    Ok((interval, value))
}

/// What `validate_timespec` accepts, as its duration.
pub open spec fn validate_spec(t: TimeSpec) -> Option<int> {
    if t.sec > isize::MAX || t.nsec >= 1_000_000_000 { None } else { Some(ts_ns(t)) }
}

impl TimerFdInner {
    /// Sets a checked period and value: a zero value disarms the timer, an absolute one is
    /// the deadline itself, a relative one counts from now. The setting before.
    pub fn settime(&mut self, flags: u32, interval: u128, value: u128, now: u128, offset: u128) -> (r: ITimerSpec)
        requires
            times_ok(now as int, offset as int),
            dur_ok(old(self).interval as int),
            old(self).next_expiration matches Some(d) ==> dur_ok(d as int),
            clock_now(old(self).clock_id, now as int, offset as int) + value <= DURATION_MAX_NS,
        ensures
            r == ({
                let n = clock_now(old(self).clock_id, now as int, offset as int);
                ITimerSpec {
                    it_interval: ns_ts(old(self).interval as int),
                    it_value: ns_ts(match old(self).next_expiration {
                        Some(d) => if d >= n { d - n } else { 0 },
                        None => 0,
                    }),
                }
            }),
            final(self).clock_id == old(self).clock_id,
            final(self).interval == interval,
            final(self).next_expiration == if value == 0 {
                None::<u128>
            } else if flags & TFD_TIMER_ABSTIME != 0 {
                Some(value)
            } else {
                Some((clock_now(old(self).clock_id, now as int, offset as int) + value) as u128)
            },
    {
        let old_spec = self.snapshot(now, offset);
        self.interval = interval;
        self.next_expiration = if value == 0 {
            None
        } else if flags & TFD_TIMER_ABSTIME != 0 {
            Some(value)
        } else {
            Some(self.now_for_clock(now, offset) + value)
        };
        old_spec
    }
}

/// The custom clocks `clock_settime` recorded: each clock's offset from the monotonic clock.
pub struct ClockManager {
    clocks: Vec<(usize, u128)>,
}

/// The first position at or after `i` that records clock `id`.
pub open spec fn clock_index(s: Seq<(usize, u128)>, id: usize, i: int) -> Option<int>
    decreases s.len() - i,
{
    if i < 0 || i >= s.len() {
        None
    } else if s[i].0 == id {
        Some(i)
    } else {
        clock_index(s, id, i + 1)
    }
}

/// The offset recorded for clock `id`, the first one found.
pub open spec fn clock_lookup(s: Seq<(usize, u128)>, id: usize) -> Option<u128> {
    match clock_index(s, id, 0) {
        Some(i) => Some(s[i].1),
        None => None,
    }
}

proof fn lemma_clock_index(s: Seq<(usize, u128)>, id: usize, i: int)
    requires
        0 <= i,
    ensures
        clock_index(s, id, i) matches Some(k) ==> i <= k < s.len() && s[k].0 == id
            && forall|j: int| i <= j < k ==> (#[trigger] s[j]).0 != id,
        clock_index(s, id, i) is None ==> forall|j: int| i <= j < s.len() ==> (#[trigger] s[j]).0 != id,
    decreases s.len() - i,
{
    if i < s.len() && s[i].0 != id {
        lemma_clock_index(s, id, i + 1);
    }
}

/// Two records with the same keys at the same places, and the same values for every key
/// but `id`, give every other key the same offset.
proof fn lemma_lookup_other(a: Seq<(usize, u128)>, b: Seq<(usize, u128)>, id: usize, other: usize, i: int)
    requires
        other != id,
        0 <= i,
        a.len() <= b.len(),
        forall|j: int| 0 <= j < a.len() ==> (#[trigger] b[j]).0 == a[j].0,
        forall|j: int| 0 <= j < a.len() && a[j].0 != id ==> (#[trigger] b[j]) == a[j],
        forall|j: int| a.len() <= j < b.len() ==> (#[trigger] b[j]).0 == id,
    ensures
        (match clock_index(a, other, i) { Some(k) => Some(a[k].1), None => None::<u128> })
            == (match clock_index(b, other, i) { Some(k) => Some(b[k].1), None => None::<u128> }),
    decreases b.len() - i,
{
    if i < b.len() {
        if i < a.len() {
            if a[i].0 != other {
                lemma_lookup_other(a, b, id, other, i + 1);
            } else {
                assert(b[i] == a[i]);
            }
        } else {
            assert(b[i].0 == id);
            lemma_lookup_other(a, b, id, other, i + 1);
        }
    }
}

impl ClockManager {
    pub closed spec fn clocks_spec(&self) -> Seq<(usize, u128)> {
        self.clocks@
    }

    /// No custom clock.
    pub fn new() -> (r: Self)
        ensures
            forall|id: usize| clock_lookup(r.clocks_spec(), id) is None,
    {
        ClockManager { clocks: Vec::new() }
    }

    /// The offset of clock `id`.
    pub fn get(&self, id: usize) -> (r: Option<u128>)
        ensures
            r == clock_lookup(self.clocks_spec(), id),
    {
        let mut i: usize = 0;
        while i < self.clocks.len()
            invariant
                i <= self.clocks@.len(),
                clock_index(self.clocks@, id, 0) == clock_index(self.clocks@, id, i as int),
            decreases self.clocks@.len() - i,
        {
            if self.clocks[i].0 == id {
                return Some(self.clocks[i].1);
            }
            i = i + 1;
        }
        None
    }

    /// Records `diff` as the offset of clock `id`.
    pub fn insert(&mut self, id: usize, diff: u128)
        ensures
            clock_lookup(final(self).clocks_spec(), id) == Some(diff),
            forall|other: usize| other != id ==> clock_lookup(final(self).clocks_spec(), other)
                == clock_lookup(old(self).clocks_spec(), other),
    {
        let ghost old_s = self.clocks@;
        proof {
            lemma_clock_index(old_s, id, 0);
        }
        let mut i: usize = 0;
        while i < self.clocks.len()
            invariant
                i <= old_s.len(),
                self.clocks@ == old_s,
                old_s == old(self).clocks@,
                clock_index(old_s, id, 0) == clock_index(old_s, id, i as int),
            decreases old_s.len() - i,
        {
            if self.clocks[i].0 == id {
                self.clocks.set(i, (id, diff));
                proof {
                    assert(clock_index(self.clocks@, id, 0) == Some(i as int)) by {
                        lemma_clock_index(old_s, id, 0);
                        lemma_clock_index(self.clocks@, id, 0);
                        if clock_index(self.clocks@, id, 0) != Some(i as int) {
                            assert(self.clocks@[i as int].0 == id);
                        }
                    }
                    assert forall|j: int| 0 <= j < old_s.len() implies (#[trigger] self.clocks@[j]).0 == old_s[j].0 by {
                        if j != i {
                            assert(self.clocks@[j] == old_s[j]);
                        }
                    }
                    assert forall|j: int| 0 <= j < old_s.len() && old_s[j].0 != id implies (#[trigger] self.clocks@[j])
                        == old_s[j] by {
                        if j != i {
                            assert(self.clocks@[j] == old_s[j]);
                        }
                    }
                    assert forall|other: usize| other != id implies clock_lookup(self.clocks@, other)
                        == clock_lookup(old_s, other) by {
                        lemma_lookup_other(old_s, self.clocks@, id, other, 0);
                    }
                }
                return;
            }
            i = i + 1;
        }
        self.clocks.push((id, diff));
        proof {
            lemma_clock_index(self.clocks@, id, 0);
            if clock_index(self.clocks@, id, 0) != Some(old_s.len() as int) {
                assert(self.clocks@[old_s.len() as int].0 == id);
            }
            assert forall|other: usize| other != id implies clock_lookup(self.clocks@, other)
                == clock_lookup(old_s, other) by {
                lemma_lookup_other(old_s, self.clocks@, id, other, 0);
            }
        }
    }
}

/// `clock_gettime` of `clock_id`: the process's CPU time, the monotonic time, the real
/// time, or a recorded clock's time; `EFAULT` for an unwritable buffer, `EINVAL` for an
/// unknown clock.
pub fn sys_clock_gettime(clock_id: usize, user_ok: bool, cpu_time: u128, now: u128, offset: u128,
    clocks: &ClockManager) -> (r: Result<TimeSpec, SyscallErr>)
    requires
        dur_ok(cpu_time as int),
        times_ok(now as int, offset as int),
        dur_ok(now + offset),
        forall|id: usize| #[trigger] clock_lookup(clocks.clocks_spec(), id) is Some
            ==> dur_ok(now + clock_lookup(clocks.clocks_spec(), id)->0),
    ensures
        !user_ok ==> r == Err::<TimeSpec, SyscallErr>(SyscallErr::EFAULT),
        user_ok ==> r == (if clock_id == CLOCK_PROCESS_CPUTIME_ID {
            Ok::<TimeSpec, SyscallErr>(ns_ts(cpu_time as int))
        } else if clock_id == CLOCK_MONOTONIC {
            Ok(ns_ts(now as int))
        } else if clock_id == CLOCK_REALTIME {
            Ok(ns_ts(now + offset))
        } else {
            match clock_lookup(clocks.clocks_spec(), clock_id) {
                Some(c) => Ok(ns_ts(now + c)),
                None => Err(SyscallErr::EINVAL),
            }
        }),
{
    if !user_ok {
        return Err(SyscallErr::EFAULT);
    }
    if clock_id == CLOCK_PROCESS_CPUTIME_ID {
        return Ok(ns_timespec(cpu_time));
    }
    proof {
        vstd::arithmetic::div_mod::lemma_div_is_ordered(now as int, now + offset, NSEC_PER_SEC as int);
    }
    if clock_id == CLOCK_MONOTONIC {
        return Ok(ns_timespec(now));
    }
    if clock_id == CLOCK_REALTIME {
        return Ok(ns_timespec(now + offset));
    }
    match clocks.get(clock_id) {
        Some(c) => {
            proof {
                assert(clock_lookup(clocks.clocks_spec(), clock_id) is Some);
            }
            Ok(ns_timespec(now + c))
        },
        None => Err(SyscallErr::EINVAL),
    }
}

/// `clock_settime`: records the clock's offset from now and, for the real-time clock, the
/// real-time offset. Errors in the order the checks come: an unreadable request,
/// negative seconds, bad nanoseconds, a real time before now, the CPU-time clock.
pub fn sys_clock_settime(clock_id: usize, ts: TimeSpec, user_ok: bool, now: u128, clocks: &mut ClockManager,
    realtime_offset: &mut u128) -> (r: Result<usize, SyscallErr>)
    requires
        user_ok && ts.sec <= isize::MAX && ts.nsec <= 999_999_999
            && !(clock_id == CLOCK_REALTIME && ts.sec < now / 1_000_000 / 1000) && clock_id != CLOCK_PROCESS_CPUTIME_ID
            ==> ts_ns(ts) >= now,
    ensures
        !user_ok ==> r == Err::<usize, SyscallErr>(SyscallErr::EFAULT),
        user_ok && ts.sec > isize::MAX ==> r == Err::<usize, SyscallErr>(SyscallErr::EINVAL),
        user_ok && ts.sec <= isize::MAX && ts.nsec > 999_999_999 ==> r == Err::<usize, SyscallErr>(SyscallErr::EINVAL),
        user_ok && ts.sec <= isize::MAX && ts.nsec <= 999_999_999 && clock_id == CLOCK_REALTIME
            && ts.sec < now / 1_000_000 / 1000 ==> r == Err::<usize, SyscallErr>(SyscallErr::EINVAL),
        user_ok && ts.sec <= isize::MAX && ts.nsec <= 999_999_999 && clock_id == CLOCK_PROCESS_CPUTIME_ID
            ==> r == Err::<usize, SyscallErr>(SyscallErr::EPERM),
        r is Err ==> final(clocks).clocks_spec() == old(clocks).clocks_spec() && *final(realtime_offset) == *old(realtime_offset),
        r is Ok ==> r == Ok::<usize, SyscallErr>(0)
            && clock_lookup(final(clocks).clocks_spec(), clock_id) == Some((ts_ns(ts) - now) as u128)
            && (forall|other: usize| other != clock_id ==> clock_lookup(final(clocks).clocks_spec(), other)
                == clock_lookup(old(clocks).clocks_spec(), other))
            && *final(realtime_offset) == if clock_id == CLOCK_REALTIME { (ts_ns(ts) - now) as u128 } else {
                *old(realtime_offset) },
{
    if !user_ok {
        return Err(SyscallErr::EFAULT);
    }
    if ts.sec > isize::MAX as usize {
        return Err(SyscallErr::EINVAL);
    } else if ts.nsec > 999_999_999 {
        return Err(SyscallErr::EINVAL);
    } else if clock_id == CLOCK_REALTIME && (ts.sec as u128) < now / 1_000_000 / 1000 {
        return Err(SyscallErr::EINVAL);
    } else if clock_id == CLOCK_PROCESS_CPUTIME_ID {
        return Err(SyscallErr::EPERM);
    }
    let diff = timespec_ns(ts) - now;
    clocks.insert(clock_id, diff);
    if clock_id == CLOCK_REALTIME {
        *realtime_offset = diff;
    }
    Ok(0)
}

/// `clock_getres`: one nanosecond for the known and the recorded clocks.
pub fn sys_clock_getres(clock_id: usize, user_ok: bool, clocks: &ClockManager) -> (r: Result<TimeSpec, SyscallErr>)
    ensures
        !user_ok ==> r == Err::<TimeSpec, SyscallErr>(SyscallErr::EFAULT),
        user_ok ==> r == (if clock_id == CLOCK_REALTIME || clock_id == CLOCK_MONOTONIC
            || clock_id == CLOCK_PROCESS_CPUTIME_ID || clock_lookup(clocks.clocks_spec(), clock_id) is Some {
            Ok::<TimeSpec, SyscallErr>(TimeSpec { sec: 0, nsec: 1 })
        } else {
            Err(SyscallErr::EINVAL)
        }),
{
    if !user_ok {
        return Err(SyscallErr::EFAULT);
    }
    if clock_id == CLOCK_REALTIME || clock_id == CLOCK_MONOTONIC || clock_id == CLOCK_PROCESS_CPUTIME_ID {
        return Ok(TimeSpec { sec: 0, nsec: 1 });
    }
    match clocks.get(clock_id) {
        Some(_) => Ok(TimeSpec { sec: 0, nsec: 1 }),
        None => Err(SyscallErr::EINVAL),
    }
}

/// `gettimeofday` from the time in milliseconds; `EFAULT` when a given buffer cannot be
/// written.
pub fn sys_get_time(now_ms: usize, tv_ok: bool, tz_ok: bool) -> (r: Result<TimeVal, SyscallErr>)
    ensures
        !tv_ok || !tz_ok ==> r == Err::<TimeVal, SyscallErr>(SyscallErr::EFAULT),
        tv_ok && tz_ok ==> r == Ok::<TimeVal, SyscallErr>(TimeVal { sec: now_ms / 1000, usec: (now_ms % 1000 * 1000) as usize }),
{
    if !tv_ok || !tz_ok {
        return Err(SyscallErr::EFAULT);
    }
    Ok(TimeVal { sec: now_ms / 1000, usec: now_ms % 1000 * 1000 })
}

/// `times`: the clock ticks since boot, and the process's user and system ticks when a
/// buffer is given.
pub fn sys_times(now_us: usize, user_us: usize, sys_us: usize, buf_given: bool, user_ok: bool)
    -> (r: Result<(usize, Option<Tms>), SyscallErr>)
    requires
        now_us * CLK_TCK <= usize::MAX,
        user_us * CLK_TCK <= usize::MAX,
        sys_us * CLK_TCK <= usize::MAX,
    ensures
        !buf_given ==> r == Ok::<(usize, Option<Tms>), SyscallErr>(((now_us * CLK_TCK / 1_000_000) as usize, None)),
        buf_given && !user_ok ==> r == Err::<(usize, Option<Tms>), SyscallErr>(SyscallErr::EFAULT),
        buf_given && user_ok ==> r == Ok::<(usize, Option<Tms>), SyscallErr>(((now_us * CLK_TCK / 1_000_000) as usize, Some(Tms {
            utime: (user_us * CLK_TCK / 1_000_000) as usize,
            stime: (sys_us * CLK_TCK / 1_000_000) as usize,
            cutime: 0,
            cstime: 0,
        }))),
{
    let ticks = (now_us * CLK_TCK) / 1_000_000;
    if !buf_given {
        return Ok((ticks, None));
    }
    if !user_ok {
        return Err(SyscallErr::EFAULT);
    }
    let tms = Tms {
        utime: (user_us * CLK_TCK) / 1_000_000,
        stime: (sys_us * CLK_TCK) / 1_000_000,
        cutime: 0,
        cstime: 0,
    };
    Ok((ticks, Some(tms)))
}

/// What a sleep does.
#[derive(Clone, Copy, Debug, PartialEq, Eq, Structural)]
pub enum SleepPlan {
    /// Nothing: the time has come.
    Done,
    /// Sleep this long; events cut it short with `EINTR` when interruptible.
    Sleep { duration: u128, interruptible: bool },
}

/// `nanosleep`: sleep for the request, interruptibly; `EINVAL` for negative seconds or bad
/// nanoseconds.
pub fn sys_nanosleep(request: TimeSpec) -> (r: Result<SleepPlan, SyscallErr>)
    ensures
        request.sec > isize::MAX || request.nsec >= 1_000_000_000 ==> r == Err::<SleepPlan, SyscallErr>(SyscallErr::EINVAL),
        !(request.sec > isize::MAX || request.nsec >= 1_000_000_000) ==> r == Ok::<SleepPlan, SyscallErr>(
            SleepPlan::Sleep { duration: ts_ns(request) as u128, interruptible: true }),
{
    if request.sec > isize::MAX as usize || request.nsec >= 1_000_000_000 {
        return Err(SyscallErr::EINVAL);
    }
    Ok(SleepPlan::Sleep { duration: timespec_ns(request), interruptible: true })
}

/// `clock_nanosleep`: until an absolute time, not interruptible, or for a relative one,
/// interruptible; `EINVAL` for negative seconds or bad nanoseconds.
pub fn sys_clock_nanosleep(flags: u32, request: TimeSpec, now: u128) -> (r: Result<SleepPlan, SyscallErr>)
    ensures
        request.sec > isize::MAX || request.nsec >= 1_000_000_000 ==> r == Err::<SleepPlan, SyscallErr>(SyscallErr::EINVAL),
        !(request.sec > isize::MAX || request.nsec >= 1_000_000_000) ==> r == Ok::<SleepPlan, SyscallErr>(
            if flags as usize == TIMER_ABSTIME {
                if ts_ns(request) <= now { SleepPlan::Done } else {
                    SleepPlan::Sleep { duration: (ts_ns(request) - now) as u128, interruptible: false } }
            } else {
                SleepPlan::Sleep { duration: ts_ns(request) as u128, interruptible: true }
            }),
{
    if request.sec > isize::MAX as usize || request.nsec >= 1_000_000_000 {
        return Err(SyscallErr::EINVAL);
    }
    let req = timespec_ns(request);
    if flags as usize == TIMER_ABSTIME {
        if req <= now {
            return Ok(SleepPlan::Done);
        }
        return Ok(SleepPlan::Sleep { duration: req - now, interruptible: false });
    }
    Ok(SleepPlan::Sleep { duration: req, interruptible: true })
}

/// What `setitimer` leaves to start: a timed task with this period and first deadline.
#[derive(Clone, Copy, Debug, PartialEq, Eq, Structural)]
pub struct TimedTask {
    pub interval: u128,
    pub deadline: u128,
}

/// `setitimer` of the real-time timer `timers[0]`: with `old_requested`, first reports it
/// with the time left (and keeps that as its value); then arms it at now plus the new
/// value, or disarms it for a zero value. 0, the old setting when asked for, and the timed
/// task to start, if any.
pub fn sys_setitimer(which: i32, new_value: ITimerval, new_ok: bool, old_requested: bool, old_ok: bool,
    timers: &mut Vec<ITimerval>, now: u128) -> (r: Result<(usize, Option<ITimerval>, Option<TimedTask>), SyscallErr>)
    requires
        old(timers)@.len() == 3,
        old(timers)@[0].it_value.usec < 1_000_000,
        new_ok ==> which == ITIMER_REAL,
        dur_ok(now as int),
        dur_ok(now + tv_ns(new_value.it_value)),
    ensures
        final(timers)@.len() == 3,
        final(timers)@[0].it_value.usec < 1_000_000,
        !new_ok ==> r == Err::<(usize, Option<ITimerval>, Option<TimedTask>), SyscallErr>(SyscallErr::EFAULT)
            && final(timers)@ == old(timers)@,
        new_ok && old_requested && !old_ok ==> r == Err::<(usize, Option<ITimerval>, Option<TimedTask>), SyscallErr>(
            SyscallErr::EFAULT) && final(timers)@ == old(timers)@,
        new_ok && !(old_requested && !old_ok) ==> {
            let cur = tv_ns(old(timers)@[0].it_value);
            let left = if cur == 0 { 0 } else if cur > now { cur - now } else { 0 };
            let reported = ITimerval { it_value: if old_requested { ns_tv(left) } else { old(timers)@[0].it_value },
                ..old(timers)@[0] };
            let next = tv_ns(new_value.it_value);
            &&& r is Ok
            &&& r->Ok_0.0 == 0
            &&& r->Ok_0.1 == if old_requested { Some(reported) } else { None::<ITimerval> }
            &&& final(timers)@ == old(timers)@.update(0, ITimerval {
                it_value: if next == 0 { ns_tv(0) } else { ns_tv(now + next) },
                ..reported
            })
            &&& r->Ok_0.2 == if next == 0 { None::<TimedTask> } else {
                Some(TimedTask { interval: tv_ns(new_value.it_interval) as u128, deadline: (next + now) as u128 }) }
        },
{
    if !new_ok {
        return Err(SyscallErr::EFAULT);
    }
    let interval = timeval_ns(new_value.it_interval);
    let next_timeout = timeval_ns(new_value.it_value);
    let mut old_out: Option<ITimerval> = None;
    if old_requested {
        if !old_ok {
            return Err(SyscallErr::EFAULT);
        }
        let cur = timers[0];
        let mut value = timeval_ns(cur.it_value);
        if value != 0 {
            if value > now {
                value = value - now;
            } else {
                value = 0;
            }
        }
        proof {
            vstd::arithmetic::div_mod::lemma_div_is_ordered(value as int, tv_ns(cur.it_value), NSEC_PER_SEC as int);
            assert(tv_ns(cur.it_value) / NSEC_PER_SEC as int == cur.it_value.sec) by (nonlinear_arith)
                requires tv_ns(cur.it_value) == cur.it_value.sec * NSEC_PER_SEC + cur.it_value.usec * 1000,
                    cur.it_value.usec < 1_000_000;
        }
        let updated = ITimerval { it_interval: cur.it_interval, it_value: ns_timeval(value) };
        timers.set(0, updated);
        old_out = Some(updated);
    }
    let stored = timers[0];
    let ghost before = timers@;
    if next_timeout == 0 {
        timers.set(0, ITimerval { it_interval: stored.it_interval, it_value: ns_timeval(0) });
        Ok((0, old_out, None))
    } else {
        timers.set(0, ITimerval { it_interval: stored.it_interval, it_value: ns_timeval(now + next_timeout) });
        Ok((0, old_out, Some(TimedTask { interval, deadline: next_timeout + now })))
    }
}

/// One tick of the real-time timer's task, given the timer's current value: whether to send
/// `SIGALRM`, and whether the task goes on (it does with a period).
pub fn itimer_tick(value: TimeVal, interval: u128) -> (r: (bool, bool))
    ensures
        tv_ns(value) == 0 ==> r == (false, false),
        tv_ns(value) != 0 ==> r == (true, interval != 0),
{
    if timeval_ns(value) == 0 {
        (false, false)
    } else {
        (true, interval != 0)
    }
}

} // verus!

