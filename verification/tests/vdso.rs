use swtc::ctypes::{Timespec, Timeval};
use swtc::vdso::{
    monotonic_ns, realtime_ns, seq_stable, vdso_clock_getres, vdso_clock_gettime, vdso_gettimeofday,
    vdso_time, Snapshot, VdsoReply, CLOCK_MONOTONIC, CLOCK_MONOTONIC_RAW, CLOCK_REALTIME,
    NR_CLOCK_GETRES, NR_CLOCK_GETTIME, NR_GETTIMEOFDAY,
};

fn snap() -> Snapshot {
    Snapshot {
        wall_sec: 2,
        wall_nsec: 5,
        mono_ns: 1000,
        mono_cycles_at_capture: 100,
        mult: 3,
        shift: 1,
    }
}

#[test]
fn monotonic_scales_the_cycles() {
    assert_eq!(monotonic_ns(&snap(), 110), 1015);
    assert_eq!(monotonic_ns(&snap(), 100), 1000);
}

#[test]
fn monotonic_wraps_around() {
    let s = Snapshot { mult: 1, shift: 0, ..snap() };
    assert_eq!(monotonic_ns(&s, 50), 950);
}

#[test]
fn realtime_adds_the_elapsed_time() {
    let s = Snapshot { mult: 1, shift: 0, ..snap() };
    assert_eq!(realtime_ns(&s, 300), 2_000_000_205);
}

#[test]
fn clock_gettime_answers_or_falls_back() {
    let s = Snapshot { mult: 1, shift: 0, ..snap() };
    assert_eq!(
        vdso_clock_gettime(CLOCK_REALTIME, true, Some(s), 300),
        VdsoReply::Time(Timespec { tv_sec: 2, tv_nsec: 205 })
    );
    assert_eq!(
        vdso_clock_gettime(CLOCK_MONOTONIC, true, Some(s), 300),
        VdsoReply::Time(Timespec { tv_sec: 0, tv_nsec: 1200 })
    );
    assert_eq!(
        vdso_clock_gettime(CLOCK_MONOTONIC_RAW, true, Some(s), 300),
        VdsoReply::Time(Timespec { tv_sec: 0, tv_nsec: 1200 })
    );
    assert_eq!(vdso_clock_gettime(2, true, Some(s), 300), VdsoReply::Fallback(NR_CLOCK_GETTIME));
    assert_eq!(vdso_clock_gettime(CLOCK_REALTIME, false, Some(s), 300), VdsoReply::Fault);
    assert_eq!(vdso_clock_gettime(CLOCK_REALTIME, true, None, 300), VdsoReply::Fallback(NR_CLOCK_GETTIME));
    let stopped = Snapshot { mult: 0, ..s };
    assert_eq!(vdso_clock_gettime(CLOCK_REALTIME, true, Some(stopped), 300), VdsoReply::Fallback(NR_CLOCK_GETTIME));
}

#[test]
fn gettimeofday_gives_microseconds() {
    let s = Snapshot { wall_sec: 7, wall_nsec: 123_456_789, mult: 1, shift: 0, ..snap() };
    assert_eq!(
        vdso_gettimeofday(true, Some(s), 100),
        VdsoReply::TimeOfDay(Timeval { tv_sec: 7, tv_usec: 123_456 })
    );
    assert_eq!(vdso_gettimeofday(false, Some(s), 100), VdsoReply::Fallback(NR_GETTIMEOFDAY));
    assert_eq!(vdso_gettimeofday(true, None, 100), VdsoReply::Fallback(NR_GETTIMEOFDAY));
}

#[test]
fn clock_getres_is_one_nanosecond() {
    assert_eq!(
        vdso_clock_getres(CLOCK_MONOTONIC, true),
        VdsoReply::Resolution(Some(Timespec { tv_sec: 0, tv_nsec: 1 }))
    );
    assert_eq!(vdso_clock_getres(CLOCK_REALTIME, false), VdsoReply::Resolution(None));
    assert_eq!(vdso_clock_getres(3, true), VdsoReply::Fallback(NR_CLOCK_GETRES));
}

#[test]
fn time_gives_the_seconds() {
    let ts = Timespec { tv_sec: 42, tv_nsec: 9 };
    assert_eq!(vdso_time(0, ts, true), (42, Some(42)));
    assert_eq!(vdso_time(0, ts, false), (42, None));
    assert_eq!(vdso_time(-14, ts, true), (-1, None));
}

#[test]
fn sequence_counts_decide_consistency() {
    assert!(seq_stable(4, 4));
    assert!(!seq_stable(5, 5));
    assert!(!seq_stable(4, 6));
}
