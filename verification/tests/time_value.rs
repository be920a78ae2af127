use swtc::ctypes::{Timespec, Timeval};
use swtc::time_value::{TimeValue, TimeValueLike};
use swtc::vma::LinuxError;

#[test]
fn duration_carries_whole_seconds() {
    let t = TimeValue::new(3, 2_500_000_000);
    assert_eq!(t.as_secs(), 5);
    assert_eq!(t.subsec_nanos(), 500_000_000);
    assert_eq!(t.subsec_micros(), 500_000);
}

#[test]
fn timespec_conversions() {
    let ts = Timespec::from_nanos(5_000_000_123);
    assert_eq!(ts, Timespec { tv_sec: 5, tv_nsec: 123 });
    assert_eq!(ts.to_nanos(), 5_000_000_123);
    let tv = ts.to_time_value().unwrap();
    assert_eq!((tv.as_secs(), tv.subsec_nanos()), (5, 123));
    assert_eq!(Timespec::from_time_value(tv), ts);
    assert_eq!(Timespec { tv_sec: -1, tv_nsec: 0 }.to_time_value(), Err(LinuxError::EINVAL));
    assert_eq!(Timespec { tv_sec: 1, tv_nsec: 1_000_000_000 }.to_time_value(), Err(LinuxError::EINVAL));
    assert_eq!(Timespec { tv_sec: 1, tv_nsec: -1 }.to_time_value(), Err(LinuxError::EINVAL));
    assert_eq!(Timespec::from_time_value(TimeValue::new(u64::MAX, 0)).tv_sec, -1);
}

#[test]
fn timeval_conversions() {
    let tv = Timeval::from_nanos(7_000_123_999);
    assert_eq!(tv, Timeval { tv_sec: 7, tv_usec: 123 });
    assert_eq!(tv.to_nanos(), 7_000_123_000);
    let d = tv.to_time_value().unwrap();
    assert_eq!((d.as_secs(), d.subsec_nanos()), (7, 123_000));
    assert_eq!(Timeval::from_time_value(TimeValue::new(2, 999_999)), Timeval { tv_sec: 2, tv_usec: 999 });
    assert_eq!(Timeval { tv_sec: 0, tv_usec: 1_000_000 }.to_time_value(), Err(LinuxError::EINVAL));
}

#[test]
fn time_value_conversions() {
    let d = TimeValue::from_nanos(1_500_000_000);
    assert_eq!((d.as_secs(), d.subsec_nanos()), (1, 500_000_000));
    assert_eq!(d.to_nanos(), 1_500_000_000);
    assert_eq!(TimeValue::from_time_value(d), d);
    assert_eq!(d.to_time_value(), Ok(d));
}
