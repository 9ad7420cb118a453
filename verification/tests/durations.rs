use sntp::{Duration, Instant, TimeVal};

// The same split made with chrono's own arithmetic: the whole seconds
// lowered by one where the rest is negative, and the whole microseconds of
// the rest above them.
fn timeval_by_chrono(d: chrono::Duration) -> (i64, i64) {
    let mut seconds = d.num_seconds();
    let mut residue = d - chrono::Duration::seconds(seconds);
    if residue < chrono::Duration::zero() {
        seconds -= 1;
        residue = residue + chrono::Duration::seconds(1);
    }
    (seconds, residue.num_microseconds().expect("a residue below one second"))
}

#[test]
fn test_timeval() {
    let tv = Duration::milliseconds(1100).timeval();
    assert_eq!(tv.tv_sec, 1);
    assert_eq!(tv.tv_usec, 100_000);
}

#[test]
fn test_timeval_negative() {
    let tv = Duration::milliseconds(-900).timeval();
    assert_eq!(tv.tv_sec, -1);
    assert_eq!(tv.tv_usec, 100_000);
}

#[test]
fn timeval_of_zero_is_zero() {
    assert_eq!(Duration::zero().timeval(), TimeVal { tv_sec: 0, tv_usec: 0 });
}

#[test]
fn timeval_of_whole_negative_second_has_no_residue() {
    assert_eq!(Duration::seconds(-3).timeval(), TimeVal { tv_sec: -3, tv_usec: 0 });
}

#[test]
fn timeval_of_one_negative_microsecond_borrows_a_second() {
    assert_eq!(Duration::microseconds(-1).timeval(), TimeVal { tv_sec: -1, tv_usec: 999_999 });
}

#[test]
fn timeval_of_one_negative_nanosecond_borrows_a_second() {
    assert_eq!(Duration::nanoseconds(-1).timeval(), TimeVal { tv_sec: -1, tv_usec: 999_999 });
    assert_eq!(Duration::nanoseconds(-1_000_000_001).timeval(), TimeVal { tv_sec: -2, tv_usec: 999_999 });
}

#[test]
fn timeval_rounds_toward_negative_infinity_below_a_microsecond() {
    assert_eq!(Duration::nanoseconds(999).timeval(), TimeVal { tv_sec: 0, tv_usec: 0 });
    assert_eq!(Duration::nanoseconds(1_100_000_999).timeval(), TimeVal { tv_sec: 1, tv_usec: 100_000 });
    assert_eq!(Duration::nanoseconds(-900_000_500).timeval(), TimeVal { tv_sec: -1, tv_usec: 99_999 });
    assert_eq!(Duration::nanoseconds(-999).timeval(), TimeVal { tv_sec: -1, tv_usec: 999_999 });
    assert_eq!(Duration::nanoseconds(-1_000).timeval(), TimeVal { tv_sec: -1, tv_usec: 999_999 });
    assert_eq!(Duration::nanoseconds(-1_001).timeval(), TimeVal { tv_sec: -1, tv_usec: 999_998 });
}

#[test]
fn timeval_residue_is_never_negative() {
    for nanos in [-2_000_000_001_i64, -1_999_999_999, -1_000_001, -1_000_000, -999_999, -1001, -1000, -999, 0, 1, 1000, 999_999_999, 1_000_000_000] {
        let tv = Duration::nanoseconds(nanos).timeval();
        assert!(0 <= tv.tv_usec && tv.tv_usec < 1_000_000, "{} gave {:?}", nanos, tv);
        let micros = tv.tv_sec * 1_000_000 + tv.tv_usec;
        assert_eq!(micros, nanos.div_euclid(1000), "{} gave {:?}", nanos, tv);
        assert_eq!(tv.tv_sec, nanos.div_euclid(1_000_000_000), "{} gave {:?}", nanos, tv);
    }
}

#[test]
fn timeval_agrees_with_chrono() {
    for nanos in [i64::MIN + 1, -86_400_000_000_123, -2_000_000_001, -1_000_000_000, -900_000_000, -900_000_500, -1001, -1, 0, 1, 999, 1100_000_000, 86_400_000_000_123, i64::MAX] {
        let tv = Duration::nanoseconds(nanos).timeval();
        assert_eq!((tv.tv_sec, tv.tv_usec), timeval_by_chrono(chrono::Duration::nanoseconds(nanos)), "{}", nanos);
    }
}

#[test]
fn timeval_at_the_ends_of_the_range() {
    assert_eq!(Duration::seconds(i64::MIN).timeval(), TimeVal { tv_sec: i64::MIN, tv_usec: 0 });
    assert_eq!(Duration::seconds(i64::MAX).timeval(), TimeVal { tv_sec: i64::MAX, tv_usec: 0 });
}

#[test]
fn duration_units() {
    assert_eq!(Duration::seconds(2).total_nanoseconds(), 2_000_000_000);
    assert_eq!(Duration::milliseconds(-3).total_nanoseconds(), -3_000_000);
    assert_eq!(Duration::microseconds(7).total_nanoseconds(), 7_000);
    assert_eq!(Duration::nanoseconds(-9).total_nanoseconds(), -9);
    assert_eq!(Duration::zero().total_nanoseconds(), 0);
    assert_eq!(Duration::seconds(1), Duration::milliseconds(1000));
    assert!(Duration::nanoseconds(-1) < Duration::zero());
}

#[test]
fn duration_whole_parts_round_toward_zero() {
    let d = Duration::nanoseconds(-1_999_999_999);
    assert_eq!(d.num_seconds(), -1);
    assert_eq!(d.num_milliseconds(), -1999);
    assert_eq!(d.num_microseconds(), Some(-1_999_999));
    assert_eq!(d.num_nanoseconds(), Some(-1_999_999_999));
    let d = Duration::nanoseconds(1_999_999_999);
    assert_eq!(d.num_seconds(), 1);
    assert_eq!(d.num_milliseconds(), 1999);
    assert_eq!(d.num_microseconds(), Some(1_999_999));
}

#[test]
fn duration_whole_parts_agree_with_chrono() {
    for nanos in [i64::MIN + 1, -1_999_999_999, -1_000_000_000, -1, 0, 1, 1_500_000, i64::MAX] {
        let ours = Duration::nanoseconds(nanos);
        let theirs = chrono::Duration::nanoseconds(nanos);
        assert_eq!(ours.num_seconds(), theirs.num_seconds());
        assert_eq!(ours.num_milliseconds(), theirs.num_milliseconds() as i128);
        assert_eq!(ours.num_microseconds(), theirs.num_microseconds());
        assert_eq!(ours.num_nanoseconds(), theirs.num_nanoseconds());
    }
}

#[test]
fn duration_beyond_64_bits_of_nanoseconds() {
    let d = Duration::seconds(i64::MAX);
    assert_eq!(d.num_nanoseconds(), None);
    assert_eq!(d.num_microseconds(), None);
    assert_eq!(d.num_seconds(), i64::MAX);
    assert_eq!(d.num_milliseconds(), i64::MAX as i128 * 1000);
    assert_eq!(Duration::milliseconds(i64::MAX).num_microseconds(), None);
    assert_eq!(Duration::microseconds(i64::MIN).num_microseconds(), Some(i64::MIN));
    assert_eq!(Duration::nanoseconds(i64::MIN).num_nanoseconds(), Some(i64::MIN));
}

#[test]
fn instant_splits_into_seconds_and_nanoseconds() {
    let t = Instant::from_unix_nanos(1_500_000_000_250_000_000);
    assert_eq!(t.timestamp(), 1_500_000_000);
    assert_eq!(t.timestamp_subsec_nanos(), 250_000_000);
    let t = Instant::from_unix_nanos(-1);
    assert_eq!(t.timestamp(), -1);
    assert_eq!(t.timestamp_subsec_nanos(), 999_999_999);
    let t = Instant::from_unix_nanos(-2_000_000_000);
    assert_eq!(t.timestamp(), -2);
    assert_eq!(t.timestamp_subsec_nanos(), 0);
}

#[test]
fn instant_split_agrees_with_chrono() {
    for nanos in [i64::MIN, -2_000_000_001, -1_000_000_000, -1, 0, 1, 1_700_000_000_123_456_789, i64::MAX] {
        let ours = Instant::from_unix_nanos(nanos);
        let theirs = chrono::DateTime::from_timestamp_nanos(nanos);
        assert_eq!(ours.timestamp(), theirs.timestamp());
        assert_eq!(ours.timestamp_subsec_nanos(), theirs.timestamp_subsec_nanos());
    }
}

#[test]
fn instant_since_is_the_signed_difference() {
    let a = Instant::from_unix_nanos(10);
    let b = Instant::from_unix_nanos(25);
    assert_eq!(b.since(a), Duration::nanoseconds(15));
    assert_eq!(a.since(b), Duration::nanoseconds(-15));
    let first = Instant::from_unix_nanos(i64::MIN);
    let last = Instant::from_unix_nanos(i64::MAX);
    assert_eq!(last.since(first).total_nanoseconds(), u64::MAX as i128);
    assert_eq!(first.since(last).total_nanoseconds(), -(u64::MAX as i128));
}
