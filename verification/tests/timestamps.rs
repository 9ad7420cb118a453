use sntp::packet::NTP_EPOCH;
use sntp::{Instant, NTPTimestamp};

// The conversion in floating point: the fraction scaled by 10^9 / 2^32 and
// rounded to the nearest nanosecond.
fn nanos_in_floating_point(fraction: u32) -> i64 {
    (fraction as f64 * (1e9 * 2_f64.powi(-32))).round() as i64
}

#[test]
fn to_utc_without_fraction_has_no_subsecond_part() {
    for seconds in [0u32, 1, 59, 2_208_988_799, 2_208_988_800, 3_900_000_000, u32::MAX] {
        let t = NTPTimestamp { seconds, fraction: 0 }.to_utc();
        assert_eq!(t.timestamp_subsec_nanos(), 0);
        assert_eq!(t.timestamp(), seconds as i64 - 2_208_988_800);
    }
}

#[test]
fn to_utc_of_the_unix_epoch() {
    let t = NTPTimestamp { seconds: 2_208_988_800, fraction: 0 }.to_utc();
    assert_eq!(t, Instant::from_unix_nanos(0));
    assert_eq!(NTP_EPOCH, 2_208_988_800);
}

#[test]
fn to_utc_of_the_protocol_epoch() {
    let t = NTPTimestamp { seconds: 0, fraction: 0 }.to_utc();
    assert_eq!(t, Instant::from_unix_nanos(-2_208_988_800_000_000_000));
}

#[test]
fn to_utc_of_half_a_second() {
    let t = NTPTimestamp { seconds: 2_208_988_801, fraction: 0x8000_0000 }.to_utc();
    assert_eq!(t, Instant::from_unix_nanos(1_500_000_000));
}

#[test]
fn to_utc_rounds_to_the_nearest_nanosecond() {
    // one unit of the fraction is about 0.2328 ns
    let at = |fraction: u32| NTPTimestamp { seconds: 2_208_988_800, fraction }.to_utc().unix_nanos;
    assert_eq!(at(1), 0);
    assert_eq!(at(2), 0);
    assert_eq!(at(3), 1);
    assert_eq!(at(4), 1);
    assert_eq!(at(5), 1);
    assert_eq!(at(6), 1);
    assert_eq!(at(7), 2);
    assert_eq!(at(0x4000_0000), 250_000_000);
    assert_eq!(at(0xc000_0000), 750_000_000);
}

#[test]
fn to_utc_rounds_a_half_upward() {
    // 4194304 * 10^9 / 2^32 is 976562.5
    let t = NTPTimestamp { seconds: 2_208_988_800, fraction: 4_194_304 }.to_utc();
    assert_eq!(t.unix_nanos, 976_563);
}

#[test]
fn to_utc_of_the_largest_fraction_reaches_the_next_second() {
    let t = NTPTimestamp { seconds: 2_208_988_800, fraction: u32::MAX }.to_utc();
    assert_eq!(t.unix_nanos, 1_000_000_000);
}

#[test]
fn to_utc_of_the_last_timestamp() {
    let t = NTPTimestamp { seconds: u32::MAX, fraction: u32::MAX }.to_utc();
    assert_eq!(t.unix_nanos, (u32::MAX as i64 - 2_208_988_800) * 1_000_000_000 + 1_000_000_000);
}

#[test]
fn to_utc_agrees_with_floating_point() {
    let mut fraction: u32 = 0;
    for step in 0..200_000u32 {
        let t = NTPTimestamp { seconds: 2_208_988_800, fraction }.to_utc();
        assert_eq!(t.unix_nanos, nanos_in_floating_point(fraction), "fraction {}", fraction);
        fraction = fraction.wrapping_mul(1_664_525).wrapping_add(1_013_904_223).wrapping_add(step);
    }
    for fraction in [0u32, 1, 2, 3, 4_194_304, 0x7fff_ffff, 0x8000_0000, 0x8000_0001, u32::MAX - 1, u32::MAX] {
        let t = NTPTimestamp { seconds: 2_208_988_800, fraction }.to_utc();
        assert_eq!(t.unix_nanos, nanos_in_floating_point(fraction), "fraction {}", fraction);
    }
}

#[test]
fn to_utc_agrees_with_chrono_below_a_full_second() {
    for (seconds, fraction) in [(0u32, 0u32), (2_208_988_800, 1), (3_913_056_000, 0x1234_5678), (u32::MAX, 0xffff_fff0)] {
        let ours = NTPTimestamp { seconds, fraction }.to_utc();
        let theirs = chrono::DateTime::from_timestamp(
            seconds as i64 - 2_208_988_800,
            nanos_in_floating_point(fraction) as u32,
        )
        .unwrap();
        assert_eq!(Some(ours.unix_nanos), theirs.timestamp_nanos_opt());
    }
}

#[test]
fn instant_from_a_timestamp_is_to_utc() {
    let ts = NTPTimestamp { seconds: 3_913_056_000, fraction: 0x4000_0000 };
    let t: Instant = ts.into();
    assert_eq!(t, ts.to_utc());
    assert_eq!(Instant::from(ts), Instant::from_unix_nanos(1_704_067_200_250_000_000));
}
