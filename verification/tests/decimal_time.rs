use decimal_clock::time::{local_millis_of, DecimalTime};

#[test]
fn epoch_start_is_zero() {
    let t = DecimalTime::from_epoch_millis(0, 0);
    assert_eq!(t.dec_hour, 0);
    assert_eq!(t.dec_min, 0);
    assert_eq!(t.dec_sec, 0);
    assert_eq!(t.to_string(), "00:00:00");
}

#[test]
fn half_day_is_five_hours_exactly() {
    let t = DecimalTime::from_local_millis(43_200_000);
    assert_eq!(t.dec_hour, 5);
    assert_eq!(t.dec_min, 0);
    assert_eq!(t.dec_sec, 0);
    assert_eq!(t.to_string(), "05:00:00");
}

#[test]
fn negative_offset_wraps_to_end_of_day() {
    let local = local_millis_of(0, -5);
    assert_eq!(local, 68_400_000);
    let t = DecimalTime::from_epoch_millis(0, -5);
    assert_eq!(t.dec_hour, 7);
    assert_eq!(t.dec_min, 91);
    assert_eq!(t.dec_sec, 66);
}

#[test]
fn positive_offset_wraps_past_midnight() {
    assert_eq!(local_millis_of(86_399_999, 1), 3_599_999);
    assert_eq!(local_millis_of(0, 26), 7_200_000);
}

#[test]
fn large_negative_offset_wraps_within_day() {
    assert_eq!(local_millis_of(0, -30), 64_800_000);
    assert_eq!(local_millis_of(0, -24), 0);
}

#[test]
fn extreme_offsets_stay_in_range() {
    let low = local_millis_of(0, i32::MIN);
    assert_eq!(low, 57_600_000);
    let high = local_millis_of(0, i32::MAX);
    assert_eq!(high, 25_200_000);
}

#[test]
fn big_reading_reduces_modulo_day() {
    assert_eq!(local_millis_of(1_700_000_000_000, 0), 80_000_000);
}

#[test]
fn conversion_brackets_the_instant() {
    for &local in &[0u64, 1, 863, 864, 43_200_000, 68_400_000, 86_399_999] {
        let t = DecimalTime::from_local_millis(local);
        let floor =
            u64::from(t.dec_hour) * 8_640_000 + u64::from(t.dec_min) * 86_400 + u64::from(t.dec_sec) * 864;
        assert!(floor <= local);
        assert!(local < floor + 864);
        assert!(t.dec_hour <= 9 && t.dec_min <= 99 && t.dec_sec <= 99);
    }
}

#[test]
fn increment_advances_one_second() {
    let mut t = DecimalTime { dec_hour: 3, dec_min: 41, dec_sec: 58 };
    t.increment();
    assert_eq!((t.dec_hour, t.dec_min, t.dec_sec), (3, 41, 59));
}

#[test]
fn increment_carries_into_minute() {
    let mut t = DecimalTime { dec_hour: 0, dec_min: 0, dec_sec: 99 };
    t.increment();
    assert_eq!((t.dec_hour, t.dec_min, t.dec_sec), (0, 1, 0));
}

#[test]
fn increment_carries_into_hour() {
    let mut t = DecimalTime { dec_hour: 0, dec_min: 99, dec_sec: 99 };
    t.increment();
    assert_eq!((t.dec_hour, t.dec_min, t.dec_sec), (1, 0, 0));
}

#[test]
fn increment_wraps_at_end_of_day() {
    let mut t = DecimalTime { dec_hour: 9, dec_min: 99, dec_sec: 99 };
    t.increment();
    assert_eq!((t.dec_hour, t.dec_min, t.dec_sec), (0, 0, 0));
}

#[test]
fn increment_full_day_returns_to_start() {
    let start = DecimalTime { dec_hour: 3, dec_min: 41, dec_sec: 59 };
    let mut t = start;
    for _ in 0..100_000 {
        t.increment();
    }
    assert_eq!(t, start);
}

#[test]
fn now_yields_a_valid_time() {
    let t = DecimalTime::now(0).expect("the system clock reads after the epoch");
    assert!(t.is_valid());
    let shifted = DecimalTime::now(-5).expect("the system clock reads after the epoch");
    assert!(shifted.is_valid());
}
