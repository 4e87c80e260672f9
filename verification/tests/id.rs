use dev_suite::error::Error;
use dev_suite::id::{seconds_at, uuid_v1, uuid_v1_at, Reading, MAX_SECONDS};

#[test]
fn a_version_1_identifier_is_laid_out_field_by_field() {
    // 1497624119 s after 1970 is 0x1e752a1f3b49580 ticks after 15 October 1582.
    let id = uuid_v1_at(1_497_624_119, 42, &[1, 2, 3, 4, 5, 6]).unwrap();
    assert_eq!(id, 0xf3b49580_52a1_11e7_802a_010203040506);
    assert_eq!(
        uuid::Uuid::from_u128(id).to_string(),
        "f3b49580-52a1-11e7-802a-010203040506"
    );
}

#[test]
fn the_clock_sequence_keeps_fourteen_bits() {
    let id = uuid_v1_at(0, 0xffff, &[0xaa, 0xbb, 0xcc, 0xdd, 0xee, 0xff]).unwrap();
    // ticks at 1970: 0x01b21dd213814000
    assert_eq!(id, 0x13814000_1dd2_11b2_bfff_aabbccddeeff);
}

#[test]
fn a_clock_before_1970_makes_no_identifier() {
    assert_eq!(uuid_v1_at(-1, 0, &[0; 6]), Err(Error::ClockOutOfRange(-1)));
    assert_eq!(uuid_v1_at(i64::MIN, 0, &[0; 6]), Err(Error::ClockOutOfRange(i64::MIN)));
}

#[test]
fn a_clock_beyond_the_tick_counter_makes_no_identifier() {
    let last = MAX_SECONDS as i64;
    assert!(uuid_v1_at(last, 0, &[0; 6]).is_ok());
    assert_eq!(uuid_v1_at(last + 1, 0, &[0; 6]), Err(Error::ClockOutOfRange(last + 1)));
    assert_eq!(uuid_v1_at(i64::MAX, 0, &[0; 6]), Err(Error::ClockOutOfRange(i64::MAX)));
}

#[test]
fn the_last_second_fills_the_tick_counter() {
    let ticks = 0x01B2_1DD2_1381_4000u128 + (MAX_SECONDS as u128) * 10_000_000;
    assert!(ticks <= u64::MAX as u128);
    assert!(ticks + 10_000_000 > u64::MAX as u128);
}

#[test]
fn a_fresh_identifier_is_of_version_1() {
    let id = uuid_v1().unwrap();
    let parsed = uuid::Uuid::from_u128(id);
    assert_eq!(parsed.get_version_num(), 1);
    assert_eq!((id >> 62) & 0b11, 0b10);
}

#[test]
fn identifiers_of_different_seconds_differ() {
    let a = uuid_v1_at(1_600_000_000, 7, &[1, 2, 3, 4, 5, 6]).unwrap();
    let b = uuid_v1_at(1_600_000_001, 7, &[1, 2, 3, 4, 5, 6]).unwrap();
    assert_ne!(a, b);
    assert!(a < b);
}

#[test]
fn the_order_of_identifiers_is_the_order_of_time_within_a_stretch_only() {
    let node = [1, 2, 3, 4, 5, 6];
    let ticks = |s: u64| 0x01B2_1DD2_1381_4000u64 + s * 10_000_000;
    let first = 1_600_000_000u64;
    let mut last = first;
    while ticks(last + 1) >> 32 == ticks(first) >> 32 {
        last += 1;
    }
    assert!(last > first);
    let mut before = uuid_v1_at(first as i64, 9, &node).unwrap();
    for s in first + 1..=last {
        let id = uuid_v1_at(s as i64, 0, &node).unwrap();
        assert!(before < id);
        before = id;
    }
    let beyond = uuid_v1_at(last as i64 + 1, 0, &node).unwrap();
    assert!(beyond < before);
    assert_ne!(beyond, before);
}

#[test]
fn a_reading_after_1970_is_its_seconds() {
    assert_eq!(seconds_at(Reading::After(0, 0)), 0);
    assert_eq!(seconds_at(Reading::After(1_497_624_119, 999_999_999)), 1_497_624_119);
    assert_eq!(seconds_at(Reading::After(MAX_SECONDS, 1)), MAX_SECONDS as i64);
    assert_eq!(seconds_at(Reading::After(MAX_SECONDS + 1, 0)), MAX_SECONDS as i64 + 1);
    assert_eq!(seconds_at(Reading::After(7, 2_000_000_000)), 7);
    assert_eq!(seconds_at(Reading::After(i64::MAX as u64, 0)), i64::MAX);
    assert_eq!(seconds_at(Reading::After(u64::MAX, 0)), i64::MAX);
}

#[test]
fn a_reading_before_1970_is_negative() {
    assert_eq!(seconds_at(Reading::Before(0, 0)), 0);
    assert_eq!(seconds_at(Reading::Before(0, 1)), -1);
    assert_eq!(seconds_at(Reading::Before(1, 0)), -1);
    assert_eq!(seconds_at(Reading::Before(1, 500)), -2);
    assert_eq!(seconds_at(Reading::Before(i64::MAX as u64, 0)), -i64::MAX);
    assert_eq!(seconds_at(Reading::Before(i64::MAX as u64, 1)), i64::MIN);
    assert_eq!(seconds_at(Reading::Before(u64::MAX, 0)), i64::MIN);
    let now = seconds_at(Reading::Before(3, 0));
    assert_eq!(uuid_v1_at(now, 0, &[0; 6]), Err(Error::ClockOutOfRange(-3)));
}

#[test]
fn the_timestamp_is_what_the_time_crate_says() {
    for seconds in [0u64, 1, 86_399, 86_400, 951_782_400, 1_497_624_119, 4_102_444_800] {
        let expected = chrono::DateTime::from_timestamp(seconds as i64, 0).unwrap().timestamp();
        assert_eq!(seconds_at(Reading::After(seconds, 0)), expected);
    }
}
