use k_backup::timestamp::Timestamp;

#[test]
fn timestamp_fields_of_a_known_instant() {
    let t = Timestamp::new(1_705_329_045, 7).unwrap();
    assert_eq!(t.year(), 2024);
    assert_eq!(t.month(), 1);
    assert_eq!(t.day(), 15);
    assert_eq!(t.hour(), 14);
    assert_eq!(t.minute(), 30);
    assert_eq!(t.second(), 45);
    assert_eq!(t.subsec_nanos(), 7);
    assert_eq!(t.day_number(), 19_737);
    assert_eq!(t.second_of_day(), 52_245);
}

#[test]
fn timestamp_before_the_epoch() {
    let t = Timestamp::new(-1, 0).unwrap();
    assert_eq!((t.year(), t.month(), t.day()), (1969, 12, 31));
    assert_eq!((t.hour(), t.minute(), t.second()), (23, 59, 59));
    assert_eq!(t.day_number(), -1);
}

#[test]
fn timestamp_limits() {
    assert!(Timestamp::new(-62_167_219_200, 0).is_some());
    assert!(Timestamp::new(-62_167_219_201, 0).is_none());
    assert!(Timestamp::new(253_402_300_799, 999_999_999).is_some());
    assert!(Timestamp::new(253_402_300_800, 0).is_none());
    assert!(Timestamp::new(0, 1_000_000_000).is_none());
    let first = Timestamp::new(-62_167_219_200, 0).unwrap();
    assert_eq!((first.year(), first.month(), first.day()), (0, 1, 1));
    let last = Timestamp::new(253_402_300_799, 0).unwrap();
    assert_eq!((last.year(), last.month(), last.day()), (9999, 12, 31));
}

#[test]
fn timestamp_from_calendar_fields() {
    let t = Timestamp::with_ymd_and_hms(2024, 1, 15, 12, 0, 0).unwrap();
    assert_eq!(t.timestamp(), 1_705_320_000);
    assert_eq!(Timestamp::with_ymd_and_hms(1970, 1, 1, 0, 0, 0), Some(Timestamp::unix_epoch()));
    assert!(Timestamp::with_ymd_and_hms(2023, 2, 29, 0, 0, 0).is_none());
    assert!(Timestamp::with_ymd_and_hms(2024, 2, 29, 0, 0, 0).is_some());
    assert!(Timestamp::with_ymd_and_hms(2024, 1, 15, 24, 0, 0).is_none());
    assert!(Timestamp::with_ymd_and_hms(2024, 1, 15, 0, 60, 0).is_none());
    assert!(Timestamp::with_ymd_and_hms(2024, 1, 15, 0, 0, 60).is_none());
    assert!(Timestamp::with_ymd_and_hms(10000, 1, 1, 0, 0, 0).is_none());
    assert!(Timestamp::with_ymd_and_hms(-1, 12, 31, 23, 59, 59).is_none());
}
