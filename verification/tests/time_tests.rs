use chizu::calendar::{days_to_ymd, now_iso8601, padded_decimal, timestamp_from_secs};

#[test]
fn test_now_iso8601_format() {
    let ts = now_iso8601();
    assert_eq!(ts.len(), 20);
    assert!(ts.ends_with('Z'));
    assert_eq!(&ts[4..5], "-");
    assert_eq!(&ts[7..8], "-");
    assert_eq!(&ts[10..11], "T");
}

#[test]
fn test_days_to_ymd_epoch() {
    let (y, m, d) = days_to_ymd(0);
    assert_eq!((y, m, d), (1970, 1, 1));
}

#[test]
fn test_days_to_ymd_known_date() {
    let (y, m, d) = days_to_ymd(19723);
    assert_eq!((y, m, d), (2024, 1, 1));
}

#[test]
fn leap_days_and_month_ends() {
    assert_eq!(days_to_ymd(59), (1970, 3, 1));
    assert_eq!(days_to_ymd(11016), (2000, 2, 29));
    assert_eq!(days_to_ymd(11017), (2000, 3, 1));
    assert_eq!(days_to_ymd(47540), (2100, 2, 28));
    assert_eq!(days_to_ymd(47541), (2100, 3, 1));
    assert_eq!(days_to_ymd(19722), (2023, 12, 31));
}

#[test]
fn timestamps() {
    assert_eq!(timestamp_from_secs(0), "1970-01-01T00:00:00Z");
    assert_eq!(timestamp_from_secs(1_704_067_199), "2023-12-31T23:59:59Z");
    assert_eq!(timestamp_from_secs(951_782_400 + 3723), "2000-02-29T01:02:03Z");
    assert_eq!(padded_decimal(7, 2), "07");
    assert_eq!(padded_decimal(12345, 4), "12345");
}

#[test]
fn consecutive_days_are_consecutive_dates() {
    assert_eq!(days_to_ymd(19722), (2023, 12, 31));
    assert_eq!(days_to_ymd(19723), (2024, 1, 1));
    assert_eq!(days_to_ymd(19782), (2024, 2, 29));
    assert_eq!(days_to_ymd(19783), (2024, 3, 1));
    assert_eq!(days_to_ymd(19812), (2024, 3, 30));
    assert_eq!(days_to_ymd(19813), (2024, 3, 31));
    assert_eq!(days_to_ymd(19814), (2024, 4, 1));
}
