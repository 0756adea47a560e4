use email_sec::clock::{message_date, scan_timestamp, FIRST_SECOND, LAST_SECOND};

#[test]
fn timestamps_of_known_seconds() {
    assert_eq!(scan_timestamp(0), Some("1970-01-01 00:00:00 UTC".to_string()));
    assert_eq!(scan_timestamp(1700000000), Some("2023-11-14 22:13:20 UTC".to_string()));
    assert_eq!(scan_timestamp(FIRST_SECOND), Some("0000-01-01 00:00:00 UTC".to_string()));
    assert_eq!(scan_timestamp(LAST_SECOND), Some("9999-12-31 23:59:59 UTC".to_string()));
    assert_eq!(scan_timestamp(i64::MAX), None);
}

#[test]
fn dates_of_known_seconds() {
    assert_eq!(message_date(1700000000), Some("Tue, 14 Nov 2023 22:13:20 +0000".to_string()));
    assert!(message_date(FIRST_SECOND).is_some());
    assert!(message_date(LAST_SECOND).is_some());
    assert_eq!(message_date(FIRST_SECOND - 1), None);
    assert_eq!(message_date(LAST_SECOND + 1), None);
}
