use tinymetrics::timestamp::TimestampCell;
use tinymetrics::UnixTimestamp;

#[test]
fn timestamp_round_trip() {
    let t = UnixTimestamp::from_secs(1234);
    assert_eq!(t.as_secs(), 1234);
    assert_eq!(UnixTimestamp::default().as_secs(), 0);
    assert_eq!(UnixTimestamp::from_secs(7), UnixTimestamp::from_secs(7));
}

#[test]
fn update_if_ahead_keeps_maximum() {
    // For the offered times 5, 3, 5, 7 the cell ends at their maximum, and
    // exactly the strict advances report true.
    let mut c = TimestampCell::new();
    assert_eq!(c.timestamp().as_secs(), 0);
    assert!(c.update_if_ahead(5));
    assert!(!c.update_if_ahead(3));
    assert!(!c.update_if_ahead(5));
    assert_eq!(c.timestamp().as_secs(), 5);
    assert!(c.update_if_ahead(7));
    assert_eq!(c.timestamp().as_secs(), 7);
}

#[test]
fn update_max_never_regresses() {
    let mut c = TimestampCell::new();
    c.update_max(9);
    c.update_max(4);
    assert_eq!(c.timestamp().as_secs(), 9);
    c.update_max(9);
    assert_eq!(c.timestamp().as_secs(), 9);
    c.update_max(12);
    assert_eq!(c.timestamp().as_secs(), 12);
}
