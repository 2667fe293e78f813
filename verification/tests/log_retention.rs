use qc::retention::{log_expired, LOG_RETENTION_NANOS};

#[test]
fn logs_older_than_sixteen_hours_expire() {
    let hour: i128 = 3_600_000_000_000;
    assert_eq!(LOG_RETENTION_NANOS, 16 * hour);
    let now = 100 * hour;
    assert!(log_expired(now, now - 16 * hour - 1));
    assert!(!log_expired(now, now - 16 * hour));
    assert!(!log_expired(now, now - hour));
    assert!(!log_expired(now, now + hour));
    assert!(log_expired(now, -5 * hour));
    assert!(!log_expired(i128::MIN + hour, i128::MIN));
}
