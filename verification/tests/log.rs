use wiradesk::log::{format_timestamp, log_line, must_rotate, old_path, LOG_MAX_BYTES};

#[test]
fn format_timestamp_pads_single_digit_fields() {
    assert_eq!(format_timestamp(2026, 7, 4, 9, 5, 3), "2026-07-04 09:05:03");
}

#[test]
fn format_timestamp_keeps_wide_fields_whole() {
    assert_eq!(format_timestamp(12345, 12, 31, 23, 59, 59), "12345-12-31 23:59:59");
    assert_eq!(format_timestamp(7, 0, 0, 0, 0, 0), "0007-00-00 00:00:00");
}

#[test]
fn only_a_log_at_the_cap_rotates() {
    assert!(!must_rotate(None), "a missing log is not at the cap");
    assert!(!must_rotate(Some(0)));
    assert!(!must_rotate(Some(LOG_MAX_BYTES - 1)));
    assert!(must_rotate(Some(LOG_MAX_BYTES)));
    assert!(must_rotate(Some(LOG_MAX_BYTES + 10)));
    assert_eq!(LOG_MAX_BYTES, 1_000_000);
}

#[test]
fn the_backup_sits_beside_the_active_log() {
    assert_eq!(old_path(r"C:\Users\a\AppData\Roaming\WiraDesk\wiradesk.log"), r"C:\Users\a\AppData\Roaming\WiraDesk\wiradesk.log.old");
}

#[test]
fn a_log_line_is_bracketed_and_terminated() {
    assert_eq!(log_line("2026-07-04 09:05:03", "reload skipped"), "[2026-07-04 09:05:03] reload skipped\n");
}
