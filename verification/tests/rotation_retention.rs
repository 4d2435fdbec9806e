use sidecar_core::clock::now_ms;
use sidecar_core::rotation::{
    is_rotated_sibling, oldest_excess_indices, rotated_file_name, should_rotate,
    DEFAULT_KEEP_ROTATED, DEFAULT_MAX_LOG_BYTES,
};
use sidecar_core::writer::LogWriter;

#[test]
fn rotation_triggers_only_above_threshold() {
    assert!(!should_rotate(0, DEFAULT_MAX_LOG_BYTES));
    assert!(!should_rotate(DEFAULT_MAX_LOG_BYTES, DEFAULT_MAX_LOG_BYTES));
    assert!(should_rotate(DEFAULT_MAX_LOG_BYTES + 1, DEFAULT_MAX_LOG_BYTES));
}

#[test]
fn rotated_names_carry_stem_and_timestamp() {
    let name = rotated_file_name("app", 1234);
    assert_eq!(name.as_str(), "app-1234.log");
    assert!(is_rotated_sibling(name.as_str(), "app"));
}

#[test]
fn sibling_detection_matches_stem_and_extension() {
    assert!(is_rotated_sibling("server-99.log", "server"));
    assert!(!is_rotated_sibling("server.log", "server"));
    assert!(!is_rotated_sibling("server-99.txt", "server"));
    assert!(!is_rotated_sibling("app-99.log", "server"));
}

#[test]
fn retention_deletes_the_oldest_excess() {
    let mtimes: Vec<u64> = vec![50, 10, 40, 20, 30];
    let mut del = oldest_excess_indices(&mtimes, 2);
    del.sort();
    // three files over the retention count: the three oldest (10, 20, 30) go
    assert_eq!(del, vec![1, 3, 4]);
}

#[test]
fn retention_keeps_everything_at_or_under_the_cap() {
    let mtimes: Vec<u64> = vec![3, 1, 2];
    assert!(oldest_excess_indices(&mtimes, 3).is_empty());
    assert!(oldest_excess_indices(&mtimes, 5).is_empty());
    let empty: Vec<u64> = Vec::new();
    assert!(oldest_excess_indices(&empty, 0).is_empty());
}

#[test]
fn retention_handles_equal_modification_times() {
    let mtimes: Vec<u64> = vec![7, 7, 7, 7];
    let del = oldest_excess_indices(&mtimes, DEFAULT_KEEP_ROTATED.min(1));
    assert_eq!(del.len(), 3);
    let mut sorted = del.clone();
    sorted.sort();
    sorted.dedup();
    assert_eq!(sorted.len(), 3);
}

#[test]
fn writer_rotates_once_per_crossing() {
    let mut w = LogWriter::new(100, 3);
    // lazy open on an oversized file: exactly one rotation
    assert!(w.open(101, true));
    // the handle is now held; further opens are no-ops and never rotate
    assert!(!w.open(5000, true));
    assert!(!w.open(5000, true));
}

#[test]
fn writer_below_threshold_never_rotates() {
    let mut w = LogWriter::new(100, 3);
    assert!(!w.open(100, true));
    w.note_appended(1000);
    assert!(!w.open(1000, true));
}

#[test]
fn clock_reads_after_the_epoch() {
    let t = now_ms();
    assert!(t > 0);
}
