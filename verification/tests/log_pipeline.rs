use sidecar_core::pipeline::{
    compose_line, fold_entry, process_batch, session_header, FrontendLogEntry, LogState,
};
use sidecar_core::writer::LogWriter;

#[test]
fn record_line_format() {
    let line = compose_line(5, "INFO", "hi");
    assert_eq!(line.as_str(), "[5] [INFO] hi");
}

#[test]
fn session_header_format() {
    let line = session_header(7, "demo", "1.2.3", "linux", "x86_64");
    assert_eq!(
        line.as_str(),
        "[7] [INFO] session start name=demo version=1.2.3 os=linux arch=x86_64"
    );
}

#[test]
fn write_line_strips_carriage_returns_and_trailing_newline() {
    let mut w = LogWriter::with_defaults();
    w.open(0, true);
    let out = w.write_line("\r\nhello\n");
    assert_eq!(out.unwrap().as_str(), "hello");
}

#[test]
fn write_line_sanitizes_interior_carriage_returns() {
    let mut w = LogWriter::with_defaults();
    w.open(0, true);
    assert_eq!(w.write_line("a\rb\r\n").unwrap().as_str(), "ab");
    assert_eq!(w.write_line("keep \t inner").unwrap().as_str(), "keep \t inner");
}

#[test]
fn empty_after_sanitization_produces_no_record() {
    let mut w = LogWriter::with_defaults();
    w.open(0, true);
    assert!(w.write_line("\r\n\n\r").is_none());
    assert!(w.write_line("").is_none());
}

#[test]
fn closed_writer_stores_nothing() {
    let w = LogWriter::with_defaults();
    assert!(w.write_line("hello").is_none());
}

#[test]
fn log_channels_tag_and_store_lines() {
    let mut logs = LogState::init(String::from("/tmp/logs"));
    logs.app.open(0, true);
    logs.server.open(0, true);
    assert_eq!(logs.log_dir().as_str(), "/tmp/logs");
    let a = logs.log_app(11, "INFO", "starting");
    assert_eq!(a.unwrap().as_str(), "[11] [INFO] starting");
    let s = logs.log_server(12, "STDERR", "oops");
    assert_eq!(s.unwrap().as_str(), "[12] [STDERR] oops");
}

fn entry(level: &str, message: &str, context: Option<&str>) -> FrontendLogEntry {
    FrontendLogEntry {
        level: String::from(level),
        message: String::from(message),
        context: context.map(String::from),
    }
}

#[test]
fn fold_entry_uppercases_level_and_escapes_breaks() {
    let line = fold_entry(&entry(" info ", "a\r\nb", None), 1);
    assert_eq!(line.as_str(), "[1] [FE] [INFO] a\\nb");
}

#[test]
fn fold_entry_appends_trimmed_context() {
    let line = fold_entry(&entry("warn", "boom", Some(" ctx\nhere ")), 2);
    assert_eq!(line.as_str(), "[2] [FE] [WARN] boom | ctx\\nhere");
}

#[test]
fn fold_entry_drops_blank_context() {
    let line = fold_entry(&entry("warn", "boom", Some("    ")), 2);
    assert_eq!(line.as_str(), "[2] [FE] [WARN] boom");
    let line = fold_entry(&entry("warn", "boom", None), 2);
    assert_eq!(line.as_str(), "[2] [FE] [WARN] boom");
}

#[test]
fn newline_only_context_survives_as_its_escape() {
    // escaping happens before the blank test, so a lone line break in the
    // context becomes the visible two-character escape
    let line = fold_entry(&entry("warn", "boom", Some("  \n ")), 2);
    assert_eq!(line.as_str(), "[2] [FE] [WARN] boom | \\n");
}

#[test]
fn oversized_message_is_truncated_with_marker() {
    let big = "a".repeat(5000);
    let line = fold_entry(&entry("info", &big, None), 1);
    let expected = format!("[1] [FE] [INFO] {}…(truncated)", "a".repeat(4000));
    assert_eq!(line.as_str(), expected.as_str());
}

#[test]
fn context_is_dropped_when_line_would_exceed_cap() {
    let msg = "m".repeat(3990);
    let line = fold_entry(&entry("info", &msg, Some("context-too-long-now")), 1);
    let expected = format!("[1] [FE] [INFO] {}", msg);
    assert_eq!(line.as_str(), expected.as_str());
}

#[test]
fn batch_processes_only_first_two_hundred() {
    let mut entries = Vec::new();
    let mut i = 0usize;
    while i < 250 {
        entries.push(entry("info", &format!("m{}", i), None));
        i += 1;
    }
    let lines = process_batch(&entries, 9);
    assert_eq!(lines.len(), 200);
    assert_eq!(lines[0].as_str(), "[9] [FE] [INFO] m0");
    assert_eq!(lines[199].as_str(), "[9] [FE] [INFO] m199");
}

#[test]
fn small_batch_is_processed_whole_in_order() {
    let entries = vec![
        entry("info", "one", None),
        entry("error", "two", Some("c")),
    ];
    let lines = process_batch(&entries, 3);
    assert_eq!(lines.len(), 2);
    assert_eq!(lines[0].as_str(), "[3] [FE] [INFO] one");
    assert_eq!(lines[1].as_str(), "[3] [FE] [ERROR] two | c");
}
