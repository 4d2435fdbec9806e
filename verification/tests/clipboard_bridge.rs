use sidecar_core::clipboard::{bridge_outcome, normalize_path_input, ClipboardError};

#[test]
fn empty_path_is_rejected() {
    let r = normalize_path_input("   ");
    let e = r.unwrap_err();
    assert!(matches!(e, ClipboardError::EmptyPath));
    assert_eq!(e.message().as_str(), "path is empty");
}

#[test]
fn file_url_prefixes_are_stripped() {
    assert_eq!(
        normalize_path_input("file://localhost/a/b.png").unwrap().as_str(),
        "/a/b.png"
    );
    assert_eq!(normalize_path_input("file:///a.png").unwrap().as_str(), "/a.png");
    assert_eq!(normalize_path_input(" storage/x.jpg ").unwrap().as_str(), "storage/x.jpg");
}

#[test]
fn dropped_reply_channel_reports_abort_not_a_hang() {
    // the reply channel was dropped before any response: the caller gets
    // an aborted failure back immediately
    let r = bridge_outcome(None, None);
    let e = r.unwrap_err();
    assert!(matches!(e, ClipboardError::Aborted));
    assert_eq!(e.message().as_str(), "clipboard task aborted");
}

#[test]
fn dispatch_failure_takes_precedence() {
    let r = bridge_outcome(Some(String::from("queue gone")), None);
    let e = r.unwrap_err();
    assert_eq!(e.message().as_str(), "run_on_main_thread failed: queue gone");
}

#[test]
fn successful_reply_passes_through() {
    assert!(bridge_outcome(None, Some(Ok(()))).is_ok());
}

#[test]
fn operation_failure_passes_through() {
    let inner = ClipboardError::SetImageFailed(String::from("denied"));
    let r = bridge_outcome(None, Some(Err(inner)));
    let e = r.unwrap_err();
    assert_eq!(e.message().as_str(), "clipboard set image failed: denied");
}

#[test]
fn error_messages_cover_every_step() {
    assert_eq!(
        ClipboardError::ReadFailed(String::from("x")).message().as_str(),
        "read file failed: x"
    );
    assert_eq!(
        ClipboardError::DecodeFailed(String::from("y")).message().as_str(),
        "decode image failed: y"
    );
    assert_eq!(
        ClipboardError::InitFailed(String::from("z")).message().as_str(),
        "clipboard init failed: z"
    );
}
