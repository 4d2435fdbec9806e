use vstd::prelude::*;
use vstd::string::*;
use crate::text::{starts_with_spec, str_starts_with, trim_spec, trim_ws};

verus! {

/// Why a clipboard request failed. These are the only failures of the
/// core that are surfaced to the user; each carries the detail text the
/// failing step produced.
#[derive(Debug)]
pub enum ClipboardError {
    /// The request named no file at all.
    EmptyPath,
    /// The resolved file could not be read.
    ReadFailed(String),
    /// The bytes did not decode as an image.
    DecodeFailed(String),
    /// The platform clipboard could not be opened.
    InitFailed(String),
    /// The platform clipboard rejected the image.
    SetImageFailed(String),
    /// The work unit could not be scheduled on the designated thread.
    DispatchFailed(String),
    /// The reply channel was dropped before a response arrived.
    Aborted,
}

impl ClipboardError {
    /// The user-visible description of this failure.
    pub open spec fn message_spec(&self) -> Seq<char> {
        match self {
            ClipboardError::EmptyPath => "path is empty"@,
            ClipboardError::ReadFailed(m) => "read file failed: "@ + m@,
            ClipboardError::DecodeFailed(m) => "decode image failed: "@ + m@,
            ClipboardError::InitFailed(m) => "clipboard init failed: "@ + m@,
            ClipboardError::SetImageFailed(m) => "clipboard set image failed: "@ + m@,
            ClipboardError::DispatchFailed(m) => "run_on_main_thread failed: "@ + m@,
            ClipboardError::Aborted => "clipboard task aborted"@,
        }
    }

    /// Renders the user-visible description.
    pub fn message(&self) -> (r: String)
        ensures
            r@ == self.message_spec(),
    {
        match self {
            ClipboardError::EmptyPath => String::from_str("path is empty"),
            ClipboardError::ReadFailed(m) => {
                let mut r = String::from_str("read file failed: ");
                r.append(m.as_str());
                r
            },
            ClipboardError::DecodeFailed(m) => {
                let mut r = String::from_str("decode image failed: ");
                r.append(m.as_str());
                r
            },
            ClipboardError::InitFailed(m) => {
                let mut r = String::from_str("clipboard init failed: ");
                r.append(m.as_str());
                r
            },
            ClipboardError::SetImageFailed(m) => {
                let mut r = String::from_str("clipboard set image failed: ");
                r.append(m.as_str());
                r
            },
            ClipboardError::DispatchFailed(m) => {
                let mut r = String::from_str("run_on_main_thread failed: ");
                r.append(m.as_str());
                r
            },
            ClipboardError::Aborted => String::from_str("clipboard task aborted"),
        }
    }
}

// ---------------------------------------------------------------------------
// Path-input normalization
// ---------------------------------------------------------------------------

/// A clipboard request's path input after normalization: trimmed, with a
/// `file://localhost` or `file://` prefix removed.
pub open spec fn normalize_spec(path: Seq<char>) -> Seq<char> {
    let t = trim_spec(path);
    if starts_with_spec(t, "file://localhost"@) {
        t.subrange("file://localhost"@.len() as int, t.len() as int)
    } else if starts_with_spec(t, "file://"@) {
        t.subrange("file://"@.len() as int, t.len() as int)
    } else {
        t
    }
}

/// Validates and normalizes the path a clipboard request names: an input
/// that is empty after trimming is rejected; otherwise the trimmed input
/// is returned with any `file://localhost` or `file://` prefix stripped.
pub fn normalize_path_input(path: &str) -> (r: Result<String, ClipboardError>)
    ensures
        trim_spec(path@).len() == 0 ==> r matches Err(ClipboardError::EmptyPath),
        trim_spec(path@).len() > 0 ==> (r matches Ok(s) && s@ == normalize_spec(path@)),
{
    let trimmed = trim_ws(path);
    if trimmed.unicode_len() == 0 {
        return Err(ClipboardError::EmptyPath);
    }
    let pfx_local = "file://localhost";
    let pfx = "file://";
    if str_starts_with(trimmed, pfx_local) {
        let n = trimmed.unicode_len();
        let k = pfx_local.unicode_len();
        let rest = trimmed.substring_char(k, n);
        Ok(String::from_str(rest))
    } else if str_starts_with(trimmed, pfx) {
        let n = trimmed.unicode_len();
        let k = pfx.unicode_len();
        let rest = trimmed.substring_char(k, n);
        Ok(String::from_str(rest))
    } else {
        Ok(String::from_str(trimmed))
    }
}

// ---------------------------------------------------------------------------
// The cross-thread hand-off's outcome
// ---------------------------------------------------------------------------

/// Resolves what a clipboard request returns once the cross-thread
/// hand-off has run its course. `dispatch_err` carries the scheduling
/// failure if the work unit never reached the designated thread; `reply`
/// is what came back over the reply channel, `None` when that channel was
/// dropped without a response.
///
/// The caller receives, in order of precedence: the dispatch failure, an
/// aborted-hand-off failure, or the operation's own outcome unchanged.
pub fn bridge_outcome(
    dispatch_err: Option<String>,
    reply: Option<Result<(), ClipboardError>>,
) -> (r: Result<(), ClipboardError>)
    ensures
        dispatch_err matches Some(m) ==> (r matches Err(e) && e matches
            ClipboardError::DispatchFailed(d) && d@ == m@),
        dispatch_err is None && reply is None ==> r matches Err(ClipboardError::Aborted),
        dispatch_err is None ==> (reply matches Some(inner) ==> r == inner),
{
    match dispatch_err {
        Some(m) => Err(ClipboardError::DispatchFailed(m)),
        None => match reply {
            None => Err(ClipboardError::Aborted),
            Some(inner) => inner,
        },
    }
}

} // verus!
