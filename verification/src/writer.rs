use vstd::prelude::*;
use crate::rotation::{
    should_rotate, should_rotate_spec, DEFAULT_KEEP_ROTATED, DEFAULT_MAX_LOG_BYTES,
};
use crate::text::{sanitize_line, sanitize_spec};

verus! {

/// Saturating 64-bit addition, the size model of an append that may in
/// principle exceed the counter.
pub open spec fn sat_add_u64(a: u64, b: u64) -> u64 {
    if a + b <= u64::MAX {
        (a + b) as u64
    } else {
        u64::MAX
    }
}

/// The model of one append-only, lazily opened, rotating log file.
///
/// The writer decides; the caller performs the file operations and reports
/// back. `size` models the byte length of the current file, `is_open`
/// whether an append handle is held.
#[derive(Clone, Copy, PartialEq, Eq, Structural)]
pub struct LogWriter {
    pub max_bytes: u64,
    pub keep: usize,
    pub is_open: bool,
    pub size: u64,
}

/// The open transition: a writer that already holds a handle does nothing;
/// otherwise the file is rotated exactly when its on-disk size exceeds the
/// threshold, and the writer starts from an empty file after a rotation.
pub open spec fn spec_open(w: LogWriter, fs_size: u64, opened: bool) -> (LogWriter, bool) {
    if w.is_open {
        (w, false)
    } else {
        let rotate = should_rotate_spec(fs_size, w.max_bytes);
        (
            LogWriter {
                is_open: opened,
                size: if rotate {
                    0
                } else {
                    fs_size
                },
                ..w
            },
            rotate,
        )
    }
}

impl LogWriter {
    /// The pipeline's default writer: 5 MiB threshold, 5 generations,
    /// closed, empty.
    pub open spec fn spec_defaults() -> LogWriter {
        LogWriter {
            max_bytes: DEFAULT_MAX_LOG_BYTES,
            keep: DEFAULT_KEEP_ROTATED,
            is_open: false,
            size: 0,
        }
    }

    pub fn new(max_bytes: u64, keep: usize) -> (w: Self)
        ensures
            w == (LogWriter { max_bytes, keep, is_open: false, size: 0 }),
    {
        LogWriter { max_bytes, keep, is_open: false, size: 0 }
    }

    /// A writer with the pipeline defaults: 5 MiB threshold, 5 generations.
    pub fn with_defaults() -> (w: Self)
        ensures
            w == LogWriter::spec_defaults(),
    {
        LogWriter {
            max_bytes: DEFAULT_MAX_LOG_BYTES,
            keep: DEFAULT_KEEP_ROTATED,
            is_open: false,
            size: 0,
        }
    }

    /// Whether a lazy open is still needed before lines can be stored.
    pub fn needs_open(&self) -> (r: bool)
        ensures
            r == !self.is_open,
    {
        !self.is_open
    }

    /// Records an open attempt. `fs_size` is the current on-disk size of
    /// the file, `opened` whether the caller obtained an append handle
    /// (an open failure is swallowed: the writer simply stays closed).
    /// Returns whether the file must be rotated aside first; repeated
    /// calls on an open writer are no-ops and never rotate.
    pub fn open(&mut self, fs_size: u64, opened: bool) -> (rotate: bool)
        ensures
            (*final(self), rotate) == spec_open(*old(self), fs_size, opened),
    {
        if self.is_open {
            return false;
        }
        let rotate = should_rotate(fs_size, self.max_bytes);
        self.is_open = opened;
        self.size = if rotate {
            0
        } else {
            fs_size
        };
        rotate
    }

    /// Sanitizes one raw line for storage. A line is stored exactly when
    /// the writer is open and the line is non-empty after sanitization:
    /// carriage returns stripped and trailing newlines removed. An empty
    /// result is silently discarded, and a closed writer stores nothing.
    pub fn write_line(&self, raw: &str) -> (out: Option<String>)
        ensures
            (out is Some) == (self.is_open && sanitize_spec(raw@).len() > 0),
            out is Some ==> out.unwrap()@ == sanitize_spec(raw@),
    {
        if !self.is_open {
            return None;
        }
        let line = sanitize_line(raw);
        if line.as_str().unicode_len() == 0 {
            return None;
        }
        Some(line)
    }

    /// Records that `nbytes` more bytes now stand in the current file.
    pub fn note_appended(&mut self, nbytes: u64)
        ensures
            final(self).size == sat_add_u64(old(self).size, nbytes),
            final(self).is_open == old(self).is_open,
            final(self).max_bytes == old(self).max_bytes,
            final(self).keep == old(self).keep,
    {
        if self.size <= u64::MAX - nbytes {
            self.size = self.size + nbytes;
        } else {
            self.size = u64::MAX;
        }
    }
}

// ---------------------------------------------------------------------------
// Laws of rotation
// ---------------------------------------------------------------------------

/// Law: each threshold crossing triggers exactly one rotation. An open
/// rotates exactly when the writer held no handle and the file stood over
/// the threshold; the rotation leaves an empty current file, so an
/// immediately following open cannot rotate again, and neither can any
/// open made while the handle is held.
pub proof fn lemma_one_rotation_per_crossing(
    w: LogWriter,
    fs1: u64,
    fs2: u64,
    opened2: bool,
)
    requires
        !w.is_open,
    ensures
        spec_open(w, fs1, true).1 == should_rotate_spec(fs1, w.max_bytes),
        spec_open(w, fs1, true).1 ==> spec_open(w, fs1, true).0.size == 0,
        !spec_open(spec_open(w, fs1, true).0, fs2, opened2).1,
{
}

} // verus!
