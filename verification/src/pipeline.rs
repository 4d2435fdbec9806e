use vstd::prelude::*;
use vstd::string::*;
use crate::text::{
    dec_spec, escape_line_breaks, escape_nl_spec, sanitize_spec, trim_spec, trim_ws, u128_to_dec,
};
use crate::writer::LogWriter;

verus! {

/// At most this many batched frontend entries are processed per call.
pub const MAX_BATCH_ENTRIES: usize = 200;

/// Character cap on a frontend message and on the combined record line.
pub const MAX_LINE_CHARS: usize = 4000;

// ---------------------------------------------------------------------------
// Record-line composition
// ---------------------------------------------------------------------------

/// One log record: `[<unix_ms>] [<TAG>] <message>`.
pub open spec fn line_spec(ts: nat, tag: Seq<char>, msg: Seq<char>) -> Seq<char> {
    seq!['['] + dec_spec(ts) + seq![']', ' ', '['] + tag + seq![']', ' '] + msg
}

/// Builds one record line of the log file format.
pub fn compose_line(now: u128, tag: &str, msg: &str) -> (r: String)
    ensures
        r@ == line_spec(now as nat, tag@, msg@),
{
    let open_b = "[";
    let mid = "] [";
    let close_b = "] ";
    proof {
        reveal_strlit("[");
        reveal_strlit("] [");
        reveal_strlit("] ");
        assert(open_b@ =~= seq!['[']);
        assert(mid@ =~= seq![']', ' ', '[']);
        assert(close_b@ =~= seq![']', ' ']);
    }
    let mut r = String::from_str(open_b);
    let d = u128_to_dec(now);
    r.append(d.as_str());
    r.append(mid);
    r.append(tag);
    r.append(close_b);
    r.append(msg);
    proof {
        assert(r@ =~= line_spec(now as nat, tag@, msg@));
    }
    r
}

/// The session-start header message, written eagerly to the host channel.
pub open spec fn header_msg_spec(
    name: Seq<char>,
    version: Seq<char>,
    os: Seq<char>,
    arch: Seq<char>,
) -> Seq<char> {
    "session start name="@ + name + " version="@ + version + " os="@ + os + " arch="@ + arch
}

/// Builds the session-start header line for the host log.
pub fn session_header(
    now: u128,
    name: &str,
    version: &str,
    os: &str,
    arch: &str,
) -> (r: String)
    ensures
        r@ == line_spec(now as nat, "INFO"@, header_msg_spec(name@, version@, os@, arch@)),
{
    let mut msg = String::from_str("session start name=");
    msg.append(name);
    msg.append(" version=");
    msg.append(version);
    msg.append(" os=");
    msg.append(os);
    msg.append(" arch=");
    msg.append(arch);
    proof {
        assert(msg@ =~= header_msg_spec(name@, version@, os@, arch@));
    }
    let tag = "INFO";
    compose_line(now, tag, msg.as_str())
}

// ---------------------------------------------------------------------------
// Frontend batch ingestion
// ---------------------------------------------------------------------------

/// One externally supplied log entry: a level, a message, an optional
/// context, all validated and bounded before they become a record line.
pub struct FrontendLogEntry {
    pub level: String,
    pub message: String,
    pub context: Option<String>,
}

/// What uppercasing yields on a text; the mapping is Unicode's, stated
/// only by name.
pub uninterp spec fn upper_of(s: Seq<char>) -> Seq<char>;

/// Relies on str::to_uppercase: the uppercased text is a function of the
/// characters alone, and an empty string stays empty.
#[verifier::external_body]
fn to_upper(s: &str) -> (r: String)
    ensures
        r@ == upper_of(s@),
        s@.len() == 0 ==> r@.len() == 0,
{
    s.to_uppercase()
}

/// The truncation marker appended to an over-long message.
pub open spec fn trunc_marker() -> Seq<char> {
    "…(truncated)"@
}

/// A frontend message bounded for storage: line breaks collapsed to the
/// two-character escape, then capped at the character limit with a marker.
pub open spec fn fe_message_spec(msg: Seq<char>) -> Seq<char> {
    let esc = escape_nl_spec(msg);
    if esc.len() > MAX_LINE_CHARS {
        esc.subrange(0, MAX_LINE_CHARS as int) + trunc_marker()
    } else {
        esc
    }
}

/// The record line of one frontend entry:
/// `[<unix_ms>] [FE] [<LEVEL>] <message>`, with ` | <context>` appended
/// only when the context is non-empty after escaping and trimming and the
/// combined line stays within the character cap.
pub open spec fn fe_line_spec(
    now: nat,
    level: Seq<char>,
    msg: Seq<char>,
    ctx: Option<Seq<char>>,
) -> Seq<char> {
    let lvl = seq!['['] + upper_of(trim_spec(level)) + seq![']', ' '];
    let base = seq!['['] + dec_spec(now) + seq![']', ' ', '[', 'F', 'E', ']', ' '] + lvl
        + fe_message_spec(msg);
    let c = match ctx {
        Some(c0) => trim_spec(escape_nl_spec(c0)),
        None => Seq::<char>::empty(),
    };
    if c.len() > 0 && base.len() + 3 + c.len() <= MAX_LINE_CHARS {
        base + seq![' ', '|', ' '] + c
    } else {
        base
    }
}

/// The record line of an entry, over its fields.
pub open spec fn entry_line_spec(e: FrontendLogEntry, now: nat) -> Seq<char> {
    fe_line_spec(
        now,
        e.level@,
        e.message@,
        match e.context {
            Some(c) => Some(c@),
            None => None,
        },
    )
}

/// Folds one frontend entry into its record line.
pub fn fold_entry(e: &FrontendLogEntry, now: u128) -> (r: String)
    ensures
        r@ == entry_line_spec(*e, now as nat),
{
    let lvl_up = to_upper(trim_ws(e.level.as_str()));
    let esc = escape_line_breaks(e.message.as_str());
    let el = esc.as_str().unicode_len();
    let msg: String = if el > MAX_LINE_CHARS {
        let mut m = String::from_str(esc.as_str().substring_char(0, MAX_LINE_CHARS));
        let marker = "…(truncated)";
        m.append(marker);
        m
    } else {
        esc
    };
    let open_b = "[";
    let fe_mid = "] [FE] [";
    let close_b = "] ";
    proof {
        reveal_strlit("[");
        reveal_strlit("] [FE] [");
        reveal_strlit("] ");
        assert(open_b@ =~= seq!['[']);
        assert(fe_mid@ =~= seq![']', ' ', '[', 'F', 'E', ']', ' ', '[']);
        assert(close_b@ =~= seq![']', ' ']);
    }
    let mut base = String::from_str(open_b);
    let d = u128_to_dec(now);
    base.append(d.as_str());
    base.append(fe_mid);
    base.append(lvl_up.as_str());
    base.append(close_b);
    base.append(msg.as_str());
    proof {
        assert(base@ =~= seq!['['] + dec_spec(now as nat) + seq![']', ' ', '[', 'F', 'E', ']', ' ']
            + (seq!['['] + upper_of(trim_spec(e.level@)) + seq![']', ' '])
            + fe_message_spec(e.message@));
    }
    match &e.context {
        None => base,
        Some(c) => {
            let escd = escape_line_breaks(c.as_str());
            let t = trim_ws(escd.as_str());
            let tl = t.unicode_len();
            let bl = base.as_str().unicode_len();
            if tl > 0 && bl <= MAX_LINE_CHARS && MAX_LINE_CHARS - bl >= 3 && tl
                <= MAX_LINE_CHARS - bl - 3 {
                let sep = " | ";
                proof {
                    reveal_strlit(" | ");
                    assert(sep@ =~= seq![' ', '|', ' ']);
                }
                base.append(sep);
                base.append(t);
                proof {
                    assert(base@ =~= entry_line_spec(*e, now as nat));
                }
                base
            } else {
                base
            }
        },
    }
}

/// Folds a batch of frontend entries into record lines in order,
/// processing at most the first `MAX_BATCH_ENTRIES` entries and dropping
/// the excess without error.
pub fn process_batch(entries: &Vec<FrontendLogEntry>, now: u128) -> (lines: Vec<String>)
    ensures
        lines@.len() == if entries@.len() > MAX_BATCH_ENTRIES {
            MAX_BATCH_ENTRIES as int
        } else {
            entries@.len() as int
        },
        forall|i: int|
            0 <= i < lines@.len() ==> #[trigger] lines@[i]@ == entry_line_spec(
                entries@[i],
                now as nat,
            ),
{
    let n = entries.len();
    let count = if n > MAX_BATCH_ENTRIES {
        MAX_BATCH_ENTRIES
    } else {
        n
    };
    let mut lines: Vec<String> = Vec::new();
    let mut i: usize = 0;
    while i < count
        invariant
            0 <= i <= count,
            count <= n,
            n == entries@.len(),
            count as int == if entries@.len() > MAX_BATCH_ENTRIES {
                MAX_BATCH_ENTRIES as int
            } else {
                entries@.len() as int
            },
            lines@.len() == i,
            forall|k: int|
                0 <= k < i ==> #[trigger] lines@[k]@ == entry_line_spec(entries@[k], now as nat),
        decreases count - i,
    {
        let line = fold_entry(entries.get(i).unwrap(), now);
        lines.push(line);
        i += 1;
    }
    lines
}

// ---------------------------------------------------------------------------
// The two-channel pipeline
// ---------------------------------------------------------------------------

/// The log pipeline: the log directory and the two writers, one for
/// host-side events and one for the worker's own output.
pub struct LogState {
    pub dir: String,
    pub app: LogWriter,
    pub server: LogWriter,
}

impl LogState {
    /// A pipeline over `dir` with default writers for the host channel
    /// (`app.log`) and the worker channel (`server.log`).
    pub fn init(dir: String) -> (s: Self)
        ensures
            s.dir@ == dir@,
            s.app == LogWriter::spec_defaults(),
            s.server == LogWriter::spec_defaults(),
    {
        LogState { dir, app: LogWriter::with_defaults(), server: LogWriter::with_defaults() }
    }

    /// The directory that holds both log files.
    pub fn log_dir(&self) -> (r: String)
        ensures
            r@ == self.dir@,
    {
        self.dir.clone()
    }

    /// Formats and sanitizes one host-channel record; the stored line, if
    /// any, is returned for appending to the host log.
    pub fn log_app(&self, now: u128, level: &str, message: &str) -> (out: Option<String>)
        ensures
            (out is Some) == (self.app.is_open && sanitize_spec(
                line_spec(now as nat, level@, message@),
            ).len() > 0),
            out is Some ==> out.unwrap()@ == sanitize_spec(
                line_spec(now as nat, level@, message@),
            ),
    {
        let line = compose_line(now, level, message);
        self.app.write_line(line.as_str())
    }

    /// Formats and sanitizes one worker-channel record under the stream's
    /// tag; the stored line, if any, is returned for appending to the
    /// worker log.
    pub fn log_server(&self, now: u128, stream: &str, message: &str) -> (out: Option<String>)
        ensures
            (out is Some) == (self.server.is_open && sanitize_spec(
                line_spec(now as nat, stream@, message@),
            ).len() > 0),
            out is Some ==> out.unwrap()@ == sanitize_spec(
                line_spec(now as nat, stream@, message@),
            ),
    {
        let line = compose_line(now, stream, message);
        self.server.write_line(line.as_str())
    }
}

} // verus!
