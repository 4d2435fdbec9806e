use vstd::prelude::*;
use vstd::string::*;
use crate::pipeline::{line_spec, LogState};
use crate::port::{parse_port_line, port_of_line};
use crate::text::{dec_spec, sanitize_spec, trim_end_spec, trim_end_ws, u128_to_dec};

verus! {

// ---------------------------------------------------------------------------
// Worker events
// ---------------------------------------------------------------------------

/// The exit status a terminated worker reports.
#[derive(Clone, Copy)]
pub struct TermStatus {
    pub code: Option<i32>,
    pub signal: Option<i32>,
}

/// One event of the worker's stream, consumed once by the supervisor.
pub enum WorkerEvent {
    /// A line of the worker's standard output, raw bytes.
    Stdout(Vec<u8>),
    /// A line of the worker's standard error, raw bytes.
    Stderr(Vec<u8>),
    /// A spawn-side error message; the supervisor loop continues.
    SpawnError(String),
    /// The worker terminated with the given status.
    Terminated(TermStatus),
}

/// What one event step asks the surrounding loop to do: the line to
/// append to each channel (already formatted and sanitized), the port to
/// store and announce, and whether the process handle is to be cleared.
pub struct StepEffects {
    pub server_line: Option<String>,
    pub app_line: Option<String>,
    pub port: Option<u16>,
    pub clear_handle: bool,
}

// ---------------------------------------------------------------------------
// Decoding the worker's bytes
// ---------------------------------------------------------------------------

/// What lossy UTF-8 decoding yields on a byte sequence; the full mapping
/// is stated only by name.
pub uninterp spec fn lossy_utf8(bytes: Seq<u8>) -> Seq<char>;

/// Relies on String::from_utf8_lossy: the decoded text is a function of
/// the bytes alone, invalid sequences replaced by the replacement
/// character, and a sequence of ASCII bytes decodes to those characters.
#[verifier::external_body]
fn decode_utf8_lossy(bytes: &Vec<u8>) -> (s: String)
    ensures
        s@ == lossy_utf8(bytes@),
        (forall|i: int| 0 <= i < bytes@.len() ==> bytes@[i] < 128) ==> (s@.len() == bytes@.len()
            && forall|i: int| 0 <= i < s@.len() ==> s@[i] as u32 == bytes@[i] as u32),
{
    String::from_utf8_lossy(bytes.as_slice()).into_owned()
}

// ---------------------------------------------------------------------------
// Record texts of the supervisor
// ---------------------------------------------------------------------------

pub open spec fn dec_i32_spec(v: int) -> Seq<char> {
    if v < 0 {
        seq!['-'] + dec_spec((-v) as nat)
    } else {
        dec_spec(v as nat)
    }
}

pub open spec fn opt_i32_spec(o: Option<i32>) -> Seq<char> {
    match o {
        Some(v) => dec_i32_spec(v as int),
        None => "none"@,
    }
}

pub fn i32_to_dec(v: i32) -> (r: String)
    ensures
        r@ == dec_i32_spec(v as int),
{
    let wide: i64 = v as i64;
    if wide < 0 {
        let minus = "-";
        proof {
            reveal_strlit("-");
            assert(minus@ =~= seq!['-']);
        }
        let mut r = String::from_str(minus);
        let d = u128_to_dec((-wide) as u128);
        r.append(d.as_str());
        proof {
            assert(r@ =~= dec_i32_spec(v as int));
        }
        r
    } else {
        u128_to_dec(wide as u128)
    }
}

pub fn opt_i32_to_dec(o: &Option<i32>) -> (r: String)
    ensures
        r@ == opt_i32_spec(*o),
{
    match o {
        Some(v) => i32_to_dec(*v),
        None => String::from_str("none"),
    }
}

/// The worker-channel record of a standard-output line.
pub open spec fn stdout_record(now: nat, b: Seq<u8>) -> Seq<char> {
    line_spec(now, "STDOUT"@, trim_end_spec(lossy_utf8(b)))
}

/// The worker-channel record of a standard-error line.
pub open spec fn stderr_record(now: nat, b: Seq<u8>) -> Seq<char> {
    line_spec(now, "STDERR"@, trim_end_spec(lossy_utf8(b)))
}

/// The host-channel record announcing a detected port.
pub open spec fn port_detect_record(now: nat, p: u16) -> Seq<char> {
    line_spec(now, "INFO"@, "Detected backend port: "@ + dec_spec(p as nat))
}

/// The host-channel record of a spawn-side error.
pub open spec fn spawn_error_record(now: nat, m: Seq<char>) -> Seq<char> {
    line_spec(now, "ERROR"@, "Sidecar Error: "@ + m)
}

/// The host-channel record of a termination.
pub open spec fn terminated_record(now: nat, st: TermStatus) -> Seq<char> {
    line_spec(
        now,
        "WARN"@,
        "Sidecar Terminated with status: code="@ + opt_i32_spec(st.code) + " signal="@
            + opt_i32_spec(st.signal),
    )
}

// ---------------------------------------------------------------------------
// The supervisor step
// ---------------------------------------------------------------------------

/// What one stored channel line must look like, given the record text.
pub open spec fn stored(out: Option<String>, writer_open: bool, record: Seq<char>) -> bool {
    &&& (out is Some) == (writer_open && sanitize_spec(record).len() > 0)
    &&& (out is Some ==> out.unwrap()@ == sanitize_spec(record))
}

/// The supervisor's own state: whether the worker's process handle is
/// still held. The handle is cleared when a termination event arrives and
/// is then unavailable for any further control operation.
pub struct ProcessSupervisor {
    pub handle_present: bool,
}

impl ProcessSupervisor {
    /// The state right after a successful spawn: the handle is held.
    pub fn new() -> (s: Self)
        ensures
            s.handle_present,
    {
        ProcessSupervisor { handle_present: true }
    }

    /// Classifies one worker event, in arrival order, and decides every
    /// state transition: which sanitized record line each log channel
    /// stores, which port (if any) the registry is to take and listeners
    /// are to be told of, and whether the process handle is cleared.
    ///
    /// A standard-output line is scanned for a port announcement; standard
    /// error never is. A spawn error is logged and the loop goes on. Only
    /// a termination clears the handle.
    pub fn handle_event(
        &mut self,
        logs: &LogState,
        event: &WorkerEvent,
        now: u128,
    ) -> (eff: StepEffects)
        ensures
            final(self).handle_present == (old(self).handle_present && !((*event) matches
                WorkerEvent::Terminated(_))),
            eff.clear_handle == ((*event) matches WorkerEvent::Terminated(_)),
            (*event) matches WorkerEvent::Stdout(b) ==> eff.port == port_of_line(
                lossy_utf8(b@),
            ),
            !((*event) matches WorkerEvent::Stdout(_)) ==> eff.port is None,
            (*event) matches WorkerEvent::Stdout(b) ==> stored(
                eff.server_line,
                logs.server.is_open,
                stdout_record(now as nat, b@),
            ),
            (*event) matches WorkerEvent::Stdout(b) && eff.port is Some ==> stored(
                eff.app_line,
                logs.app.is_open,
                port_detect_record(now as nat, eff.port.unwrap()),
            ),
            (*event) matches WorkerEvent::Stdout(b) && eff.port is None ==> eff.app_line
                is None,
            (*event) matches WorkerEvent::Stderr(b) ==> stored(
                eff.server_line,
                logs.server.is_open,
                stderr_record(now as nat, b@),
            ) && eff.app_line is None,
            (*event) matches WorkerEvent::SpawnError(m) ==> stored(
                eff.app_line,
                logs.app.is_open,
                spawn_error_record(now as nat, m@),
            ) && eff.server_line is None,
            (*event) matches WorkerEvent::Terminated(st) ==> stored(
                eff.app_line,
                logs.app.is_open,
                terminated_record(now as nat, st),
            ) && eff.server_line is None,
    {
        match event {
            WorkerEvent::Stdout(bytes) => {
                let decoded = decode_utf8_lossy(bytes);
                let trimmed = trim_end_ws(decoded.as_str());
                let server_line = logs.log_server(now, "STDOUT", trimmed);
                let port = parse_port_line(decoded.as_str());
                let app_line = match port {
                    Some(p) => {
                        let mut m = String::from_str("Detected backend port: ");
                        let d = u128_to_dec(p as u128);
                        m.append(d.as_str());
                        proof {
                            assert(m@ =~= "Detected backend port: "@ + dec_spec(p as nat));
                        }
                        logs.log_app(now, "INFO", m.as_str())
                    },
                    None => None,
                };
                StepEffects { server_line, app_line, port, clear_handle: false }
            },
            WorkerEvent::Stderr(bytes) => {
                let decoded = decode_utf8_lossy(bytes);
                let trimmed = trim_end_ws(decoded.as_str());
                let server_line = logs.log_server(now, "STDERR", trimmed);
                StepEffects { server_line, app_line: None, port: None, clear_handle: false }
            },
            WorkerEvent::SpawnError(msg) => {
                let mut m = String::from_str("Sidecar Error: ");
                m.append(msg.as_str());
                proof {
                    assert(m@ =~= "Sidecar Error: "@ + msg@);
                }
                let app_line = logs.log_app(now, "ERROR", m.as_str());
                StepEffects { server_line: None, app_line, port: None, clear_handle: false }
            },
            WorkerEvent::Terminated(st) => {
                let mut m = String::from_str("Sidecar Terminated with status: code=");
                let c = opt_i32_to_dec(&st.code);
                m.append(c.as_str());
                m.append(" signal=");
                let sg = opt_i32_to_dec(&st.signal);
                m.append(sg.as_str());
                proof {
                    assert(m@ =~= "Sidecar Terminated with status: code="@ + opt_i32_spec(
                        st.code,
                    ) + " signal="@ + opt_i32_spec(st.signal));
                }
                let app_line = logs.log_app(now, "WARN", m.as_str());
                self.handle_present = false;
                StepEffects { server_line: None, app_line, port: None, clear_handle: true }
            },
        }
    }
}

} // verus!
