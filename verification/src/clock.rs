use vstd::prelude::*;

verus! {

/// Relies on std::time::SystemTime::now and SystemTime::duration_since:
/// reads the wall clock as milliseconds since the Unix epoch, 0 when the
/// clock reads earlier than the epoch. The value depends on when the call
/// runs, so nothing is promised of it; callers take it as an argument.
#[verifier::external_body]
fn clock_millis() -> u128 {
    std::time::SystemTime::now()
        .duration_since(std::time::UNIX_EPOCH)
        .map(|d| d.as_millis())
        .unwrap_or(0)
}

/// The current wall clock in milliseconds since the Unix epoch, the
/// timestamp every record line carries. Nothing can be promised of a
/// clock reading: every function that formats or decides takes the
/// reading as an argument and is verified for all of them.
pub fn now_ms() -> u128 {
    clock_millis()
}

} // verus!
