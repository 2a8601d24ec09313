use vstd::prelude::*;

verus! {

/// Relies on chrono::Utc::now: the current time as whole seconds since the
/// Unix epoch. Nothing is promised of its value. It assumes a machine clock
/// not set before 1970, an environmental condition, not an input.
#[verifier::external_body]
fn unix_timestamp() -> i64 {
    chrono::Utc::now().timestamp()
}

/// The current time as seconds since the Unix epoch, clamped below at zero
/// so that session arithmetic stays within `u64`.
pub fn now_unix() -> (t: u64)
    ensures
        t <= 0x7fff_ffff_ffff_ffff,
{
    let t = unix_timestamp();
    if t < 0 {
        0
    } else {
        t as u64
    }
}

} // verus!
