use vstd::prelude::*;

verus! {

/// Relies on std::time::SystemTime::now: the wall clock in milliseconds
/// since the Unix epoch, or 0 when the clock sits before the epoch. Nothing
/// is promised of the reading — the platform clock may jump either way —
/// so every caller must cope with any value.
#[verifier::external_body]
pub fn now_ms() -> u64 {
    match std::time::SystemTime::now().duration_since(std::time::UNIX_EPOCH) {
        Ok(d) => d.as_millis() as u64,
        Err(_) => 0,
    }
}

} // verus!
