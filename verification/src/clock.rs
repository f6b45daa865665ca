//! The current time.
use vstd::prelude::*;

verus! {

/// Seconds since the Unix epoch now (`SystemTime::now`), or 0 if the clock
/// reads earlier than the epoch.  Nothing is stated of the value: it is the time.
#[verifier::external_body]
pub(crate) fn now_secs() -> (r: u64) {
    std::time::SystemTime::now().duration_since(std::time::UNIX_EPOCH).unwrap_or_default().as_secs()
}

} // verus!
