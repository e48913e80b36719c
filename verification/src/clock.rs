use vstd::prelude::*;
use crate::primitives::DurationSinceUnixEpoch;

verus! {

/// Reads the system clock through `std::time::SystemTime::elapsed`, called
/// on `UNIX_EPOCH`: the time that has passed since the epoch, or nothing
/// where the clock stands before it. Nothing is claimed of the value: it
/// is whatever the clock says.
#[verifier::external_body]
fn unix_epoch_elapsed() -> (r: Option<DurationSinceUnixEpoch>) {
    match std::time::UNIX_EPOCH.elapsed() {
        Ok(d) => Some(DurationSinceUnixEpoch { secs: d.as_secs(), nanos: d.subsec_nanos() }),
        Err(_) => None,
    }
}

/// The time of the system clock. A clock that stands before the epoch
/// reads as the epoch.
pub fn now() -> DurationSinceUnixEpoch {
    match unix_epoch_elapsed() {
        Some(t) => t,
        None => DurationSinceUnixEpoch::zero(),
    }
}

/// The point in time `seconds` after `now`, unless it cannot be held.
pub fn add_seconds(now: &DurationSinceUnixEpoch, seconds: u64) -> (r: Option<DurationSinceUnixEpoch>)
    ensures
        r == DurationSinceUnixEpoch::held(now.total_nanos() + seconds * 1_000_000_000),
{
    now.checked_add(&DurationSinceUnixEpoch::from_secs(seconds))
}

/// Where peers stop being kept at the time `now`: `max_peer_timeout`
/// seconds earlier, and the epoch where that would be before it.
pub open spec fn spec_cutoff(now: DurationSinceUnixEpoch, max_peer_timeout: u32) -> DurationSinceUnixEpoch {
    match DurationSinceUnixEpoch::held(now.total_nanos() - max_peer_timeout * 1_000_000_000) {
        Some(t) => t,
        None => DurationSinceUnixEpoch { secs: 0, nanos: 0 },
    }
}

#[verifier::when_used_as_spec(spec_cutoff)]
pub fn cutoff(now: DurationSinceUnixEpoch, max_peer_timeout: u32) -> (r: DurationSinceUnixEpoch)
    ensures
        r == spec_cutoff(now, max_peer_timeout),
{
    match now.checked_sub(&DurationSinceUnixEpoch::from_secs(max_peer_timeout as u64)) {
        Some(t) => t,
        None => DurationSinceUnixEpoch::zero(),
    }
}

} // verus!
