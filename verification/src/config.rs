use vstd::prelude::*;
use crate::primitives::IpAddr;

verus! {

/// The most peers that one answer holds.
pub const TORRENT_PEERS_LIMIT: usize = 74;

/// The intervals that an announce answer asks clients to keep, in seconds.
#[derive(Clone, Copy, Debug, PartialEq, Eq, Structural)]
pub struct AnnouncePolicy {
    /// Between two regular announces.
    pub interval: u32,
    /// The least that a client must wait before it announces again.
    pub interval_min: u32,
}

impl Default for AnnouncePolicy {
    fn default() -> (r: Self)
        ensures
            r == (AnnouncePolicy { interval: 120, interval_min: 120 }),
    {
        AnnouncePolicy { interval: 120, interval_min: 120 }
    }
}

/// How the tracker is reached from the network.
#[derive(Clone, Copy, Debug, PartialEq, Eq, Structural)]
pub struct Network {
    /// Whether requests come through a reverse proxy, which hands the
    /// client's address on in a header.
    pub on_reverse_proxy: bool,
    /// The address under which the host of the tracker is seen from
    /// outside, where it is known.
    pub external_ip: Option<IpAddr>,
}

/// How long peers and torrents are kept.
#[derive(Clone, Copy, Debug, PartialEq, Eq, Structural)]
pub struct TrackerPolicy {
    /// Seconds after its last announce for which a peer is kept.
    pub max_peer_timeout: u32,
    /// Whether the completed downloads of each torrent are written to the
    /// database.
    pub persistent_torrent_completed_stat: bool,
    /// Whether a cleanup drops torrents that have no peers left.
    pub remove_peerless_torrents: bool,
}

/// Settings of a private tracker.
#[derive(Clone, Copy, Debug, PartialEq, Eq, Structural)]
pub struct PrivateMode {
    /// Whether a key is refused once its time has passed.
    pub check_keys_expiration: bool,
}

/// The settings that the tracker reads. They do not change while it runs.
#[derive(Clone, Copy, Debug, PartialEq, Eq, Structural)]
pub struct Core {
    /// Whether the tracker asks for a key.
    pub private: bool,
    /// Whether the tracker serves whitelisted torrents only.
    pub listed: bool,
    pub announce_policy: AnnouncePolicy,
    pub net: Network,
    pub tracker_policy: TrackerPolicy,
    /// Absent, keys expire.
    pub private_mode: Option<PrivateMode>,
}

impl Core {
    /// Whether keys that are past their time are refused: so it is unless
    /// the private mode's settings are present and say otherwise.
    pub open spec fn spec_checks_keys_expiration(&self) -> bool {
        match self.private_mode {
            Some(mode) => mode.check_keys_expiration,
            None => true,
        }
    }

    #[verifier::when_used_as_spec(spec_checks_keys_expiration)]
    pub fn checks_keys_expiration(&self) -> (r: bool)
        ensures
            r == self.spec_checks_keys_expiration(),
    {
        match self.private_mode {
            Some(mode) => mode.check_keys_expiration,
            None => true,
        }
    }
}

} // verus!
