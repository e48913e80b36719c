use vstd::prelude::*;
use crate::auth::ParseKeyError;
use crate::primitives::InfoHash;

verus! {

/// Why the tracker refuses to serve a torrent.
#[derive(Debug, PartialEq, Eq)]
pub enum Error {
    /// The tracker serves whitelisted torrents only, and this is none.
    TorrentNotWhitelisted { info_hash: InfoHash },
}

/// Why a key could not be added.
#[derive(Debug, PartialEq, Eq)]
#[allow(inconsistent_fields)]
pub enum PeerKeyError {
    /// The time at which the key would expire is later than any time that
    /// can be held.
    DurationOverflow { seconds_valid: u64 },
    /// The text is no key.
    InvalidKey { key: String, source: ParseKeyError },
    /// The key could not be written to the database.
    DatabaseError { source: crate::databases::Error },
}

} // verus!
