//! The core of a BitTorrent tracker, verified with Verus.
//!
//! A tracker keeps, for each torrent, the swarm of peers that share it. A
//! peer announces itself and is handed other peers of the swarm; a scrape
//! reports the counts of swarms. A private tracker asks for a key, a
//! listed tracker serves the torrents of its whitelist only. Keys,
//! whitelist and the completed downloads of torrents outlast a run in a
//! database.
//!
//! - `primitives`: info-hashes, addresses, points in time, peers, counts.
//! - `config`: the settings that the tracker reads.
//! - `clock`: the system clock, and the cutoff of a cleanup.
//! - `auth`: keys and their expiry.
//! - `assoc`: finite maps kept as lists of pairs.
//! - `swarm`: the peers of one torrent.
//! - `torrent`: the swarms of all torrents.
//! - `databases`: what the tracker asks of a database, and one in memory.
//! - `statistics`: the counts of the requests that front-ends handle.
//! - `tracker`: the tracker itself, with the answers to its requests.
//! - `error`: why the tracker refuses.
//! - `laws`: what holds of the tracker whatever is asked of it.
//!
//! The tracker is owned by one caller at a time. A host that shares it
//! between workers puts it behind a lock.

pub mod assoc;
pub mod auth;
pub mod clock;
pub mod config;
pub mod databases;
pub mod error;
pub mod laws;
pub mod primitives;
pub mod statistics;
pub mod swarm;
pub mod torrent;
pub mod tracker;
