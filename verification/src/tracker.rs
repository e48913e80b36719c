use vstd::prelude::*;
use vstd::std_specs::convert::FromSpecImpl;
use crate::assoc::AssocList;
use crate::auth::{Key, PeerKey};
use crate::config::{AnnouncePolicy, Core, TORRENT_PEERS_LIMIT};
use crate::databases::{Database, DbState, Operation};
use crate::error::{Error, PeerKeyError};
use crate::primitives::{
    DurationSinceUnixEpoch, InfoHash, IpAddr, Peer, SocketAddr, SwarmMetadata, TorrentsMetrics,
};
use crate::torrent::{Swarms, Torrents};

verus! {

/// What an announce is answered with.
#[derive(Clone, Debug, PartialEq)]
pub struct AnnounceData {
    /// Peers of the swarm, without the one that announced.
    pub peers: Vec<Peer>,
    /// The counts of the swarm.
    pub stats: SwarmMetadata,
    pub policy: AnnouncePolicy,
}

impl AnnounceData {
    pub fn new(peers: Vec<Peer>, stats: SwarmMetadata, policy: AnnouncePolicy) -> (r: Self)
        ensures
            r.peers == peers,
            r.stats == stats,
            r.policy == policy,
    {
        AnnounceData { peers, stats, policy }
    }
}

impl Default for AnnounceData {
    fn default() -> (r: Self)
        ensures
            r.peers@ == Seq::<Peer>::empty(),
            r.stats == (SwarmMetadata { downloaded: 0, complete: 0, incomplete: 0 }),
            r.policy == (AnnouncePolicy { interval: 120, interval_min: 120 }),
    {
        AnnounceData {
            peers: Vec::new(),
            stats: SwarmMetadata::zeroed(),
            policy: AnnouncePolicy { interval: 120, interval_min: 120 },
        }
    }
}

/// How many peers the announcing peer wants in the answer.
#[derive(Clone, Copy, Debug, PartialEq, Eq, Structural)]
pub enum PeersWanted {
    /// As many as the tracker hands out.
    All,
    /// A given number.
    Only { amount: usize },
}

impl Default for PeersWanted {
    fn default() -> (r: Self)
        ensures
            r == PeersWanted::All,
    {
        PeersWanted::All
    }
}

impl PeersWanted {
    pub fn only(limit: u32) -> (r: Self)
        ensures
            r == (PeersWanted::Only { amount: limit as usize }),
    {
        PeersWanted::Only { amount: limit as usize }
    }

    /// The number of peers asked for.
    pub open spec fn spec_limit(&self) -> usize {
        match *self {
            PeersWanted::All => TORRENT_PEERS_LIMIT,
            PeersWanted::Only { amount } => amount,
        }
    }

    #[verifier::when_used_as_spec(spec_limit)]
    pub fn limit(&self) -> (r: usize)
        ensures
            r == self.spec_limit(),
    {
        match *self {
            PeersWanted::All => TORRENT_PEERS_LIMIT,
            PeersWanted::Only { amount } => amount,
        }
    }
}

impl From<i32> for PeersWanted {
    fn from(value: i32) -> (r: Self) {
        if value > 0 {
            PeersWanted::Only { amount: value as usize }
        } else {
            PeersWanted::All
        }
    }
}

impl FromSpecImpl<i32> for PeersWanted {
    open spec fn obeys_from_spec() -> bool {
        true
    }

    open spec fn from_spec(value: i32) -> Self {
        if value > 0 {
            PeersWanted::Only { amount: value as usize }
        } else {
            PeersWanted::All
        }
    }
}

/// What a scrape is answered with: the counts of each torrent asked for.
#[derive(Debug)]
pub struct ScrapeData {
    files: AssocList<InfoHash, SwarmMetadata>,
}

impl View for ScrapeData {
    type V = Map<Seq<u8>, SwarmMetadata>;

    closed spec fn view(&self) -> Map<Seq<u8>, SwarmMetadata> {
        self.files@
    }
}

impl ScrapeData {
    /// Every answer built through this interface is well formed, and every
    /// operation keeps it so.
    pub closed spec fn wf(&self) -> bool {
        self.files.wf()
    }

    /// An answer without torrents.
    pub fn empty() -> (r: Self)
        ensures
            r.wf(),
            r@ == Map::<Seq<u8>, SwarmMetadata>::empty(),
    {
        ScrapeData { files: AssocList::new() }
    }

    /// An answer with zeros for each of the torrents.
    pub fn zeroed(info_hashes: &Vec<InfoHash>) -> (r: Self)
        ensures
            r.wf(),
            forall|h: Seq<u8>|
                r@.contains_key(h) <==> exists|i: int|
                    0 <= i < info_hashes@.len() && (#[trigger] info_hashes@[i])@ == h,
            forall|h: Seq<u8>| #[trigger]
                r@.contains_key(h) ==> r@[h] == (SwarmMetadata {
                    downloaded: 0,
                    complete: 0,
                    incomplete: 0,
                }),
    {
        let mut scrape_data = Self::empty();
        let mut k: usize = 0;
        while k < info_hashes.len()
            invariant
                k <= info_hashes.len(),
                scrape_data.wf(),
                forall|h: Seq<u8>|
                    scrape_data@.contains_key(h) <==> exists|i: int|
                        0 <= i < k && (#[trigger] info_hashes@[i])@ == h,
                forall|h: Seq<u8>| #[trigger]
                    scrape_data@.contains_key(h) ==> scrape_data@[h] == (SwarmMetadata {
                        downloaded: 0,
                        complete: 0,
                        incomplete: 0,
                    }),
            decreases info_hashes.len() - k,
        {
            scrape_data.add_file(&info_hashes[k], SwarmMetadata::zeroed());
            k += 1;
        }
        scrape_data
    }

    /// Puts the counts of a torrent into the answer, in place of those it
    /// may hold for it.
    pub fn add_file(&mut self, info_hash: &InfoHash, swarm_metadata: SwarmMetadata)
        requires
            old(self).wf(),
        ensures
            final(self).wf(),
            final(self)@ == old(self)@.insert(info_hash@, swarm_metadata),
    {
        let previous = self.files.insert(*info_hash, swarm_metadata);
    }

    /// Puts zeros for a torrent into the answer.
    pub fn add_file_with_zeroed_metadata(&mut self, info_hash: &InfoHash)
        requires
            old(self).wf(),
        ensures
            final(self).wf(),
            final(self)@ == old(self)@.insert(
                info_hash@,
                SwarmMetadata { downloaded: 0, complete: 0, incomplete: 0 },
            ),
    {
        let previous = self.files.insert(*info_hash, SwarmMetadata::zeroed());
    }

    /// The counts that the answer holds for a torrent.
    pub fn get(&self, info_hash: &InfoHash) -> (r: Option<SwarmMetadata>)
        requires
            self.wf(),
        ensures
            r == if self@.contains_key(info_hash@) {
                Some(self@[info_hash@])
            } else {
                None::<SwarmMetadata>
            },
    {
        match self.files.get(info_hash) {
            Some(m) => Some(*m),
            None => None,
        }
    }

    /// The number of torrents in the answer.
    pub fn len(&self) -> (n: usize)
        requires
            self.wf(),
        ensures
            self@.dom().finite(),
            n == self@.dom().len(),
    {
        self.files.len()
    }

    /// Whether every torrent of this answer is in `other` with the same
    /// counts.
    fn is_within(&self, other: &ScrapeData) -> (r: bool)
        requires
            self.wf(),
            other.wf(),
        ensures
            r == (forall|h: Seq<u8>| #[trigger]
                self@.contains_key(h) ==> other@.contains_key(h) && other@[h] == self@[h]),
    {
        let mut i: usize = 0;
        while i < self.files.len()
            invariant
                self.wf(),
                other.wf(),
                i <= self.files.entries().len(),
                forall|j: int|
                    0 <= j < i ==> other@.contains_key((#[trigger] self.files.entries()[j]).0@)
                        && other@[self.files.entries()[j].0@] == self.files.entries()[j].1,
            decreases self.files.entries().len() - i,
        {
            let key = self.files.key_at(i);
            let value = self.files.value_at(i);
            assert(self@.contains_key(key@) && self@[key@] == *value);
            match other.files.get(key) {
                Some(v) => {
                    if *v != *value {
                        return false;
                    }
                },
                None => {
                    return false;
                },
            }
            i += 1;
        }
        proof {
            assert forall|h: Seq<u8>| #[trigger] self@.contains_key(h) implies other@.contains_key(h)
                && other@[h] == self@[h] by {
                crate::assoc::lemma_key_position(self.files.entries(), h);
                let j = crate::assoc::key_index(self.files.entries(), h);
                assert(other@.contains_key(self.files.entries()[j].0@));
            }
        }
        true
    }

    /// Whether two answers hold the same torrents with the same counts.
    pub fn same_files(&self, other: &ScrapeData) -> (r: bool)
        requires
            self.wf(),
            other.wf(),
        ensures
            r == (self@ == other@),
    {
        let r = self.is_within(other) && other.is_within(self);
        proof {
            if r {
                assert(self@ =~= other@);
            }
        }
        r
    }
}

impl Default for ScrapeData {
    fn default() -> (r: Self)
        ensures
            r.wf(),
            r@ == Map::<Seq<u8>, SwarmMetadata>::empty(),
    {
        ScrapeData::empty()
    }
}

/// What is needed to add a key. Without a key, one is drawn at random;
/// without a number of seconds, the key is permanent.
#[derive(Debug)]
pub struct AddKeyRequest {
    pub opt_key: Option<String>,
    pub opt_seconds_valid: Option<u64>,
}

/// What the tracker holds: the keys with the times until which they are
/// valid, the whitelist, the swarms, and what its database holds.
pub struct TrackerState {
    pub keys: Map<Seq<char>, Option<DurationSinceUnixEpoch>>,
    pub whitelist: Set<Seq<u8>>,
    pub torrents: Swarms,
    pub db: DbState,
}

impl TrackerState {
    /// Whether a request for the torrent is served: any is unless the
    /// tracker is listed, and then those on the whitelist are.
    pub open spec fn authorizes(self, config: Core, info_hash: Seq<u8>) -> bool {
        !config.listed || self.whitelist.contains(info_hash)
    }

    /// The counts that a scrape at `now` reports of a torrent: those of
    /// its swarm where the request is served and the swarm exists, zeros
    /// otherwise.
    pub open spec fn scraped(
        self,
        config: Core,
        info_hash: Seq<u8>,
        now: DurationSinceUnixEpoch,
    ) -> SwarmMetadata {
        if self.authorizes(config, info_hash) {
            crate::torrent::metadata_of(self.torrents, info_hash, active_since(config, now))
        } else {
            SwarmMetadata { downloaded: 0, complete: 0, incomplete: 0 }
        }
    }

    /// The state with an info-hash on the whitelist, in memory and in the
    /// database.
    pub open spec fn with_whitelisted(self, info_hash: Seq<u8>) -> TrackerState {
        TrackerState {
            whitelist: self.whitelist.insert(info_hash),
            db: DbState { whitelist: self.db.whitelist.insert(info_hash), ..self.db },
            ..self
        }
    }

    /// The state with an info-hash off the whitelist, in memory and in the
    /// database.
    pub open spec fn without_whitelisted(self, info_hash: Seq<u8>) -> TrackerState {
        TrackerState {
            whitelist: self.whitelist.remove(info_hash),
            db: DbState { whitelist: self.db.whitelist.remove(info_hash), ..self.db },
            ..self
        }
    }

    /// The state with a key, in memory and in the database.
    pub open spec fn with_key(
        self,
        key: Seq<char>,
        valid_until: Option<DurationSinceUnixEpoch>,
    ) -> TrackerState {
        TrackerState {
            keys: self.keys.insert(key, valid_until),
            db: DbState { keys: self.db.keys.insert(key, valid_until), ..self.db },
            ..self
        }
    }

    /// The state without a key, in memory and in the database.
    pub open spec fn without_key(self, key: Seq<char>) -> TrackerState {
        TrackerState {
            keys: self.keys.remove(key),
            db: DbState { keys: self.db.keys.remove(key), ..self.db },
            ..self
        }
    }

    /// The state with the whitelist of the database in place of the one in
    /// memory.
    pub open spec fn with_whitelist_loaded(self) -> TrackerState {
        TrackerState { whitelist: self.db.whitelist, ..self }
    }

    /// The state with the keys of the database in place of those in
    /// memory.
    pub open spec fn with_keys_loaded(self) -> TrackerState {
        TrackerState { keys: self.db.keys, ..self }
    }

    /// The state with the counters of `records` read into the swarms.
    pub open spec fn with_torrents_loaded(self, records: Seq<(InfoHash, u32)>) -> TrackerState {
        TrackerState { torrents: crate::torrent::with_records(self.torrents, records), ..self }
    }

}

/// Why a text is no key.
pub open spec fn parse_error(text: Seq<char>) -> crate::auth::ParseKeyError {
    if text.len() != crate::auth::AUTH_KEY_LENGTH {
        crate::auth::ParseKeyError::InvalidKeyLength
    } else {
        crate::auth::ParseKeyError::InvalidChars
    }
}

/// The lifetime that a number of seconds stands for.
pub open spec fn lifetime_of(opt_seconds_valid: Option<u64>) -> Option<DurationSinceUnixEpoch> {
    match opt_seconds_valid {
        Some(seconds) => Some(DurationSinceUnixEpoch { secs: seconds, nanos: 0 }),
        None => None,
    }
}

/// The most peers that an announce is answered with, for a client that
/// asks for `wanted`: a wish for fewer than 74 is raised to 74, and one
/// for more is cut down to 74.
pub open spec fn spec_peers_limit(wanted: usize) -> usize {
    TORRENT_PEERS_LIMIT
}

#[verifier::when_used_as_spec(spec_peers_limit)]
pub fn peers_limit(wanted: usize) -> (r: usize)
    ensures
        r == spec_peers_limit(wanted),
{
    let raised = if wanted > TORRENT_PEERS_LIMIT {
        wanted
    } else {
        TORRENT_PEERS_LIMIT
    };
    if raised > TORRENT_PEERS_LIMIT {
        TORRENT_PEERS_LIMIT
    } else {
        raised
    }
}

/// The peers that a client at `client` is handed for a torrent: the first
/// `limit` of its swarm at another address, and none where there is no
/// swarm.
pub open spec fn peers_for(s: Swarms, info_hash: Seq<u8>, client: SocketAddr, limit: usize) -> Seq<Peer> {
    match crate::torrent::swarm_of(s, info_hash) {
        Some(swarm) => swarm.peers_for_client(client, Some(limit)),
        None => Seq::empty(),
    }
}

/// What the database holds after the tracker had to decide whether to write
/// the completed downloads of a torrent: where it had to write and the
/// database did not refuse, the counter is written; else nothing changed.
pub open spec fn persisted(
    before: DbState,
    after: DbState,
    must_write: bool,
    refusal: Option<crate::databases::Error>,
    info_hash: Seq<u8>,
    downloaded: u32,
) -> bool {
    if must_write && refusal is None {
        after == before.after(Operation::SavePersistentTorrent { info_hash, downloaded })
    } else {
        after == before
    }
}

/// Where peers stop being active at the time `now`: the peer timeout of
/// the settings earlier, and the epoch where that would be before it.
pub open spec fn active_since(config: Core, now: DurationSinceUnixEpoch) -> DurationSinceUnixEpoch {
    crate::clock::spec_cutoff(now, config.tracker_policy.max_peer_timeout)
}

/// What taking in an announce of `peer` at `now` leads to, from the state
/// `before`: the state `after` and the counts `r`. The peer is in the
/// swarm of its torrent, the counts are those of that swarm as of `now`,
/// and where they differ from those before, the completed downloads were
/// written to the database, if the tracker is set to do so and the
/// database did not refuse. `refusal` is what the database answers to
/// that write.
pub open spec fn upsert_outcome(
    before: TrackerState,
    after: TrackerState,
    config: Core,
    refusal: Option<crate::databases::Error>,
    info_hash: Seq<u8>,
    peer: Peer,
    now: DurationSinceUnixEpoch,
    r: SwarmMetadata,
) -> bool {
    &&& after == (TrackerState {
        torrents: crate::torrent::with_announce(before.torrents, info_hash, peer),
        db: after.db,
        ..before
    })
    &&& r == crate::torrent::metadata_of(after.torrents, info_hash, active_since(config, now))
    &&& r == crate::torrent::swarm_or_new(before.torrents, info_hash).upsert(peer).metadata(
        active_since(config, now),
    )
    &&& persisted(
        before.db,
        after.db,
        config.tracker_policy.persistent_torrent_completed_stat && crate::torrent::metadata_of(
            before.torrents,
            info_hash,
            active_since(config, now),
        ) != r,
        refusal,
        info_hash,
        r.downloaded,
    )
}

/// What an announce at `now` leads to, from the state `before`: the state
/// `after`, the peer as it was stored, and the answer `r`. The peer is
/// stored under the address that the tracker assigns to it, and the answer
/// holds the counts of the swarm as of `now` and the first 74 of its peers
/// at another address. `refusal` is what the database answers to the
/// write of the completed downloads.
pub open spec fn announce_outcome(
    before: TrackerState,
    after: TrackerState,
    config: Core,
    refusal: Option<crate::databases::Error>,
    info_hash: Seq<u8>,
    announced: Peer,
    stored: Peer,
    remote_client_ip: IpAddr,
    now: DurationSinceUnixEpoch,
    r: AnnounceData,
) -> bool {
    &&& stored == (Peer {
        peer_addr: SocketAddr {
            ip: assigned_ip(remote_client_ip, config.net.external_ip),
            port: announced.peer_addr.port,
        },
        ..announced
    })
    &&& upsert_outcome(before, after, config, refusal, info_hash, stored, now, r.stats)
    &&& r.peers@ == peers_for(after.torrents, info_hash, stored.peer_addr, TORRENT_PEERS_LIMIT)
    &&& r.policy == config.announce_policy
}

/// What a scrape at `now` is answered with: an entry for each torrent
/// asked for, and no other, with the counts that a scrape gives of it.
pub open spec fn scrape_outcome(
    state: TrackerState,
    config: Core,
    info_hashes: Seq<InfoHash>,
    now: DurationSinceUnixEpoch,
    files: Map<Seq<u8>, SwarmMetadata>,
) -> bool {
    &&& forall|h: Seq<u8>|
        files.contains_key(h) <==> exists|i: int|
            0 <= i < info_hashes.len() && (#[trigger] info_hashes[i])@ == h
    &&& forall|h: Seq<u8>| #[trigger] files.contains_key(h) ==> files[h] == state.scraped(config, h, now)
}

/// The tracker: the swarms, the keys and the whitelist in memory, over a
/// database that keeps what has to outlast it.
pub struct Tracker<D: Database> {
    config: Core,
    database: D,
    keys: AssocList<Key, Option<DurationSinceUnixEpoch>>,
    whitelist: AssocList<InfoHash, ()>,
    torrents: Torrents,
}

impl<D: Database> View for Tracker<D> {
    type V = TrackerState;

    closed spec fn view(&self) -> TrackerState {
        TrackerState {
            keys: self.keys@,
            whitelist: self.whitelist@.dom(),
            torrents: self.torrents@,
            db: self.database.state(),
        }
    }
}

impl<D: Database> Tracker<D> {
    /// The settings that the tracker was made with.
    pub closed spec fn config(&self) -> Core {
        self.config
    }

    /// Every tracker built through this interface is well formed, and
    /// every operation keeps it so. In a well-formed tracker no info-hash
    /// has two swarms and no swarm has two peers at one address.
    pub closed spec fn wf(&self) -> bool {
        &&& self.database.wf()
        &&& self.keys.wf()
        &&& self.whitelist.wf()
        &&& self.torrents.wf()
    }

    /// In a well-formed tracker no info-hash has two swarms, and no swarm
    /// has two peers at one address.
    pub proof fn law_swarms_are_well_formed(&self)
        requires
            self.wf(),
        ensures
            crate::torrent::distinct_hashes(self@.torrents),
            crate::torrent::all_wf(self@.torrents),
    {
    }

    /// The database of the tracker.
    pub closed spec fn database(&self) -> D {
        self.database
    }

    /// What the database holds is what the tracker shows of it.
    pub proof fn law_view_shows_the_database(&self)
        ensures
            self@.db == self.database().state(),
    {
    }

    /// The error with which the database of the tracker, as it is, answers
    /// an operation that it does not carry out, and nothing where it
    /// carries the operation out.
    pub open spec fn refusal(&self, operation: Operation) -> Option<crate::databases::Error> {
        self.database().refusal(operation)
    }

    /// The error with which putting an info-hash on the whitelist of the
    /// database ends, if it fails: the database is asked whether it holds
    /// the info-hash, and is told to write it where it does not.
    pub open spec fn refuses_to_whitelist(&self, info_hash: Seq<u8>) -> Option<crate::databases::Error> {
        match self.refusal(Operation::IsInfoHashWhitelisted { info_hash }) {
            Some(e) => Some(e),
            None => if self@.db.whitelist.contains(info_hash) {
                None
            } else {
                self.refusal(Operation::AddInfoHashToWhitelist { info_hash })
            },
        }
    }

    /// The error with which taking an info-hash off the whitelist of the
    /// database ends, if it fails: the database is asked whether it holds
    /// the info-hash, and is told to delete it where it does.
    pub open spec fn refuses_to_unwhitelist(&self, info_hash: Seq<u8>) -> Option<crate::databases::Error> {
        match self.refusal(Operation::IsInfoHashWhitelisted { info_hash }) {
            Some(e) => Some(e),
            None => if self@.db.whitelist.contains(info_hash) {
                self.refusal(Operation::RemoveInfoHashFromWhitelist { info_hash })
            } else {
                None
            },
        }
    }

    /// How writing a key ends, from this tracker: where the database
    /// refuses, with its error and nothing changed; else with the key and
    /// its time, both written to the database and to memory.
    pub open spec fn key_written(
        &self,
        after: TrackerState,
        key: Seq<char>,
        valid_until: Option<DurationSinceUnixEpoch>,
        r: Result<PeerKey, crate::databases::Error>,
    ) -> bool {
        match self.refusal(Operation::AddKeyToKeys { key, valid_until }) {
            Some(e) => r == Err::<PeerKey, crate::databases::Error>(e) && after == self@,
            None => {
                &&& r matches Ok(peer_key) && peer_key.key@ == key && peer_key.valid_until
                    == valid_until
                &&& after == self@.with_key(key, valid_until)
            },
        }
    }

    /// How writing a key on request ends, from this tracker: as writing a
    /// key does, with the error of the database handed on as the cause.
    pub open spec fn peer_key_written(
        &self,
        after: TrackerState,
        key: Seq<char>,
        valid_until: Option<DurationSinceUnixEpoch>,
        r: Result<PeerKey, PeerKeyError>,
    ) -> bool {
        match self.refusal(Operation::AddKeyToKeys { key, valid_until }) {
            Some(e) => r == Err::<PeerKey, PeerKeyError>(PeerKeyError::DatabaseError { source: e })
                && after == self@,
            None => {
                &&& r matches Ok(peer_key) && peer_key.key@ == key && peer_key.valid_until
                    == valid_until
                &&& after == self@.with_key(key, valid_until)
            },
        }
    }

    /// What adding a key at `now` leads to, from this tracker: the state
    /// `after` and the answer `r`.
    ///
    /// With a key given: where the text is no key, the answer is
    /// `InvalidKey`; else, where a number of seconds is given and `now`
    /// plus these cannot be held, it is `DurationOverflow`; else the key is
    /// written with its time, unless the database refuses. Without a key, one is drawn
    /// at random and written, unless the database refuses. Every failure
    /// leaves the state as it was.
    pub open spec fn add_peer_key_outcome(
        &self,
        after: TrackerState,
        opt_key: Option<String>,
        opt_seconds_valid: Option<u64>,
        now: DurationSinceUnixEpoch,
        r: Result<PeerKey, PeerKeyError>,
    ) -> bool {
        match opt_key {
            Some(text) => {
                let until = match opt_seconds_valid {
                    Some(seconds) => DurationSinceUnixEpoch::held(
                        now.total_nanos() + seconds * 1_000_000_000,
                    ),
                    None => None,
                };
                if !crate::auth::valid_key(text@) {
                    &&& after == self@
                    &&& r == Err::<PeerKey, PeerKeyError>(
                        PeerKeyError::InvalidKey { key: text, source: parse_error(text@) },
                    )
                } else if opt_seconds_valid is Some && until is None {
                    &&& after == self@
                    &&& r == Err::<PeerKey, PeerKeyError>(
                        PeerKeyError::DurationOverflow { seconds_valid: opt_seconds_valid.unwrap() },
                    )
                } else {
                    self.peer_key_written(after, text@, until, r)
                }
            },
            None => exists|key: Seq<char>|
                crate::auth::valid_key(key) && #[trigger] self.peer_key_written(
                    after,
                    key,
                    crate::auth::spec_valid_until(lifetime_of(opt_seconds_valid), now),
                    r,
                ),
        }
    }

    /// A tracker without swarms, keys or whitelist, over `database`.
    pub fn new(config: &Core, database: D) -> (r: Self)
        requires
            database.wf(),
        ensures
            r.wf(),
            r.config() == *config,
            r.database() == database,
            r@ == (TrackerState {
                keys: Map::empty(),
                whitelist: Set::empty(),
                torrents: Seq::empty(),
                db: database.state(),
            }),
    {
        let r = Tracker {
            config: *config,
            database,
            keys: AssocList::new(),
            whitelist: AssocList::new(),
            torrents: Torrents::new(),
        };
        r
    }

    /// Gives the database back, as at the end of a run.
    pub fn into_database(self) -> (r: D)
        requires
            self.wf(),
        ensures
            r.wf(),
            r == self.database(),
            r.state() == self@.db,
    {
        self.database
    }

    /// Whether the tracker serves every client.
    pub fn is_public(&self) -> (r: bool)
        ensures
            r == !self.config().private,
    {
        !self.config.private
    }

    /// Whether the tracker asks for a key.
    pub fn is_private(&self) -> (r: bool)
        ensures
            r == self.config().private,
    {
        self.config.private
    }

    /// Whether the tracker serves whitelisted torrents only.
    pub fn is_listed(&self) -> (r: bool)
        ensures
            r == self.config().listed,
    {
        self.config.listed
    }

    /// Whether the tracker asks for a key.
    pub fn requires_authentication(&self) -> (r: bool)
        ensures
            r == self.config().private,
    {
        self.is_private()
    }

    /// Whether requests come through a reverse proxy.
    pub fn is_behind_reverse_proxy(&self) -> (r: bool)
        ensures
            r == self.config().net.on_reverse_proxy,
    {
        self.config.net.on_reverse_proxy
    }

    pub fn get_announce_policy(&self) -> (r: AnnouncePolicy)
        ensures
            r == self.config().announce_policy,
    {
        self.config.announce_policy
    }

    pub fn get_maybe_external_ip(&self) -> (r: Option<IpAddr>)
        ensures
            r == self.config().net.external_ip,
    {
        self.config.net.external_ip
    }

    /// Whether the info-hash is on the whitelist in memory.
    pub fn is_info_hash_whitelisted(&self, info_hash: &InfoHash) -> (r: bool)
        requires
            self.wf(),
        ensures
            r == self@.whitelist.contains(info_hash@),
    {
        self.whitelist.contains_key(info_hash)
    }

    /// Serves a request for the torrent, or refuses it.
    pub fn authorize(&self, info_hash: &InfoHash) -> (r: Result<(), Error>)
        requires
            self.wf(),
        ensures
            r == if self@.authorizes(self.config(), info_hash@) {
                Ok::<(), Error>(())
            } else {
                Err::<(), Error>(Error::TorrentNotWhitelisted { info_hash: *info_hash })
            },
    {
        if !self.is_listed() {
            return Ok(());
        }
        if self.is_info_hash_whitelisted(info_hash) {
            return Ok(());
        }
        Err(Error::TorrentNotWhitelisted { info_hash: *info_hash })
    }

    /// Puts the info-hash on the whitelist in memory. The result says
    /// whether it was not there before.
    pub fn add_torrent_to_memory_whitelist(&mut self, info_hash: &InfoHash) -> (r: bool)
        requires
            old(self).wf(),
        ensures
            final(self).wf(),
            final(self).config() == old(self).config(),
            final(self)@ == (TrackerState {
                whitelist: old(self)@.whitelist.insert(info_hash@),
                ..old(self)@
            }),
            r == !old(self)@.whitelist.contains(info_hash@),
    {
        let previous = self.whitelist.insert(*info_hash, ());
        previous.is_none()
    }

    /// Takes the info-hash off the whitelist in memory. The result says
    /// whether it was there.
    pub fn remove_torrent_from_memory_whitelist(&mut self, info_hash: &InfoHash) -> (r: bool)
        requires
            old(self).wf(),
        ensures
            final(self).wf(),
            final(self).config() == old(self).config(),
            final(self)@ == (TrackerState {
                whitelist: old(self)@.whitelist.remove(info_hash@),
                ..old(self)@
            }),
            r == old(self)@.whitelist.contains(info_hash@),
    {
        let previous = self.whitelist.remove(info_hash);
        previous.is_some()
    }

    /// Puts the info-hash on the whitelist in the database, unless it is
    /// there already.
    pub fn add_torrent_to_database_whitelist(&mut self, info_hash: &InfoHash) -> (r: Result<
        (),
        crate::databases::Error,
    >)
        requires
            old(self).wf(),
        ensures
            final(self).wf(),
            final(self).config() == old(self).config(),
            match old(self).refuses_to_whitelist(info_hash@) {
                Some(e) => r == Err::<(), crate::databases::Error>(e) && final(self)@ == old(self)@,
                None => r == Ok::<(), crate::databases::Error>(()) && final(self)@ == (TrackerState {
                    db: old(self)@.db.after(Operation::AddInfoHashToWhitelist { info_hash: info_hash@ }),
                    ..old(self)@
                }),
            },
    {
        let is_whitelisted = match self.database.is_info_hash_whitelisted(*info_hash) {
            Ok(listed) => listed,
            Err(e) => {
                return Err(e);
            },
        };
        if is_whitelisted {
            assert(self@.db.whitelist.insert(info_hash@) =~= self@.db.whitelist);
            return Ok(());
        }
        match self.database.add_info_hash_to_whitelist(*info_hash) {
            Ok(_) => Ok(()),
            Err(e) => Err(e),
        }
    }

    /// Takes the info-hash off the whitelist in the database, unless it is
    /// not there.
    pub fn remove_torrent_from_database_whitelist(&mut self, info_hash: &InfoHash) -> (r: Result<
        (),
        crate::databases::Error,
    >)
        requires
            old(self).wf(),
        ensures
            final(self).wf(),
            final(self).config() == old(self).config(),
            match old(self).refuses_to_unwhitelist(info_hash@) {
                Some(e) => r == Err::<(), crate::databases::Error>(e) && final(self)@ == old(self)@,
                None => r == Ok::<(), crate::databases::Error>(()) && final(self)@ == (TrackerState {
                    db: old(self)@.db.after(
                        Operation::RemoveInfoHashFromWhitelist { info_hash: info_hash@ },
                    ),
                    ..old(self)@
                }),
            },
    {
        let is_whitelisted = match self.database.is_info_hash_whitelisted(*info_hash) {
            Ok(listed) => listed,
            Err(e) => {
                return Err(e);
            },
        };
        if !is_whitelisted {
            assert(self@.db.whitelist.remove(info_hash@) =~= self@.db.whitelist);
            return Ok(());
        }
        match self.database.remove_info_hash_from_whitelist(*info_hash) {
            Ok(_) => Ok(()),
            Err(e) => Err(e),
        }
    }

    /// Puts the info-hash on the whitelist, in the database and then in
    /// memory. Where the database fails, nothing changes.
    pub fn add_torrent_to_whitelist(&mut self, info_hash: &InfoHash) -> (r: Result<
        (),
        crate::databases::Error,
    >)
        requires
            old(self).wf(),
        ensures
            final(self).wf(),
            final(self).config() == old(self).config(),
            match old(self).refuses_to_whitelist(info_hash@) {
                Some(e) => r == Err::<(), crate::databases::Error>(e) && final(self)@ == old(self)@,
                None => r == Ok::<(), crate::databases::Error>(()) && final(self)@
                    == old(self)@.with_whitelisted(info_hash@),
            },
    {
        match self.add_torrent_to_database_whitelist(info_hash) {
            Ok(_) => {},
            Err(e) => {
                return Err(e);
            },
        }
        let added = self.add_torrent_to_memory_whitelist(info_hash);
        Ok(())
    }

    /// Takes the info-hash off the whitelist, in the database and then in
    /// memory. Where the database fails, nothing changes.
    pub fn remove_torrent_from_whitelist(&mut self, info_hash: &InfoHash) -> (r: Result<
        (),
        crate::databases::Error,
    >)
        requires
            old(self).wf(),
        ensures
            final(self).wf(),
            final(self).config() == old(self).config(),
            match old(self).refuses_to_unwhitelist(info_hash@) {
                Some(e) => r == Err::<(), crate::databases::Error>(e) && final(self)@ == old(self)@,
                None => r == Ok::<(), crate::databases::Error>(()) && final(self)@
                    == old(self)@.without_whitelisted(info_hash@),
            },
    {
        match self.remove_torrent_from_database_whitelist(info_hash) {
            Ok(_) => {},
            Err(e) => {
                return Err(e);
            },
        }
        let removed = self.remove_torrent_from_memory_whitelist(info_hash);
        Ok(())
    }

    /// Puts the whitelist of the database in place of the one in memory.
    pub fn load_whitelist_from_database(&mut self) -> (r: Result<(), crate::databases::Error>)
        requires
            old(self).wf(),
        ensures
            final(self).wf(),
            final(self).config() == old(self).config(),
            final(self).database() == old(self).database(),
            match old(self).refusal(Operation::LoadWhitelist) {
                Some(e) => r == Err::<(), crate::databases::Error>(e) && final(self)@ == old(self)@,
                None => r == Ok::<(), crate::databases::Error>(()) && final(self)@
                    == old(self)@.with_whitelist_loaded(),
            },
    {
        let whitelisted_torrents_from_database = match self.database.load_whitelist() {
            Ok(list) => list,
            Err(e) => {
                return Err(e);
            },
        };
        self.whitelist.clear();
        let mut k: usize = 0;
        while k < whitelisted_torrents_from_database.len()
            invariant
                k <= whitelisted_torrents_from_database.len(),
                self.config == old(self).config,
                self.database == old(self).database,
                self.keys == old(self).keys,
                self.torrents == old(self).torrents,
                old(self).wf(),
                crate::databases::hashes_match(
                    whitelisted_torrents_from_database@,
                    old(self)@.db.whitelist,
                ),
                self.whitelist.wf(),
                forall|h: Seq<u8>|
                    self.whitelist@.contains_key(h) <==> exists|i: int|
                        0 <= i < k && (#[trigger] whitelisted_torrents_from_database@[i])@ == h,
            decreases whitelisted_torrents_from_database.len() - k,
        {
            let info_hash = whitelisted_torrents_from_database[k];
            let previous = self.whitelist.insert(info_hash, ());
            k += 1;
        }
        assert(self.whitelist@.dom() =~= old(self)@.db.whitelist);
        Ok(())
    }

    /// Looks a key up, as at the time `now`.
    pub fn verify_auth_key_at(&self, key: &Key, now: DurationSinceUnixEpoch) -> (r: Result<
        (),
        crate::auth::Error,
    >)
        requires
            self.wf(),
        ensures
            crate::auth::answers(
                r,
                crate::auth::verdict(self@.keys, self.config().checks_keys_expiration(), key@, now),
                key@,
            ),
    {
        match self.keys.get(key) {
            None => Err(crate::auth::Error::UnableToReadKey { key: key.clone() }),
            Some(valid_until) => {
                if self.config.checks_keys_expiration() {
                    crate::auth::verify_key_expiration(*valid_until, now)
                } else {
                    Ok(())
                }
            },
        }
    }

    /// Looks a key up, as at the time of the system clock.
    pub fn verify_auth_key(&self, key: &Key) -> (r: Result<(), crate::auth::Error>)
        requires
            self.wf(),
        ensures
            exists|now: DurationSinceUnixEpoch|
                crate::auth::answers(
                    r,
                    #[trigger] crate::auth::verdict(
                        self@.keys,
                        self.config().checks_keys_expiration(),
                        key@,
                        now,
                    ),
                    key@,
                ),
    {
        let now = crate::clock::now();
        self.verify_auth_key_at(key, now)
    }

    /// Lets a client with the key in, as at the time `now`. A public
    /// tracker lets everyone in.
    pub fn authenticate_at(&self, key: &Key, now: DurationSinceUnixEpoch) -> (r: Result<
        (),
        crate::auth::Error,
    >)
        requires
            self.wf(),
        ensures
            if self.config().private {
                crate::auth::answers(
                    r,
                    crate::auth::verdict(
                        self@.keys,
                        self.config().checks_keys_expiration(),
                        key@,
                        now,
                    ),
                    key@,
                )
            } else {
                r is Ok
            },
    {
        if self.is_private() {
            self.verify_auth_key_at(key, now)
        } else {
            Ok(())
        }
    }

    /// Lets a client with the key in, as at the time of the system clock.
    pub fn authenticate(&self, key: &Key) -> (r: Result<(), crate::auth::Error>)
        requires
            self.wf(),
        ensures
            if self.config().private {
                exists|now: DurationSinceUnixEpoch|
                    crate::auth::answers(
                        r,
                        #[trigger] crate::auth::verdict(
                            self@.keys,
                            self.config().checks_keys_expiration(),
                            key@,
                            now,
                        ),
                        key@,
                    )
            } else {
                r is Ok
            },
    {
        let now = crate::clock::now();
        self.authenticate_at(key, now)
    }

    /// Writes a key with the time until which it is valid, to the
    /// database and then to memory. Where the database fails, nothing
    /// changes.
    pub fn add_auth_key(&mut self, key: Key, valid_until: Option<DurationSinceUnixEpoch>) -> (r: Result<
        PeerKey,
        crate::databases::Error,
    >)
        requires
            old(self).wf(),
        ensures
            final(self).wf(),
            final(self).config() == old(self).config(),
            old(self).key_written(final(self)@, key@, valid_until, r),
    {
        let auth_key = PeerKey { key, valid_until };
        match self.database.add_key_to_keys(&auth_key) {
            Ok(_) => {},
            Err(e) => {
                return Err(e);
            },
        }
        let previous = self.keys.insert(auth_key.key.clone(), auth_key.valid_until);
        Ok(auth_key)
    }

    /// Writes a key that does not expire.
    pub fn add_permanent_auth_key(&mut self, key: Key) -> (r: Result<PeerKey, crate::databases::Error>)
        requires
            old(self).wf(),
        ensures
            final(self).wf(),
            final(self).config() == old(self).config(),
            old(self).key_written(final(self)@, key@, None, r),
    {
        self.add_auth_key(key, None)
    }

    /// Draws a key at random and writes it, valid for `lifetime` from
    /// `now` on, or permanent where no lifetime is given.
    pub fn generate_auth_key_at(
        &mut self,
        lifetime: Option<DurationSinceUnixEpoch>,
        now: DurationSinceUnixEpoch,
    ) -> (r: Result<PeerKey, crate::databases::Error>)
        requires
            old(self).wf(),
        ensures
            final(self).wf(),
            final(self).config() == old(self).config(),
            exists|key: Seq<char>|
                crate::auth::valid_key(key) && #[trigger] old(self).key_written(
                    final(self)@,
                    key,
                    crate::auth::spec_valid_until(lifetime, now),
                    r,
                ),
    {
        let key = Key::random();
        self.add_auth_key(key, crate::auth::valid_until(lifetime, now))
    }

    /// Draws a key at random and writes it, valid for `lifetime` from the
    /// time of the system clock on, or permanent where no lifetime is
    /// given.
    pub fn generate_auth_key(&mut self, lifetime: Option<DurationSinceUnixEpoch>) -> (r: Result<
        PeerKey,
        crate::databases::Error,
    >)
        requires
            old(self).wf(),
        ensures
            final(self).wf(),
            final(self).config() == old(self).config(),
            exists|key: Seq<char>, now: DurationSinceUnixEpoch|
                crate::auth::valid_key(key) && #[trigger] old(self).key_written(
                    final(self)@,
                    key,
                    crate::auth::spec_valid_until(lifetime, now),
                    r,
                ),
    {
        let now = crate::clock::now();
        self.generate_auth_key_at(lifetime, now)
    }

    /// Draws a key at random and writes it as one that does not expire.
    pub fn generate_permanent_auth_key(&mut self) -> (r: Result<PeerKey, crate::databases::Error>)
        requires
            old(self).wf(),
        ensures
            final(self).wf(),
            final(self).config() == old(self).config(),
            exists|key: Seq<char>|
                crate::auth::valid_key(key) && #[trigger] old(self).key_written(
                    final(self)@,
                    key,
                    None,
                    r,
                ),
    {
        let key = Key::random();
        self.add_auth_key(key, None)
    }

    /// Deletes a key, in the database and then in memory. Where the
    /// database fails, nothing changes.
    pub fn remove_auth_key(&mut self, key: &Key) -> (r: Result<(), crate::databases::Error>)
        requires
            old(self).wf(),
        ensures
            final(self).wf(),
            final(self).config() == old(self).config(),
            match old(self).refusal(Operation::RemoveKeyFromKeys { key: key@ }) {
                Some(e) => r == Err::<(), crate::databases::Error>(e) && final(self)@ == old(self)@,
                None => r == Ok::<(), crate::databases::Error>(()) && final(self)@
                    == old(self)@.without_key(key@),
            },
    {
        match self.database.remove_key_from_keys(key) {
            Ok(_) => {},
            Err(e) => {
                return Err(e);
            },
        }
        let previous = self.keys.remove(key);
        Ok(())
    }

    /// Puts the keys of the database in place of those in memory.
    pub fn load_keys_from_database(&mut self) -> (r: Result<(), crate::databases::Error>)
        requires
            old(self).wf(),
        ensures
            final(self).wf(),
            final(self).config() == old(self).config(),
            final(self).database() == old(self).database(),
            match old(self).refusal(Operation::LoadKeys) {
                Some(e) => r == Err::<(), crate::databases::Error>(e) && final(self)@ == old(self)@,
                None => r == Ok::<(), crate::databases::Error>(()) && final(self)@
                    == old(self)@.with_keys_loaded(),
            },
    {
        let keys_from_database = match self.database.load_keys() {
            Ok(list) => list,
            Err(e) => {
                return Err(e);
            },
        };
        self.keys.clear();
        let mut k: usize = 0;
        while k < keys_from_database.len()
            invariant
                k <= keys_from_database.len(),
                self.config == old(self).config,
                self.database == old(self).database,
                self.whitelist == old(self).whitelist,
                self.torrents == old(self).torrents,
                old(self).wf(),
                crate::databases::keys_match(keys_from_database@, old(self)@.db.keys),
                self.keys.wf(),
                forall|id: Seq<char>|
                    self.keys@.contains_key(id) <==> exists|i: int|
                        0 <= i < k && (#[trigger] keys_from_database@[i]).key@ == id,
                forall|id: Seq<char>| #[trigger]
                    self.keys@.contains_key(id) ==> self.keys@[id] == old(self)@.db.keys[id],
            decreases keys_from_database.len() - k,
        {
            let key = keys_from_database[k].key.clone();
            let valid_until = keys_from_database[k].valid_until;
            let previous = self.keys.insert(key, valid_until);
            k += 1;
        }
        assert(self.keys@ =~= old(self)@.db.keys);
        Ok(())
    }

    /// Adds a key, as at the time `now`: the one given or one drawn at
    /// random, valid for the seconds given or permanent.
    pub fn add_peer_key_at(&mut self, add_key_req: AddKeyRequest, now: DurationSinceUnixEpoch) -> (r:
        Result<PeerKey, PeerKeyError>)
        requires
            old(self).wf(),
        ensures
            final(self).wf(),
            final(self).config() == old(self).config(),
            old(self).add_peer_key_outcome(
                final(self)@,
                add_key_req.opt_key,
                add_key_req.opt_seconds_valid,
                now,
                r,
            ),
    {
        match add_key_req.opt_key {
            Some(pre_existing_key) => {
                let key = match Key::new(pre_existing_key.as_str()) {
                    Ok(key) => key,
                    Err(err) => {
                        return Err(PeerKeyError::InvalidKey { key: pre_existing_key, source: err });
                    },
                };
                let valid_until = match add_key_req.opt_seconds_valid {
                    Some(seconds_valid) => {
                        match crate::clock::add_seconds(&now, seconds_valid) {
                            Some(valid_until) => Some(valid_until),
                            None => {
                                return Err(PeerKeyError::DurationOverflow { seconds_valid });
                            },
                        }
                    },
                    None => None,
                };
                match self.add_auth_key(key, valid_until) {
                    Ok(auth_key) => Ok(auth_key),
                    Err(err) => Err(PeerKeyError::DatabaseError { source: err }),
                }
            },
            None => {
                let lifetime = match add_key_req.opt_seconds_valid {
                    Some(seconds_valid) => Some(DurationSinceUnixEpoch::from_secs(seconds_valid)),
                    None => None,
                };
                let generated = self.generate_auth_key_at(lifetime, now);
                let ghost until = crate::auth::spec_valid_until(lifetime, now);
                let ghost key = choose|key: Seq<char>|
                    crate::auth::valid_key(key) && #[trigger] old(self).key_written(
                        self@,
                        key,
                        until,
                        generated,
                    );
                let r = match generated {
                    Ok(auth_key) => Ok(auth_key),
                    Err(err) => Err(PeerKeyError::DatabaseError { source: err }),
                };
                assert(old(self).peer_key_written(self@, key, until, r));
                r
            },
        }
    }

    /// Adds a key, as at the time of the system clock.
    pub fn add_peer_key(&mut self, add_key_req: AddKeyRequest) -> (r: Result<PeerKey, PeerKeyError>)
        requires
            old(self).wf(),
        ensures
            final(self).wf(),
            final(self).config() == old(self).config(),
            exists|now: DurationSinceUnixEpoch| #[trigger]
                old(self).add_peer_key_outcome(
                    final(self)@,
                    add_key_req.opt_key,
                    add_key_req.opt_seconds_valid,
                    now,
                    r,
                ),
    {
        let now = crate::clock::now();
        self.add_peer_key_at(add_key_req, now)
    }

    /// The swarms.
    pub fn torrents(&self) -> (r: &Torrents)
        requires
            self.wf(),
        ensures
            r.wf(),
            r@ == self@.torrents,
    {
        &self.torrents
    }

    /// The counts of a torrent as of `now`: those of its swarm, and zeros
    /// where it has none.
    pub fn get_swarm_metadata_at(&self, info_hash: &InfoHash, now: DurationSinceUnixEpoch) -> (r:
        SwarmMetadata)
        requires
            self.wf(),
        ensures
            r == crate::torrent::metadata_of(
                self@.torrents,
                info_hash@,
                active_since(self.config(), now),
            ),
    {
        let cutoff = crate::clock::cutoff(now, self.config.tracker_policy.max_peer_timeout);
        match self.torrents.get(info_hash) {
            Some(torrent_entry) => torrent_entry.get_swarm_metadata(cutoff),
            None => SwarmMetadata::default(),
        }
    }

    /// The counts of a torrent as of the time of the system clock.
    pub fn get_swarm_metadata(&self, info_hash: &InfoHash) -> (r: SwarmMetadata)
        requires
            self.wf(),
        ensures
            exists|now: DurationSinceUnixEpoch|
                r == crate::torrent::metadata_of(
                    self@.torrents,
                    info_hash@,
                    #[trigger] active_since(self.config(), now),
                ),
            r.downloaded == crate::torrent::swarm_or_new(self@.torrents, info_hash@).downloaded,
    {
        let now = crate::clock::now();
        self.get_swarm_metadata_at(info_hash, now)
    }

    /// The peers of a torrent for the client `peer`: at most 74, and none
    /// at the client's own address.
    pub fn get_peers_for(&self, info_hash: &InfoHash, peer: &Peer, limit: usize) -> (r: Vec<Peer>)
        requires
            self.wf(),
        ensures
            r@ == peers_for(self@.torrents, info_hash@, peer.peer_addr, spec_peers_limit(limit)),
            r@.len() <= TORRENT_PEERS_LIMIT,
            forall|i: int| 0 <= i < r@.len() ==> (#[trigger] r@[i]).peer_addr != peer.peer_addr,
    {
        match self.torrents.get(info_hash) {
            None => Vec::new(),
            Some(entry) => {
                proof {
                    crate::swarm::lemma_peers_for_client(
                        entry@,
                        peer.peer_addr,
                        Some(spec_peers_limit(limit)),
                    );
                }
                entry.get_peers_for_client(&peer.peer_addr, Some(peers_limit(limit)))
            },
        }
    }

    /// The first 74 peers of a torrent.
    pub fn get_torrent_peers(&self, info_hash: &InfoHash) -> (r: Vec<Peer>)
        requires
            self.wf(),
        ensures
            r@ == match crate::torrent::swarm_of(self@.torrents, info_hash@) {
                Some(swarm) => crate::swarm::up_to(swarm.peers, Some(TORRENT_PEERS_LIMIT)),
                None => Seq::empty(),
            },
    {
        match self.torrents.get(info_hash) {
            None => Vec::new(),
            Some(entry) => entry.get_peers(Some(TORRENT_PEERS_LIMIT)),
        }
    }

    /// Writes the completed downloads of a torrent to the database, where
    /// the tracker is set to do so. A write that fails is passed over.
    fn persist_stats(&mut self, info_hash: &InfoHash, swarm_metadata: &SwarmMetadata)
        requires
            old(self).wf(),
        ensures
            final(self).wf(),
            final(self).config() == old(self).config(),
            final(self)@ == (TrackerState { db: final(self)@.db, ..old(self)@ }),
            persisted(
                old(self)@.db,
                final(self)@.db,
                old(self).config().tracker_policy.persistent_torrent_completed_stat,
                old(self).refusal(
                    Operation::SavePersistentTorrent {
                        info_hash: info_hash@,
                        downloaded: swarm_metadata.downloaded,
                    },
                ),
                info_hash@,
                swarm_metadata.downloaded,
            ),
    {
        if self.config.tracker_policy.persistent_torrent_completed_stat {
            let completed = swarm_metadata.downloaded;
            let written = self.database.save_persistent_torrent(info_hash, completed);
        }
    }

    /// Takes in an announce of `peer` for a torrent at `now` and gives the
    /// counts of the swarm after it. Where the counts changed, the
    /// completed downloads are written to the database, if the tracker is
    /// set to do so.
    pub fn upsert_peer_and_get_stats_at(
        &mut self,
        info_hash: &InfoHash,
        peer: &Peer,
        now: DurationSinceUnixEpoch,
    ) -> (r: SwarmMetadata)
        requires
            old(self).wf(),
        ensures
            final(self).wf(),
            final(self).config() == old(self).config(),
            upsert_outcome(
                old(self)@,
                final(self)@,
                old(self).config(),
                old(self).refusal(
                    Operation::SavePersistentTorrent { info_hash: info_hash@, downloaded: r.downloaded },
                ),
                info_hash@,
                *peer,
                now,
                r,
            ),
            r.downloaded >= crate::torrent::swarm_or_new(old(self)@.torrents, info_hash@).downloaded,
    {
        let cutoff = crate::clock::cutoff(now, self.config.tracker_policy.max_peer_timeout);
        let swarm_metadata_before = match self.torrents.get_swarm_metadata(info_hash, cutoff) {
            Some(swarm_metadata) => swarm_metadata,
            None => SwarmMetadata::zeroed(),
        };
        let counted = self.torrents.upsert_peer(info_hash, peer);
        proof {
            crate::torrent::lemma_with_announce(old(self)@.torrents, info_hash@, *peer);
        }
        let swarm_metadata_after = match self.torrents.get_swarm_metadata(info_hash, cutoff) {
            Some(swarm_metadata) => swarm_metadata,
            None => SwarmMetadata::zeroed(),
        };
        if swarm_metadata_before != swarm_metadata_after {
            self.persist_stats(info_hash, &swarm_metadata_after);
        }
        swarm_metadata_after
    }

    /// Takes in an announce of `peer` for a torrent at the time of the
    /// system clock and gives the counts of the swarm after it.
    pub fn upsert_peer_and_get_stats(&mut self, info_hash: &InfoHash, peer: &Peer) -> (r: SwarmMetadata)
        requires
            old(self).wf(),
        ensures
            final(self).wf(),
            final(self).config() == old(self).config(),
            exists|now: DurationSinceUnixEpoch| #[trigger]
                upsert_outcome(
                old(self)@,
                final(self)@,
                old(self).config(),
                old(self).refusal(
                    Operation::SavePersistentTorrent { info_hash: info_hash@, downloaded: r.downloaded },
                ),
                info_hash@,
                *peer,
                now,
                r,
            ),
            r.downloaded >= crate::torrent::swarm_or_new(old(self)@.torrents, info_hash@).downloaded,
    {
        let now = crate::clock::now();
        self.upsert_peer_and_get_stats_at(info_hash, peer, now)
    }

    /// Handles an announce at `now`: the peer is stored under the address
    /// that the tracker assigns to it, and the answer holds the counts of
    /// the swarm and at most 74 of its other peers.
    pub fn announce_at(
        &mut self,
        info_hash: &InfoHash,
        peer: &mut Peer,
        remote_client_ip: &IpAddr,
        peers_wanted: &PeersWanted,
        now: DurationSinceUnixEpoch,
    ) -> (r: AnnounceData)
        requires
            old(self).wf(),
        ensures
            final(self).wf(),
            final(self).config() == old(self).config(),
            announce_outcome(
                old(self)@,
                final(self)@,
                old(self).config(),
                old(self).refusal(
                    Operation::SavePersistentTorrent {
                        info_hash: info_hash@,
                        downloaded: r.stats.downloaded,
                    },
                ),
                info_hash@,
                *old(peer),
                *final(peer),
                *remote_client_ip,
                now,
                r,
            ),
            r.stats.downloaded >= crate::torrent::swarm_or_new(
                old(self)@.torrents,
                info_hash@,
            ).downloaded,
            r.peers@.len() <= TORRENT_PEERS_LIMIT,
            forall|i: int|
                0 <= i < r.peers@.len() ==> (#[trigger] r.peers@[i]).peer_addr != final(peer).peer_addr,
    {
        peer.change_ip(&assign_ip_address_to_peer(remote_client_ip, self.config.net.external_ip));
        let stats = self.upsert_peer_and_get_stats_at(info_hash, peer, now);
        let peers = self.get_peers_for(info_hash, peer, peers_wanted.limit());
        AnnounceData { peers, stats, policy: self.get_announce_policy() }
    }

    /// Handles an announce at the time of the system clock.
    pub fn announce(
        &mut self,
        info_hash: &InfoHash,
        peer: &mut Peer,
        remote_client_ip: &IpAddr,
        peers_wanted: &PeersWanted,
    ) -> (r: AnnounceData)
        requires
            old(self).wf(),
        ensures
            final(self).wf(),
            final(self).config() == old(self).config(),
            exists|now: DurationSinceUnixEpoch| #[trigger]
                announce_outcome(
                    old(self)@,
                    final(self)@,
                    old(self).config(),
                    old(self).refusal(
                    Operation::SavePersistentTorrent {
                        info_hash: info_hash@,
                        downloaded: r.stats.downloaded,
                    },
                ),
                    info_hash@,
                    *old(peer),
                    *final(peer),
                    *remote_client_ip,
                    now,
                    r,
                ),
            r.stats.downloaded >= crate::torrent::swarm_or_new(
                old(self)@.torrents,
                info_hash@,
            ).downloaded,
            r.peers@.len() <= TORRENT_PEERS_LIMIT,
            forall|i: int|
                0 <= i < r.peers@.len() ==> (#[trigger] r.peers@[i]).peer_addr != final(peer).peer_addr,
    {
        let now = crate::clock::now();
        self.announce_at(info_hash, peer, remote_client_ip, peers_wanted, now)
    }

    /// Handles a scrape at `now`: the answer holds, for each torrent asked
    /// for, the counts of its swarm, or zeros where the tracker does not
    /// serve the torrent or has no swarm for it.
    pub fn scrape_at(&self, info_hashes: &Vec<InfoHash>, now: DurationSinceUnixEpoch) -> (r: ScrapeData)
        requires
            self.wf(),
        ensures
            r.wf(),
            scrape_outcome(self@, self.config(), info_hashes@, now, r@),
    {
        let mut scrape_data = ScrapeData::empty();
        let mut k: usize = 0;
        while k < info_hashes.len()
            invariant
                k <= info_hashes.len(),
                self.wf(),
                scrape_data.wf(),
                forall|h: Seq<u8>|
                    scrape_data@.contains_key(h) <==> exists|i: int|
                        0 <= i < k && (#[trigger] info_hashes@[i])@ == h,
                forall|h: Seq<u8>| #[trigger]
                    scrape_data@.contains_key(h) ==> scrape_data@[h] == self@.scraped(
                        self.config(),
                        h,
                        now,
                    ),
            decreases info_hashes.len() - k,
        {
            let info_hash = &info_hashes[k];
            let swarm_metadata = match self.authorize(info_hash) {
                Ok(_) => self.get_swarm_metadata_at(info_hash, now),
                Err(_) => SwarmMetadata::zeroed(),
            };
            scrape_data.add_file(info_hash, swarm_metadata);
            k += 1;
        }
        scrape_data
    }

    /// Handles a scrape at the time of the system clock.
    pub fn scrape(&self, info_hashes: &Vec<InfoHash>) -> (r: ScrapeData)
        requires
            self.wf(),
        ensures
            r.wf(),
            exists|now: DurationSinceUnixEpoch| #[trigger]
                scrape_outcome(self@, self.config(), info_hashes@, now, r@),
    {
        let now = crate::clock::now();
        self.scrape_at(info_hashes, now)
    }

    /// The counts of all swarms together, as of `now`.
    pub fn get_torrents_metrics_at(&self, now: DurationSinceUnixEpoch) -> (r: TorrentsMetrics)
        requires
            self.wf(),
        ensures
            r == crate::torrent::metrics_of(self@.torrents, active_since(self.config(), now)),
    {
        let cutoff = crate::clock::cutoff(now, self.config.tracker_policy.max_peer_timeout);
        self.torrents.get_metrics(cutoff)
    }

    /// The counts of all swarms together, as of the time of the system
    /// clock.
    pub fn get_torrents_metrics(&self) -> (r: TorrentsMetrics)
        requires
            self.wf(),
        ensures
            exists|now: DurationSinceUnixEpoch|
                r == crate::torrent::metrics_of(
                    self@.torrents,
                    #[trigger] active_since(self.config(), now),
                ),
    {
        let now = crate::clock::now();
        self.get_torrents_metrics_at(now)
    }

    /// Takes in the completed downloads that the database holds: each
    /// becomes the counter of its swarm. No peer comes or goes.
    pub fn load_torrents_from_database(&mut self) -> (r: Result<(), crate::databases::Error>)
        requires
            old(self).wf(),
        ensures
            final(self).wf(),
            final(self).config() == old(self).config(),
            final(self).database() == old(self).database(),
            match old(self).refusal(Operation::LoadPersistentTorrents) {
                Some(e) => r == Err::<(), crate::databases::Error>(e) && final(self)@ == old(self)@,
                None => {
                    &&& r == Ok::<(), crate::databases::Error>(())
                    &&& exists|records: Seq<(InfoHash, u32)>|
                        {
                            &&& crate::databases::records_match(records, old(self)@.db.torrents)
                            &&& final(self)@ == #[trigger] old(self)@.with_torrents_loaded(records)
                        }
                },
            },
    {
        let persistent_torrents = match self.database.load_persistent_torrents() {
            Ok(records) => records,
            Err(e) => {
                return Err(e);
            },
        };
        self.torrents.import_persistent(&persistent_torrents);
        proof {
            let records = persistent_torrents@;
            assert(self@ == old(self)@.with_torrents_loaded(records));
        }
        Ok(())
    }

    /// Drops the peers that announced last more than the peer timeout
    /// before `now`, and then, where the tracker is set to remove peerless
    /// torrents, the swarms that its policy does not keep.
    pub fn cleanup_torrents_at(&mut self, now: DurationSinceUnixEpoch)
        requires
            old(self).wf(),
        ensures
            final(self).wf(),
            final(self).config() == old(self).config(),
            final(self)@ == (TrackerState {
                torrents: crate::torrent::cleaned(
                    old(self)@.torrents,
                    active_since(old(self).config(), now),
                    old(self).config().tracker_policy,
                ),
                ..old(self)@
            }),
    {
        let current_cutoff = crate::clock::cutoff(now, self.config.tracker_policy.max_peer_timeout);
        self.torrents.remove_inactive_peers(current_cutoff);
        if self.config.tracker_policy.remove_peerless_torrents {
            let policy = self.config.tracker_policy;
            self.torrents.remove_peerless_torrents(&policy, current_cutoff);
        }
    }

    /// A cleanup as at the time of the system clock.
    pub fn cleanup_torrents(&mut self)
        requires
            old(self).wf(),
        ensures
            final(self).wf(),
            final(self).config() == old(self).config(),
            exists|now: DurationSinceUnixEpoch|
                final(self)@ == (TrackerState {
                    torrents: crate::torrent::cleaned(
                        old(self)@.torrents,
                        #[trigger] active_since(old(self).config(), now),
                        old(self).config().tracker_policy,
                    ),
                    ..old(self)@
                }),
    {
        let now = crate::clock::now();
        self.cleanup_torrents_at(now);
    }

    /// Empties the database. What is in memory stays.
    pub fn drop_database_tables(&mut self) -> (r: Result<(), crate::databases::Error>)
        requires
            old(self).wf(),
        ensures
            final(self).wf(),
            final(self).config() == old(self).config(),
            match old(self).refusal(Operation::DropDatabaseTables) {
                Some(e) => r == Err::<(), crate::databases::Error>(e) && final(self)@ == old(self)@,
                None => r == Ok::<(), crate::databases::Error>(()) && final(self)@ == (TrackerState {
                    db: old(self)@.db.after(Operation::DropDatabaseTables),
                    ..old(self)@
                }),
            },
    {
        match self.database.drop_database_tables() {
            Ok(_) => Ok(()),
            Err(e) => Err(e),
        }
    }
}

/// The address under which a peer is stored: the one its request came
/// from, unless that names the tracker's own host and the tracker knows
/// under which address it is seen from outside.
pub open spec fn assigned_ip(
    remote_client_ip: IpAddr,
    tracker_external_ip: Option<IpAddr>,
) -> IpAddr {
    match tracker_external_ip {
        Some(host_ip) => if remote_client_ip.is_loopback() {
            host_ip
        } else {
            remote_client_ip
        },
        None => remote_client_ip,
    }
}

pub fn assign_ip_address_to_peer(remote_client_ip: &IpAddr, tracker_external_ip: Option<IpAddr>) -> (r:
    IpAddr)
    ensures
        r == assigned_ip(*remote_client_ip, tracker_external_ip),
{
    match tracker_external_ip {
        Some(host_ip) => {
            if remote_client_ip.is_loopback() {
                host_ip
            } else {
                *remote_client_ip
            }
        },
        None => *remote_client_ip,
    }
}

} // verus!
