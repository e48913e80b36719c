use vstd::prelude::*;
use crate::config::{Core, TrackerPolicy};
use crate::primitives::{DurationSinceUnixEpoch, InfoHash, Peer, SocketAddr};
use crate::swarm::Swarm;
use crate::torrent::Swarms;
use crate::tracker::TrackerState;

verus! {

/// The swarm after a run of announces, one after the other.
pub open spec fn announced(s: Swarm, trace: Seq<Peer>) -> Swarm
    decreases trace.len(),
{
    if trace.len() == 0 {
        s
    } else {
        announced(s, trace.drop_last()).upsert(trace.last())
    }
}

/// From a cleanup on, whatever is announced: a swarm holds one peer for
/// each address that it has seen since the cutoff of the cleanup, and no
/// other. These are the addresses of the peers that the cleanup kept,
/// which announced at the cutoff or later, and of the peers that announced
/// after it.
pub proof fn law_one_peer_per_address_seen(s: Swarm, cutoff: DurationSinceUnixEpoch, trace: Seq<Peer>)
    requires
        s.wf(),
    ensures
        s.without_inactive(cutoff).wf(),
        announced(s.without_inactive(cutoff), trace).wf(),
        crate::swarm::addresses(announced(s.without_inactive(cutoff), trace).peers)
            == crate::swarm::addresses(s.without_inactive(cutoff).peers).union(
            crate::swarm::addresses(trace),
        ),
        announced(s.without_inactive(cutoff), trace).peers.len() == crate::swarm::addresses(
            s.without_inactive(cutoff).peers,
        ).union(crate::swarm::addresses(trace)).len(),
{
    crate::swarm::lemma_filter_keeps_distinct(
        s.peers,
        crate::swarm::announced_since(cutoff),
        crate::swarm::addr_of(),
    );
    let start = s.without_inactive(cutoff);
    lemma_announced(start, trace);
    crate::swarm::lemma_count_is_addresses(announced(start, trace).peers);
}

/// A run of announces keeps a swarm well formed, and the addresses of its
/// peers are those it had and those that were announced.
pub proof fn lemma_announced(s: Swarm, trace: Seq<Peer>)
    requires
        s.wf(),
    ensures
        announced(s, trace).wf(),
        crate::swarm::addresses(announced(s, trace).peers) == crate::swarm::addresses(s.peers).union(
            crate::swarm::addresses(trace),
        ),
        announced(s, trace).downloaded >= s.downloaded,
    decreases trace.len(),
{
    if trace.len() == 0 {
        assert forall|a: SocketAddr| !crate::swarm::addresses(trace).contains(a) by {
            crate::swarm::lemma_addresses(trace, a);
        }
        assert(crate::swarm::addresses(s.peers).union(crate::swarm::addresses(trace))
            =~= crate::swarm::addresses(s.peers));
    } else {
        let front = trace.drop_last();
        let last = trace.last();
        lemma_announced(s, front);
        let mid = announced(s, front);
        crate::swarm::lemma_upsert(mid, last);
        assert forall|a: SocketAddr| crate::swarm::addresses(trace).contains(a)
            <==> crate::swarm::addresses(front).insert(last.peer_addr).contains(a) by {
            crate::swarm::lemma_addresses(trace, a);
            crate::swarm::lemma_addresses(front, a);
            if crate::swarm::addresses(trace).contains(a) {
                let i = choose|i: int| 0 <= i < trace.len() && (#[trigger] trace[i]).peer_addr == a;
                if i < front.len() {
                    assert(front[i] == trace[i]);
                }
            }
        }
        assert(crate::swarm::addresses(announced(s, trace).peers) =~= crate::swarm::addresses(
            s.peers,
        ).union(crate::swarm::addresses(trace)));
    }
}

/// The swarms after a run of announces, each for its torrent, one after
/// the other.
pub open spec fn announced_all(s: Swarms, trace: Seq<(Seq<u8>, Peer)>) -> Swarms
    decreases trace.len(),
{
    if trace.len() == 0 {
        s
    } else {
        crate::torrent::with_announce(
            announced_all(s, trace.drop_last()),
            trace.last().0,
            trace.last().1,
        )
    }
}

/// The peers that a run of announces holds for one torrent, in their
/// order.
pub open spec fn announced_for(trace: Seq<(Seq<u8>, Peer)>, info_hash: Seq<u8>) -> Seq<Peer>
    decreases trace.len(),
{
    if trace.len() == 0 {
        Seq::empty()
    } else if trace.last().0 == info_hash {
        announced_for(trace.drop_last(), info_hash).push(trace.last().1)
    } else {
        announced_for(trace.drop_last(), info_hash)
    }
}

/// A run of announces does to the swarm of each torrent what the announces
/// for that torrent do to it, and nothing else.
pub proof fn lemma_announced_all(s: Swarms, trace: Seq<(Seq<u8>, Peer)>, info_hash: Seq<u8>)
    requires
        crate::torrent::distinct_hashes(s),
    ensures
        crate::torrent::distinct_hashes(announced_all(s, trace)),
        crate::torrent::swarm_or_new(announced_all(s, trace), info_hash) == announced(
            crate::torrent::swarm_or_new(s, info_hash),
            announced_for(trace, info_hash),
        ),
        announced_for(trace, info_hash).len() == 0 ==> crate::torrent::swarm_of(
            announced_all(s, trace),
            info_hash,
        ) == crate::torrent::swarm_of(s, info_hash),
    decreases trace.len(),
{
    if trace.len() > 0 {
        let front = trace.drop_last();
        let last = trace.last();
        lemma_announced_all(s, front, info_hash);
        let mid = announced_all(s, front);
        crate::torrent::lemma_with_announce(mid, last.0, last.1);
        if last.0 == info_hash {
            let peers = announced_for(trace, info_hash);
            assert(peers.drop_last() =~= announced_for(front, info_hash));
        }
    }
}

/// What a cleanup leaves: no info-hash has two swarms, every swarm is well
/// formed, and every peer announced at the cutoff or later.
pub proof fn lemma_cleaned(s: Swarms, cutoff: DurationSinceUnixEpoch, policy: TrackerPolicy)
    requires
        crate::torrent::distinct_hashes(s),
        crate::torrent::all_wf(s),
    ensures
        crate::torrent::distinct_hashes(crate::torrent::cleaned(s, cutoff, policy)),
        crate::torrent::all_wf(crate::torrent::cleaned(s, cutoff, policy)),
        forall|i: int, j: int|
            0 <= i < crate::torrent::cleaned(s, cutoff, policy).len() && 0 <= j
                < crate::torrent::cleaned(s, cutoff, policy)[i].1.peers.len()
                ==> #[trigger] crate::torrent::cleaned(
                s,
                cutoff,
                policy,
            )[i].1.peers[j].spec_is_active(cutoff),
{
    let pruned = s.map_values(crate::torrent::dropping_inactive(cutoff));
    let out = crate::torrent::cleaned(s, cutoff, policy);
    if policy.remove_peerless_torrents {
        crate::swarm::lemma_filter_keeps_distinct(
            pruned,
            crate::torrent::retained_by(policy, cutoff),
            crate::torrent::hash_of(),
        );
    }
    assert forall|i: int| 0 <= i < out.len() implies (#[trigger] out[i]).1.wf() by {
        if out[i].1.peers.len() > 0 {
            law_cleanup_leaves_active_peers(s, cutoff, policy, i, 0);
        }
    }
    assert forall|i: int, j: int| 0 <= i < out.len() && 0 <= j < out[i].1.peers.len() implies (
    #[trigger] out[i].1.peers[j]).spec_is_active(cutoff) by {
        law_cleanup_leaves_active_peers(s, cutoff, policy, i, j);
    }
}

/// From a cleanup on, whatever is announced for whatever torrents: the
/// swarm of each torrent holds one peer for each address that it has seen
/// since the cutoff of the cleanup, and no other. These are the addresses
/// of the peers that the cleanup left in the swarm, all of which announced
/// at the cutoff or later, and of the peers that announced for the torrent
/// after it. The completed downloads of the torrent did not go down.
pub proof fn law_every_swarm_holds_one_peer_per_address_seen(
    s: Swarms,
    cutoff: DurationSinceUnixEpoch,
    policy: TrackerPolicy,
    trace: Seq<(Seq<u8>, Peer)>,
    info_hash: Seq<u8>,
)
    requires
        crate::torrent::distinct_hashes(s),
        crate::torrent::all_wf(s),
    ensures
        ({
            let left = crate::torrent::swarm_or_new(
                crate::torrent::cleaned(s, cutoff, policy),
                info_hash,
            );
            let swarm = crate::torrent::swarm_or_new(
                announced_all(crate::torrent::cleaned(s, cutoff, policy), trace),
                info_hash,
            );
            &&& swarm.wf()
            &&& forall|j: int| 0 <= j < left.peers.len() ==> (#[trigger] left.peers[j]).spec_is_active(cutoff)
            &&& crate::swarm::addresses(swarm.peers) == crate::swarm::addresses(left.peers).union(
                crate::swarm::addresses(announced_for(trace, info_hash)),
            )
            &&& swarm.peers.len() == crate::swarm::addresses(left.peers).union(
                crate::swarm::addresses(announced_for(trace, info_hash)),
            ).len()
            &&& swarm.downloaded >= left.downloaded
        }),
{
    let start = crate::torrent::cleaned(s, cutoff, policy);
    lemma_cleaned(s, cutoff, policy);
    lemma_announced_all(start, trace, info_hash);
    lemma_swarm_or_new_wf(start, info_hash);
    let left = crate::torrent::swarm_or_new(start, info_hash);
    lemma_announced(left, announced_for(trace, info_hash));
    crate::swarm::lemma_count_is_addresses(announced(left, announced_for(trace, info_hash)).peers);
}

/// A swarm holds as many peers as there are addresses among them.
pub proof fn law_peers_are_counted_by_address(s: Swarm)
    requires
        s.wf(),
    ensures
        s.peers.len() == crate::swarm::addresses(s.peers).len(),
{
    crate::swarm::lemma_count_is_addresses(s.peers);
}

/// No run of announces lowers the completed downloads of a swarm.
pub proof fn law_downloaded_never_decreases(s: Swarm, trace: Seq<Peer>)
    requires
        s.wf(),
    ensures
        announced(s, trace).downloaded >= s.downloaded,
{
    lemma_announced(s, trace);
}

/// An announce for a torrent does not lower the completed downloads of
/// that torrent, and leaves every other torrent as it was. The counter
/// goes up by one exactly where the peer reports a completed download, a
/// peer at its address was in the swarm before, and the counter is not at
/// its highest value.
pub proof fn law_announce_counts_downloads(s: Swarms, info_hash: Seq<u8>, peer: Peer)
    requires
        crate::torrent::distinct_hashes(s),
    ensures
        crate::torrent::swarm_of(crate::torrent::with_announce(s, info_hash, peer), info_hash) is Some,
        crate::torrent::swarm_of(
            crate::torrent::with_announce(s, info_hash, peer),
            info_hash,
        ).unwrap().downloaded == crate::torrent::swarm_or_new(s, info_hash).downloaded + (if peer.event
            == crate::primitives::AnnounceEvent::Completed && crate::torrent::swarm_or_new(
            s,
            info_hash,
        ).has_peer(peer.peer_addr) && crate::torrent::swarm_or_new(s, info_hash).downloaded
            < u32::MAX {
            1int
        } else {
            0int
        }),
        forall|other: Seq<u8>|
            other != info_hash ==> crate::torrent::swarm_of(
                crate::torrent::with_announce(s, info_hash, peer),
                other,
            ) == crate::torrent::swarm_of(s, other),
{
    crate::torrent::lemma_with_announce(s, info_hash, peer);
}

/// An announce that is taken in a second time leaves the peers of the
/// swarm as they were after the first time.
pub proof fn law_replayed_announce_keeps_the_peers(s: Swarm, peer: Peer)
    requires
        s.wf(),
    ensures
        s.upsert(peer).upsert(peer).peers == s.upsert(peer).peers,
{
    crate::swarm::lemma_upsert(s, peer);
}

/// The peer that announced is in the swarm of its torrent afterwards,
/// under its address and as it was announced.
pub proof fn law_announced_peer_is_stored(s: Swarms, info_hash: Seq<u8>, peer: Peer)
    requires
        crate::torrent::distinct_hashes(s),
        crate::torrent::all_wf(s),
    ensures
        crate::torrent::swarm_of(crate::torrent::with_announce(s, info_hash, peer), info_hash) is Some,
        ({
            let swarm = crate::torrent::swarm_of(
                crate::torrent::with_announce(s, info_hash, peer),
                info_hash,
            ).unwrap();
            &&& swarm.wf()
            &&& swarm.has_peer(peer.peer_addr)
            &&& swarm.peers[swarm.index_of(peer.peer_addr)] == peer
        }),
{
    crate::torrent::lemma_with_announce(s, info_hash, peer);
    lemma_swarm_or_new_wf(s, info_hash);
    crate::swarm::lemma_upsert(crate::torrent::swarm_or_new(s, info_hash), peer);
}

/// The swarm that an announce works on is well formed.
pub proof fn lemma_swarm_or_new_wf(s: Swarms, info_hash: Seq<u8>)
    requires
        crate::torrent::all_wf(s),
    ensures
        crate::torrent::swarm_or_new(s, info_hash).wf(),
{
}

/// The seeders and the leechers that a swarm reports are not more than
/// its peers, and are all of them where every peer is active and they can
/// be counted in 32 bits. The completed downloads are those that the swarm
/// has counted.
pub proof fn law_counts_are_within_the_peers(s: Swarm, cutoff: DurationSinceUnixEpoch)
    ensures
        s.seeders(cutoff) + s.leechers(cutoff) == s.active_peers(cutoff),
        s.active_peers(cutoff) <= s.peers.len(),
        s.metadata(cutoff).complete + s.metadata(cutoff).incomplete <= s.peers.len(),
        (forall|i: int| 0 <= i < s.peers.len() ==> (#[trigger] s.peers[i]).spec_is_active(cutoff))
            && s.peers.len() <= u32::MAX ==> s.metadata(cutoff).complete + s.metadata(
            cutoff,
        ).incomplete == s.peers.len(),
        s.metadata(cutoff).downloaded == s.downloaded,
{
    crate::swarm::lemma_seeders_and_leechers(s.peers, cutoff);
}

/// Of a torrent that the tracker serves and has a swarm for, a scrape
/// reports the counts computed from the peers of that swarm and its
/// completed downloads: the active peers that have nothing left to
/// download, the active peers that have, and the downloads.
pub proof fn law_scrape_reports_the_swarm(
    state: TrackerState,
    config: Core,
    info_hash: Seq<u8>,
    now: DurationSinceUnixEpoch,
)
    requires
        state.authorizes(config, info_hash),
        crate::torrent::has_torrent(state.torrents, info_hash),
    ensures
        state.scraped(config, info_hash, now) == crate::torrent::swarm_of(
            state.torrents,
            info_hash,
        ).unwrap().metadata(crate::tracker::active_since(config, now)),
        state.scraped(config, info_hash, now).downloaded == crate::torrent::swarm_of(
            state.torrents,
            info_hash,
        ).unwrap().downloaded,
        state.scraped(config, info_hash, now).complete == crate::swarm::clamp_u32(
            crate::torrent::swarm_of(state.torrents, info_hash).unwrap().peers.filter(
                crate::swarm::seeding(crate::tracker::active_since(config, now)),
            ).len(),
        ),
        state.scraped(config, info_hash, now).incomplete == crate::swarm::clamp_u32(
            crate::torrent::swarm_of(state.torrents, info_hash).unwrap().peers.filter(
                crate::swarm::leeching(crate::tracker::active_since(config, now)),
            ).len(),
        ),
{
}

/// What a client is handed after its announce: at most `limit` peers,
/// none of them at the client's own address.
pub proof fn law_answer_leaves_the_client_out(
    s: Swarms,
    info_hash: Seq<u8>,
    client: SocketAddr,
    limit: usize,
)
    requires
        crate::torrent::all_wf(s),
    ensures
        crate::tracker::peers_for(s, info_hash, client, limit).len() <= limit,
        forall|i: int|
            0 <= i < crate::tracker::peers_for(s, info_hash, client, limit).len() ==> (
            #[trigger] crate::tracker::peers_for(s, info_hash, client, limit)[i]).peer_addr != client,
{
    if crate::torrent::has_torrent(s, info_hash) {
        let i = crate::torrent::torrent_index(s, info_hash);
        crate::swarm::lemma_peers_for_client(s[i].1, client, Some(limit));
    }
}

/// An info-hash that was put on the whitelist is on it, and putting it
/// there once more changes nothing.
pub proof fn law_whitelisting_twice_is_whitelisting_once(state: TrackerState, info_hash: Seq<u8>)
    ensures
        state.with_whitelisted(info_hash).whitelist.contains(info_hash),
        state.with_whitelisted(info_hash).db.whitelist.contains(info_hash),
        state.with_whitelisted(info_hash).with_whitelisted(info_hash) == state.with_whitelisted(
            info_hash,
        ),
{
    let once = state.with_whitelisted(info_hash);
    assert(once.whitelist.insert(info_hash) =~= once.whitelist);
    assert(once.db.whitelist.insert(info_hash) =~= once.db.whitelist);
}

/// Adding a key that the tracker does not have and removing it again
/// leaves the tracker as it was.
pub proof fn law_removing_an_added_key_restores_the_store(
    state: TrackerState,
    key: Seq<char>,
    valid_until: Option<DurationSinceUnixEpoch>,
)
    requires
        !state.keys.contains_key(key),
        !state.db.keys.contains_key(key),
    ensures
        state.with_key(key, valid_until).without_key(key) == state,
{
    let added = state.with_key(key, valid_until);
    assert(added.keys.remove(key) =~= state.keys);
    assert(added.db.keys.remove(key) =~= state.db.keys);
}

/// An info-hash that was put on the whitelist is on it again once the
/// whitelist is loaded from the database, whatever became of the whitelist
/// in memory in between.
pub proof fn law_loading_restores_the_whitelist(
    state: TrackerState,
    info_hash: Seq<u8>,
    in_memory: Set<Seq<u8>>,
)
    ensures
        (TrackerState {
            whitelist: in_memory,
            ..state.with_whitelisted(info_hash)
        }).with_whitelist_loaded().whitelist.contains(info_hash),
{
}

/// A key that was added is in memory again, with its time, once the keys
/// are loaded from the database, whatever became of the keys in memory in
/// between.
pub proof fn law_loading_restores_the_keys(
    state: TrackerState,
    key: Seq<char>,
    valid_until: Option<DurationSinceUnixEpoch>,
    in_memory: Map<Seq<char>, Option<DurationSinceUnixEpoch>>,
)
    ensures
        (TrackerState {
            keys: in_memory,
            ..state.with_key(key, valid_until)
        }).with_keys_loaded().keys.contains_key(key),
        (TrackerState { keys: in_memory, ..state.with_key(key, valid_until) }).with_keys_loaded().keys[key]
            == valid_until,
{
}

/// Where the keys and the whitelist in memory are those of the database,
/// they still are after a key or an info-hash was added or removed, and
/// after either was loaded.
pub proof fn law_memory_mirrors_the_database(
    state: TrackerState,
    key: Seq<char>,
    valid_until: Option<DurationSinceUnixEpoch>,
    info_hash: Seq<u8>,
)
    requires
        state.keys == state.db.keys,
        state.whitelist == state.db.whitelist,
    ensures
        state.with_key(key, valid_until).keys == state.with_key(key, valid_until).db.keys,
        state.without_key(key).keys == state.without_key(key).db.keys,
        state.with_whitelisted(info_hash).whitelist == state.with_whitelisted(info_hash).db.whitelist,
        state.without_whitelisted(info_hash).whitelist == state.without_whitelisted(
            info_hash,
        ).db.whitelist,
        state.with_keys_loaded() == state,
        state.with_whitelist_loaded() == state,
{
}

/// Loading the completed downloads from the database brings back the
/// counters, and no peers: a torrent of the database has its counter from
/// there, with the peers that it had in memory, and none where it had no
/// swarm; a torrent that the database does not hold is as it was.
pub proof fn law_loading_restores_counters_not_peers(
    state: TrackerState,
    records: Seq<(InfoHash, u32)>,
    info_hash: Seq<u8>,
)
    requires
        crate::torrent::distinct_hashes(state.torrents),
        crate::databases::records_match(records, state.db.torrents),
    ensures
        crate::torrent::distinct_hashes(state.with_torrents_loaded(records).torrents),
        state.db.torrents.contains_key(info_hash) ==> crate::torrent::swarm_of(
            state.with_torrents_loaded(records).torrents,
            info_hash,
        ) == Some(
            Swarm {
                peers: match crate::torrent::swarm_of(state.torrents, info_hash) {
                    Some(swarm) => swarm.peers,
                    None => Seq::empty(),
                },
                downloaded: state.db.torrents[info_hash],
            },
        ),
        !state.db.torrents.contains_key(info_hash) ==> crate::torrent::swarm_of(
            state.with_torrents_loaded(records).torrents,
            info_hash,
        ) == crate::torrent::swarm_of(state.torrents, info_hash),
{
    crate::torrent::lemma_with_records(state.torrents, records, state.db.torrents);
}

/// After a cleanup no swarm holds a peer that announced last before the
/// cutoff, and every swarm is well formed.
pub proof fn law_cleanup_leaves_active_peers(
    s: Swarms,
    cutoff: DurationSinceUnixEpoch,
    policy: TrackerPolicy,
    i: int,
    j: int,
)
    requires
        crate::torrent::distinct_hashes(s),
        crate::torrent::all_wf(s),
        0 <= i < crate::torrent::cleaned(s, cutoff, policy).len(),
        0 <= j < crate::torrent::cleaned(s, cutoff, policy)[i].1.peers.len(),
    ensures
        crate::torrent::cleaned(s, cutoff, policy)[i].1.peers[j].spec_is_active(cutoff),
        crate::torrent::cleaned(s, cutoff, policy)[i].1.wf(),
        policy.remove_peerless_torrents ==> crate::torrent::cleaned(
            s,
            cutoff,
            policy,
        )[i].1.meets_retaining_policy(policy, cutoff),
{
    let pruned = s.map_values(crate::torrent::dropping_inactive(cutoff));
    let out = crate::torrent::cleaned(s, cutoff, policy);
    let keep = crate::torrent::retained_by(policy, cutoff);
    let k = if policy.remove_peerless_torrents {
        pruned.lemma_filter_len(keep);
        crate::swarm::lemma_filter_keeps_distinct(pruned, keep, crate::torrent::hash_of());
        crate::swarm::lemma_filter_keeps_distinct(pruned, keep, crate::torrent::hash_of());
        pruned.lemma_filter_pred(keep, i);
        choose|k: int| 0 <= k < pruned.len() && pruned[k] == out[i]
    } else {
        i
    };
    crate::swarm::lemma_filter_keeps_distinct(
        s[k].1.peers,
        crate::swarm::announced_since(cutoff),
        crate::swarm::addr_of(),
    );
    s[k].1.peers.lemma_filter_pred(crate::swarm::announced_since(cutoff), j);
}

} // verus!
