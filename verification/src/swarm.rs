use vstd::prelude::*;
use crate::config::TrackerPolicy;
use crate::primitives::{AnnounceEvent, DurationSinceUnixEpoch, Peer, SocketAddr, SwarmMetadata};

verus! {

/// The peers of one torrent, in the order in which their addresses were
/// first seen, and the downloads that were completed in it.
pub struct Swarm {
    pub peers: Seq<Peer>,
    pub downloaded: u32,
}

/// A count as a `u32`, with `u32::MAX` for all that is above it.
pub open spec fn clamp_u32(n: nat) -> u32 {
    if n > u32::MAX {
        u32::MAX
    } else {
        n as u32
    }
}

/// The seeders as of `cutoff`: the peers that announced at `cutoff` or
/// later and have nothing left to download.
pub open spec fn seeding(cutoff: DurationSinceUnixEpoch) -> spec_fn(Peer) -> bool {
    |p: Peer| p.spec_is_active(cutoff) && p.left == 0
}

/// The leechers as of `cutoff`: the peers that announced at `cutoff` or
/// later and still have something to download.
pub open spec fn leeching(cutoff: DurationSinceUnixEpoch) -> spec_fn(Peer) -> bool {
    |p: Peer| p.spec_is_active(cutoff) && p.left != 0
}

/// The active peers as of `cutoff`: those that announced at `cutoff` or
/// later.
pub open spec fn announced_since(cutoff: DurationSinceUnixEpoch) -> spec_fn(Peer) -> bool {
    |p: Peer| p.spec_is_active(cutoff)
}

/// The peers at another address than `addr`.
pub open spec fn not_at(addr: SocketAddr) -> spec_fn(Peer) -> bool {
    |p: Peer| p.peer_addr != addr
}

/// The first `limit` items of `s`, or all of them where there are fewer or
/// no limit is set.
pub open spec fn up_to(s: Seq<Peer>, limit: Option<usize>) -> Seq<Peer> {
    match limit {
        Some(n) => if n < s.len() {
            s.take(n as int)
        } else {
            s
        },
        None => s,
    }
}

/// No two peers of `s` have the same address.
pub open spec fn distinct_addrs(s: Seq<Peer>) -> bool {
    forall|i: int, j: int| 0 <= i < j < s.len() ==> s[i].peer_addr != s[j].peer_addr
}

impl Swarm {
    /// A swarm without peers, in which `downloaded` downloads were
    /// completed.
    pub open spec fn peerless(downloaded: u32) -> Swarm {
        Swarm { peers: Seq::empty(), downloaded }
    }

    /// At most one peer per address.
    pub open spec fn wf(self) -> bool {
        distinct_addrs(self.peers)
    }

    /// Whether a peer of the swarm is at `addr`.
    pub open spec fn has_peer(self, addr: SocketAddr) -> bool {
        exists|i: int| 0 <= i < self.peers.len() && #[trigger] self.peers[i].peer_addr == addr
    }

    /// The position of the peer at `addr`, where there is one.
    pub open spec fn index_of(self, addr: SocketAddr) -> int {
        choose|i: int| 0 <= i < self.peers.len() && #[trigger] self.peers[i].peer_addr == addr
    }

    /// Whether an announce of `peer` counts as a completed download: the
    /// peer says so, and its address was in the swarm before.
    pub open spec fn counts_as_download(self, peer: Peer) -> bool {
        peer.event == AnnounceEvent::Completed && self.has_peer(peer.peer_addr)
    }

    /// The swarm after an announce of `peer`: the peer stands in the place
    /// of the one that had its address, or behind the others if there was
    /// none, and a completed download is counted. The count stays at
    /// `u32::MAX` once it is there.
    pub open spec fn upsert(self, peer: Peer) -> Swarm {
        Swarm {
            peers: if self.has_peer(peer.peer_addr) {
                self.peers.update(self.index_of(peer.peer_addr), peer)
            } else {
                self.peers.push(peer)
            },
            downloaded: if self.counts_as_download(peer) && self.downloaded < u32::MAX {
                (self.downloaded + 1) as u32
            } else {
                self.downloaded
            },
        }
    }

    /// The number of seeders as of `cutoff`.
    pub open spec fn seeders(self, cutoff: DurationSinceUnixEpoch) -> nat {
        self.peers.filter(seeding(cutoff)).len()
    }

    /// The number of leechers as of `cutoff`.
    pub open spec fn leechers(self, cutoff: DurationSinceUnixEpoch) -> nat {
        self.peers.filter(leeching(cutoff)).len()
    }

    /// The number of active peers as of `cutoff`.
    pub open spec fn active_peers(self, cutoff: DurationSinceUnixEpoch) -> nat {
        self.peers.filter(announced_since(cutoff)).len()
    }

    /// The counts of the swarm as of `cutoff`, computed from its peers and
    /// its counter: the seeders and the leechers among the active peers,
    /// and the completed downloads.
    pub open spec fn metadata(self, cutoff: DurationSinceUnixEpoch) -> SwarmMetadata {
        SwarmMetadata {
            downloaded: self.downloaded,
            complete: clamp_u32(self.seeders(cutoff)),
            incomplete: clamp_u32(self.leechers(cutoff)),
        }
    }

    /// The swarm without the peers that announced last before `cutoff`.
    pub open spec fn without_inactive(self, cutoff: DurationSinceUnixEpoch) -> Swarm {
        Swarm { peers: self.peers.filter(announced_since(cutoff)), downloaded: self.downloaded }
    }

    /// The peers handed to the client at `client`: the first `limit` of
    /// those at another address.
    pub open spec fn peers_for_client(self, client: SocketAddr, limit: Option<usize>) -> Seq<Peer> {
        up_to(self.peers.filter(not_at(client)), limit)
    }

    /// Whether a cleanup with the given cutoff keeps the swarm: it does
    /// where the swarm has an active peer, where peerless torrents are not
    /// removed, and where completed downloads are persisted and the swarm
    /// has counted one.
    pub open spec fn meets_retaining_policy(
        self,
        policy: TrackerPolicy,
        cutoff: DurationSinceUnixEpoch,
    ) -> bool {
        ||| policy.persistent_torrent_completed_stat && self.downloaded > 0
        ||| !(policy.remove_peerless_torrents && self.active_peers(cutoff) == 0)
    }
}

/// What a filter keeps of items with distinct keys has distinct keys, and
/// every item of it is an item of the list.
pub proof fn lemma_filter_keeps_distinct<A, K>(
    s: Seq<A>,
    pred: spec_fn(A) -> bool,
    key: spec_fn(A) -> K,
)
    requires
        forall|i: int, j: int| 0 <= i < j < s.len() ==> key(s[i]) != key(s[j]),
    ensures
        forall|i: int, j: int|
            0 <= i < j < s.filter(pred).len() ==> key(s.filter(pred)[i]) != key(s.filter(pred)[j]),
        forall|k: int| 0 <= k < s.filter(pred).len() ==> s.contains(#[trigger] s.filter(pred)[k]),
    decreases s.len(),
{
    reveal(Seq::filter);
    if s.len() > 0 {
        let front = s.drop_last();
        assert forall|i: int, j: int| 0 <= i < j < front.len() implies key(front[i]) != key(
            front[j],
        ) by {
            assert(key(s[i]) != key(s[j]));
        }
        lemma_filter_keeps_distinct(front, pred, key);
        let kept = front.filter(pred);
        let out = s.filter(pred);
        assert forall|k: int| 0 <= k < out.len() implies s.contains(#[trigger] out[k]) by {
            if k < kept.len() {
                assert(out[k] == kept[k]);
                assert(front.contains(kept[k]));
                let m = choose|m: int| 0 <= m < front.len() && front[m] == kept[k];
                assert(s[m] == out[k]);
            } else {
                assert(out[k] == s[s.len() - 1]);
            }
        }
        assert forall|i: int, j: int| 0 <= i < j < out.len() implies key(out[i]) != key(
            out[j],
        ) by {
            if j < kept.len() {
                assert(out[i] == kept[i] && out[j] == kept[j]);
            } else {
                assert(out[j] == s.last());
                assert(out[i] == kept[i]);
                assert(front.contains(kept[i]));
                let m = choose|m: int| 0 <= m < front.len() && front[m] == kept[i];
                assert(key(s[m]) != key(s[s.len() - 1]));
            }
        }
    }
}

/// The address of a peer.
pub open spec fn addr_of() -> spec_fn(Peer) -> SocketAddr {
    |p: Peer| p.peer_addr
}

/// The addresses of a list of peers.
pub open spec fn addresses(s: Seq<Peer>) -> Set<SocketAddr> {
    s.map_values(addr_of()).to_set()
}

/// An address is among the addresses of a list exactly if a peer of the
/// list has it.
pub proof fn lemma_addresses(s: Seq<Peer>, addr: SocketAddr)
    ensures
        addresses(s).contains(addr) <==> exists|i: int|
            0 <= i < s.len() && (#[trigger] s[i]).peer_addr == addr,
{
    let m = s.map_values(addr_of());
    if exists|i: int| 0 <= i < s.len() && (#[trigger] s[i]).peer_addr == addr {
        let i = choose|i: int| 0 <= i < s.len() && (#[trigger] s[i]).peer_addr == addr;
        assert(m[i] == addr);
    }
}

/// Peers with distinct addresses are as many as their addresses.
pub proof fn lemma_count_is_addresses(s: Seq<Peer>)
    requires
        distinct_addrs(s),
    ensures
        addresses(s).finite(),
        s.len() == addresses(s).len(),
{
    let m = s.map_values(addr_of());
    m.unique_seq_to_set();
    vstd::seq_lib::seq_to_set_is_finite(m);
}

/// What an announce does to a swarm.
pub proof fn lemma_upsert(s: Swarm, peer: Peer)
    requires
        s.wf(),
    ensures
        s.upsert(peer).wf(),
        s.upsert(peer).has_peer(peer.peer_addr),
        s.upsert(peer).peers[s.upsert(peer).index_of(peer.peer_addr)] == peer,
        addresses(s.upsert(peer).peers) == addresses(s.peers).insert(peer.peer_addr),
        s.upsert(peer).peers.len() == s.peers.len() + (if s.has_peer(peer.peer_addr) {
            0int
        } else {
            1int
        }),
        forall|addr: SocketAddr|
            addr != peer.peer_addr && s.has_peer(addr) ==> s.upsert(peer).has_peer(addr) && s.upsert(
                peer,
            ).peers[s.upsert(peer).index_of(addr)] == s.peers[s.index_of(addr)],
{
    let t = s.upsert(peer);
    let at = if s.has_peer(peer.peer_addr) {
        s.index_of(peer.peer_addr)
    } else {
        s.peers.len() as int
    };
    lemma_index_of(t, at);
    assert forall|addr: SocketAddr| addresses(t.peers).contains(addr) <==> addresses(s.peers).insert(
        peer.peer_addr,
    ).contains(addr) by {
        lemma_addresses(t.peers, addr);
        lemma_addresses(s.peers, addr);
        if addresses(s.peers).contains(addr) && addr != peer.peer_addr {
            let i = choose|i: int| 0 <= i < s.peers.len() && (#[trigger] s.peers[i]).peer_addr == addr;
            assert(t.peers[i].peer_addr == addr);
        }
    }
    assert forall|addr: SocketAddr| addr != peer.peer_addr && s.has_peer(addr) implies t.has_peer(
        addr,
    ) && t.peers[t.index_of(addr)] == s.peers[s.index_of(addr)] by {
        let i = s.index_of(addr);
        lemma_index_of(t, i);
    }
}

/// In a swarm with at most one peer per address, the peer at a position
/// is the one found under its address.
pub proof fn lemma_index_of(s: Swarm, i: int)
    requires
        s.wf(),
        0 <= i < s.peers.len(),
    ensures
        s.has_peer(s.peers[i].peer_addr),
        s.index_of(s.peers[i].peer_addr) == i,
{
    let addr = s.peers[i].peer_addr;
    assert(0 <= i < s.peers.len() && s.peers[i].peer_addr == addr);
    let j = s.index_of(addr);
    if j < i {
        assert(s.peers[j].peer_addr != s.peers[i].peer_addr);
    } else if i < j {
        assert(s.peers[i].peer_addr != s.peers[j].peer_addr);
    }
}

/// What a client is handed: at most `limit` peers, each of them a peer of
/// the swarm, none at the client's own address, and no two at the same
/// address.
pub proof fn lemma_peers_for_client(s: Swarm, client: SocketAddr, limit: Option<usize>)
    requires
        s.wf(),
    ensures
        limit matches Some(n) ==> s.peers_for_client(client, limit).len() <= n,
        s.peers_for_client(client, limit).len() <= s.peers.len(),
        distinct_addrs(s.peers_for_client(client, limit)),
        forall|i: int|
            0 <= i < s.peers_for_client(client, limit).len() ==> {
                &&& (#[trigger] s.peers_for_client(client, limit)[i]).peer_addr != client
                &&& s.peers.contains(s.peers_for_client(client, limit)[i])
            },
{
    let out = s.peers_for_client(client, limit);
    s.peers.lemma_filter_len(not_at(client));
    lemma_filter_keeps_distinct(s.peers, not_at(client), addr_of());
    assert forall|i: int| 0 <= i < out.len() implies (#[trigger] out[i]).peer_addr != client
        && s.peers.contains(out[i]) by {
        s.peers.lemma_filter_pred(not_at(client), i);
    }
}

/// The seeders and the leechers among some peers are the active ones of
/// them: not more than there are peers, and all of them where every peer
/// is active.
pub proof fn lemma_seeders_and_leechers(s: Seq<Peer>, cutoff: DurationSinceUnixEpoch)
    ensures
        s.filter(seeding(cutoff)).len() + s.filter(leeching(cutoff)).len() == s.filter(
            announced_since(cutoff),
        ).len(),
        s.filter(announced_since(cutoff)).len() <= s.len(),
        (forall|i: int| 0 <= i < s.len() ==> (#[trigger] s[i]).spec_is_active(cutoff)) ==> s.filter(
            announced_since(cutoff),
        ).len() == s.len(),
    decreases s.len(),
{
    reveal(Seq::filter);
    if s.len() > 0 {
        let front = s.drop_last();
        lemma_seeders_and_leechers(front, cutoff);
    }
}

/// The peers of one torrent as the tracker holds them.
#[derive(Debug)]
pub struct Entry {
    peers: Vec<Peer>,
    downloaded: u32,
}

impl View for Entry {
    type V = Swarm;

    closed spec fn view(&self) -> Swarm {
        Swarm { peers: self.peers@, downloaded: self.downloaded }
    }
}

impl Entry {
    /// At most one peer per address. Every entry built through this
    /// interface is well formed, and every operation keeps it so.
    pub open spec fn wf(&self) -> bool {
        self@.wf()
    }

    /// An entry without peers.
    pub fn new(downloaded: u32) -> (r: Self)
        ensures
            r.wf(),
            r@ == Swarm::peerless(downloaded),
    {
        Entry { peers: Vec::new(), downloaded }
    }

    fn position(&self, addr: &SocketAddr) -> (r: Option<usize>)
        requires
            self.wf(),
        ensures
            r is Some <==> self@.has_peer(*addr),
            r matches Some(i) ==> i < self@.peers.len() && i == self@.index_of(*addr)
                && self@.peers[i as int].peer_addr == *addr,
    {
        let mut i: usize = 0;
        while i < self.peers.len()
            invariant
                self.wf(),
                i <= self.peers.len(),
                forall|j: int| 0 <= j < i ==> self.peers@[j].peer_addr != *addr,
            decreases self.peers.len() - i,
        {
            if self.peers[i].peer_addr == *addr {
                return Some(i);
            }
            i += 1;
        }
        None
    }

    /// Takes in an announce of `peer`. The result says whether it counted
    /// as a completed download.
    pub fn upsert_peer(&mut self, peer: &Peer) -> (counted: bool)
        requires
            old(self).wf(),
        ensures
            final(self).wf(),
            final(self)@ == old(self)@.upsert(*peer),
            counted == old(self)@.counts_as_download(*peer),
    {
        match self.position(&peer.peer_addr) {
            Some(i) => {
                self.peers.set(i, *peer);
                match peer.event {
                    AnnounceEvent::Completed => {
                        if self.downloaded < u32::MAX {
                            self.downloaded = self.downloaded + 1;
                        }
                        true
                    },
                    _ => false,
                }
            },
            None => {
                self.peers.push(*peer);
                false
            },
        }
    }

    /// The counts of the swarm as of `cutoff`.
    pub fn get_swarm_metadata(&self, cutoff: DurationSinceUnixEpoch) -> (r: SwarmMetadata)
        ensures
            r == self@.metadata(cutoff),
    {
        let mut complete: usize = 0;
        let mut incomplete: usize = 0;
        let mut i: usize = 0;
        while i < self.peers.len()
            invariant
                i <= self.peers.len(),
                complete == self.peers@.take(i as int).filter(seeding(cutoff)).len(),
                incomplete == self.peers@.take(i as int).filter(leeching(cutoff)).len(),
                complete + incomplete <= i,
            decreases self.peers.len() - i,
        {
            proof {
                self.peers@.lemma_take_succ_push(i as int);
                self.peers@.take(i as int).lemma_filter_push(self.peers@[i as int], seeding(cutoff));
                self.peers@.take(i as int).lemma_filter_push(self.peers@[i as int], leeching(cutoff));
            }
            if self.peers[i].is_active(cutoff) {
                if self.peers[i].is_seeder() {
                    complete += 1;
                } else {
                    incomplete += 1;
                }
            }
            i += 1;
        }
        proof {
            assert(self.peers@.take(self.peers@.len() as int) == self.peers@);
            assert(Seq::<Peer>::empty().filter(seeding(cutoff)).len() == 0) by {
                Seq::<Peer>::empty().lemma_filter_len(seeding(cutoff));
            }
        }
        SwarmMetadata {
            downloaded: self.downloaded,
            complete: if complete > u32::MAX as usize {
                u32::MAX
            } else {
                complete as u32
            },
            incomplete: if incomplete > u32::MAX as usize {
                u32::MAX
            } else {
                incomplete as u32
            },
        }
    }

    /// The first `limit` peers, or all of them where no limit is given.
    pub fn get_peers(&self, limit: Option<usize>) -> (r: Vec<Peer>)
        ensures
            r@ == up_to(self@.peers, limit),
    {
        let mut out: Vec<Peer> = Vec::new();
        let mut i: usize = 0;
        while i < self.peers.len()
            invariant
                i <= self.peers.len(),
                out@ == up_to(self.peers@.take(i as int), limit),
            decreases self.peers.len() - i,
        {
            proof {
                self.peers@.lemma_take_succ_push(i as int);
            }
            let room = match limit {
                Some(n) => out.len() < n,
                None => true,
            };
            if room {
                out.push(self.peers[i]);
            }
            i += 1;
        }
        out
    }

    /// The first `limit` peers among those at another address than
    /// `client`, or all of those where no limit is given.
    pub fn get_peers_for_client(&self, client: &SocketAddr, limit: Option<usize>) -> (r: Vec<Peer>)
        ensures
            r@ == self@.peers_for_client(*client, limit),
    {
        let mut out: Vec<Peer> = Vec::new();
        let mut i: usize = 0;
        assert(self.peers@.take(0).filter(not_at(*client)).len() == 0) by {
            self.peers@.take(0).lemma_filter_len(not_at(*client));
        }
        while i < self.peers.len()
            invariant
                i <= self.peers.len(),
                out@ == up_to(self.peers@.take(i as int).filter(not_at(*client)), limit),
            decreases self.peers.len() - i,
        {
            proof {
                self.peers@.lemma_take_succ_push(i as int);
                self.peers@.take(i as int).lemma_filter_push(self.peers@[i as int], not_at(*client));
            }
            let room = match limit {
                Some(n) => out.len() < n,
                None => true,
            };
            if room && self.peers[i].peer_addr != *client {
                out.push(self.peers[i]);
            }
            i += 1;
        }
        assert(self.peers@.take(self.peers@.len() as int) == self.peers@);
        out
    }

    /// Drops the peers that announced last before `cutoff`.
    pub fn remove_inactive_peers(&mut self, cutoff: DurationSinceUnixEpoch)
        requires
            old(self).wf(),
        ensures
            final(self).wf(),
            final(self)@ == old(self)@.without_inactive(cutoff),
    {
        let mut kept: Vec<Peer> = Vec::new();
        let mut i: usize = 0;
        assert(self.peers@.take(0).filter(announced_since(cutoff)).len() == 0) by {
            self.peers@.take(0).lemma_filter_len(announced_since(cutoff));
        }
        while i < self.peers.len()
            invariant
                i <= self.peers.len(),
                kept@ == self.peers@.take(i as int).filter(announced_since(cutoff)),
            decreases self.peers.len() - i,
        {
            proof {
                self.peers@.lemma_take_succ_push(i as int);
                self.peers@.take(i as int).lemma_filter_push(
                    self.peers@[i as int],
                    announced_since(cutoff),
                );
            }
            if self.peers[i].is_active(cutoff) {
                kept.push(self.peers[i]);
            }
            i += 1;
        }
        proof {
            assert(self.peers@.take(self.peers@.len() as int) == self.peers@);
            lemma_filter_keeps_distinct(self.peers@, announced_since(cutoff), addr_of());
        }
        self.peers = kept;
    }

    /// Whether the swarm has no peers.
    pub fn peers_is_empty(&self) -> (r: bool)
        ensures
            r == (self@.peers.len() == 0),
    {
        self.peers.len() == 0
    }

    /// Whether a peer of the swarm announced at `cutoff` or later.
    pub fn has_active_peers(&self, cutoff: DurationSinceUnixEpoch) -> (r: bool)
        ensures
            r == (self@.active_peers(cutoff) > 0),
    {
        let mut i: usize = 0;
        assert(self.peers@.take(0).filter(announced_since(cutoff)).len() == 0) by {
            self.peers@.take(0).lemma_filter_len(announced_since(cutoff));
        }
        while i < self.peers.len()
            invariant
                i <= self.peers.len(),
                self.peers@.take(i as int).filter(announced_since(cutoff)).len() == 0,
            decreases self.peers.len() - i,
        {
            if self.peers[i].is_active(cutoff) {
                proof {
                    self.peers@.lemma_filter_contains(announced_since(cutoff), i as int);
                }
                return true;
            }
            proof {
                self.peers@.lemma_take_succ_push(i as int);
                self.peers@.take(i as int).lemma_filter_push(
                    self.peers@[i as int],
                    announced_since(cutoff),
                );
            }
            i += 1;
        }
        assert(self.peers@.take(self.peers@.len() as int) == self.peers@);
        false
    }

    /// Whether a cleanup under `policy` with the given cutoff keeps the
    /// entry.
    pub fn meets_retaining_policy(&self, policy: &TrackerPolicy, cutoff: DurationSinceUnixEpoch) -> (r:
        bool)
        ensures
            r == self@.meets_retaining_policy(*policy, cutoff),
    {
        if policy.persistent_torrent_completed_stat && self.downloaded > 0 {
            return true;
        }
        if policy.remove_peerless_torrents && !self.has_active_peers(cutoff) {
            return false;
        }
        true
    }

    /// Sets the count of completed downloads; the peers stay.
    pub fn set_downloaded(&mut self, downloaded: u32)
        ensures
            final(self)@ == (Swarm { peers: old(self)@.peers, downloaded }),
    {
        self.downloaded = downloaded;
    }
}

impl Clone for Entry {
    fn clone(&self) -> (r: Self)
        ensures
            r@ == self@,
    {
        let mut peers: Vec<Peer> = Vec::new();
        let mut i: usize = 0;
        while i < self.peers.len()
            invariant
                i <= self.peers.len(),
                peers@ == self.peers@.take(i as int),
            decreases self.peers.len() - i,
        {
            proof {
                self.peers@.lemma_take_succ_push(i as int);
            }
            peers.push(self.peers[i]);
            i += 1;
        }
        assert(self.peers@.take(self.peers@.len() as int) == self.peers@);
        Entry { peers, downloaded: self.downloaded }
    }
}

} // verus!
