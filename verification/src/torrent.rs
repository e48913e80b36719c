use vstd::prelude::*;
use crate::config::TrackerPolicy;
use crate::primitives::{DurationSinceUnixEpoch, InfoHash, Peer, SwarmMetadata, TorrentsMetrics};
use crate::swarm::{Entry, Swarm};

verus! {

/// The swarms that the tracker holds, each under the bytes of its
/// info-hash, in the order in which the info-hashes were first seen.
pub type Swarms = Seq<(Seq<u8>, Swarm)>;

/// The counters that were read from the database, each under its
/// info-hash.
pub type PersistentTorrents = Vec<(InfoHash, u32)>;

/// No info-hash occurs twice.
pub open spec fn distinct_hashes(s: Swarms) -> bool {
    forall|i: int, j: int| 0 <= i < j < s.len() ==> s[i].0 != s[j].0
}

/// Every swarm has at most one peer per address.
pub open spec fn all_wf(s: Swarms) -> bool {
    forall|i: int| 0 <= i < s.len() ==> (#[trigger] s[i]).1.wf()
}

/// Whether there is a swarm under `h`.
pub open spec fn has_torrent(s: Swarms, h: Seq<u8>) -> bool {
    exists|i: int| 0 <= i < s.len() && #[trigger] s[i].0 == h
}

/// The position of the swarm under `h`, where there is one.
pub open spec fn torrent_index(s: Swarms, h: Seq<u8>) -> int {
    choose|i: int| 0 <= i < s.len() && #[trigger] s[i].0 == h
}

/// The swarm under `h`, if there is one.
pub open spec fn swarm_of(s: Swarms, h: Seq<u8>) -> Option<Swarm> {
    if has_torrent(s, h) {
        Some(s[torrent_index(s, h)].1)
    } else {
        None
    }
}

/// The counts under `h` as of `cutoff`: those of its swarm, and zeros
/// where there is none.
pub open spec fn metadata_of(s: Swarms, h: Seq<u8>, cutoff: DurationSinceUnixEpoch) -> SwarmMetadata {
    match swarm_of(s, h) {
        Some(swarm) => swarm.metadata(cutoff),
        None => SwarmMetadata { downloaded: 0, complete: 0, incomplete: 0 },
    }
}

/// The swarm that an announce for `h` works on: the one under `h`, or a
/// new one without peers and with no download counted.
pub open spec fn swarm_or_new(s: Swarms, h: Seq<u8>) -> Swarm {
    match swarm_of(s, h) {
        Some(swarm) => swarm,
        None => Swarm::peerless(0),
    }
}

/// The swarms with `swarm` under `h`: in the place of the one that was
/// there, or behind the others if there was none.
pub open spec fn with_swarm(s: Swarms, h: Seq<u8>, swarm: Swarm) -> Swarms {
    if has_torrent(s, h) {
        s.update(torrent_index(s, h), (h, swarm))
    } else {
        s.push((h, swarm))
    }
}

/// The swarms after an announce of `peer` for `h`. A swarm that is not
/// there yet is made for it.
pub open spec fn with_announce(s: Swarms, h: Seq<u8>, peer: Peer) -> Swarms {
    with_swarm(s, h, swarm_or_new(s, h).upsert(peer))
}

/// Takes the peers that announced last before `cutoff` out of a swarm.
pub open spec fn dropping_inactive(cutoff: DurationSinceUnixEpoch) -> spec_fn((Seq<u8>, Swarm)) -> (
    Seq<u8>,
    Swarm,
) {
    |t: (Seq<u8>, Swarm)| (t.0, t.1.without_inactive(cutoff))
}

/// The swarms that a cleanup under `policy` with the given cutoff keeps.
pub open spec fn retained_by(policy: TrackerPolicy, cutoff: DurationSinceUnixEpoch) -> spec_fn(
    (Seq<u8>, Swarm),
) -> bool {
    |t: (Seq<u8>, Swarm)| t.1.meets_retaining_policy(policy, cutoff)
}

/// The swarms after the counter `downloaded` was read for `h`: the swarm
/// under `h` has that counter and keeps its peers. A swarm that is not
/// there yet is made for it, without peers.
pub open spec fn with_record(s: Swarms, h: Seq<u8>, downloaded: u32) -> Swarms {
    with_swarm(s, h, Swarm { peers: swarm_or_new(s, h).peers, downloaded })
}

/// The swarms after the counters of `records` were read, one after the
/// other.
pub open spec fn with_records(s: Swarms, records: Seq<(InfoHash, u32)>) -> Swarms
    decreases records.len(),
{
    if records.len() == 0 {
        s
    } else {
        with_record(with_records(s, records.drop_last()), records.last().0@, records.last().1)
    }
}

/// The seeders that the swarms report as of `cutoff`, added up.
pub open spec fn sum_complete(s: Swarms, cutoff: DurationSinceUnixEpoch) -> nat
    decreases s.len(),
{
    if s.len() == 0 {
        0
    } else {
        sum_complete(s.drop_last(), cutoff) + s.last().1.metadata(cutoff).complete as nat
    }
}

/// The leechers that the swarms report as of `cutoff`, added up.
pub open spec fn sum_incomplete(s: Swarms, cutoff: DurationSinceUnixEpoch) -> nat
    decreases s.len(),
{
    if s.len() == 0 {
        0
    } else {
        sum_incomplete(s.drop_last(), cutoff) + s.last().1.metadata(cutoff).incomplete as nat
    }
}

/// The completed downloads of the swarms, added up.
pub open spec fn sum_downloaded(s: Swarms) -> nat
    decreases s.len(),
{
    if s.len() == 0 {
        0
    } else {
        sum_downloaded(s.drop_last()) + s.last().1.downloaded as nat
    }
}

/// A count as a `u64`, with `u64::MAX` for all that is above it.
pub open spec fn clamp_u64(n: nat) -> u64 {
    if n > u64::MAX {
        u64::MAX
    } else {
        n as u64
    }
}

/// The counts of all swarms together, as of `cutoff`.
pub open spec fn metrics_of(s: Swarms, cutoff: DurationSinceUnixEpoch) -> TorrentsMetrics {
    TorrentsMetrics {
        complete: clamp_u64(sum_complete(s, cutoff)),
        downloaded: clamp_u64(sum_downloaded(s)),
        incomplete: clamp_u64(sum_incomplete(s, cutoff)),
        torrents: clamp_u64(s.len()),
    }
}

/// In swarms without repeated info-hashes, the swarm at a position is the
/// one found under its info-hash.
pub proof fn lemma_swarm_at(s: Swarms, i: int)
    requires
        distinct_hashes(s),
        0 <= i < s.len(),
    ensures
        has_torrent(s, s[i].0),
        torrent_index(s, s[i].0) == i,
        swarm_of(s, s[i].0) == Some(s[i].1),
{
    let h = s[i].0;
    assert(0 <= i < s.len() && s[i].0 == h);
    let j = torrent_index(s, h);
    if j < i {
        assert(s[j].0 != s[i].0);
    } else if i < j {
        assert(s[i].0 != s[j].0);
    }
}

/// The swarms after a cleanup with the given cutoff: no swarm holds a peer
/// that announced last before it, and, where the policy removes peerless
/// torrents, the swarms that the policy does not keep are gone.
pub open spec fn cleaned(s: Swarms, cutoff: DurationSinceUnixEpoch, policy: TrackerPolicy) -> Swarms {
    let pruned = s.map_values(dropping_inactive(cutoff));
    if policy.remove_peerless_torrents {
        pruned.filter(retained_by(policy, cutoff))
    } else {
        pruned
    }
}

/// Putting a swarm under an info-hash changes what is found under that
/// info-hash, and under no other.
pub proof fn lemma_with_swarm(s: Swarms, h: Seq<u8>, swarm: Swarm)
    requires
        distinct_hashes(s),
    ensures
        distinct_hashes(with_swarm(s, h, swarm)),
        swarm_of(with_swarm(s, h, swarm), h) == Some(swarm),
        forall|other: Seq<u8>|
            other != h ==> swarm_of(with_swarm(s, h, swarm), other) == swarm_of(s, other),
        all_wf(s) && swarm.wf() ==> all_wf(with_swarm(s, h, swarm)),
{
    let t = with_swarm(s, h, swarm);
    let at = if has_torrent(s, h) {
        torrent_index(s, h)
    } else {
        s.len() as int
    };
    lemma_swarm_at(t, at);
    assert forall|other: Seq<u8>| other != h implies swarm_of(t, other) == swarm_of(s, other) by {
        if has_torrent(s, other) {
            let j = torrent_index(s, other);
            lemma_swarm_at(t, j);
            lemma_swarm_at(s, j);
        }
    }
}

/// An announce changes the swarm of its torrent, and no other.
pub proof fn lemma_with_announce(s: Swarms, h: Seq<u8>, peer: Peer)
    requires
        distinct_hashes(s),
    ensures
        distinct_hashes(with_announce(s, h, peer)),
        swarm_of(with_announce(s, h, peer), h) == Some(swarm_or_new(s, h).upsert(peer)),
        forall|other: Seq<u8>|
            other != h ==> swarm_of(with_announce(s, h, peer), other) == swarm_of(s, other),
{
    lemma_with_swarm(s, h, swarm_or_new(s, h).upsert(peer));
}

/// What reading counters does to the swarms: a torrent that a record
/// names has the counter of the table and the peers it had, or none
/// where it had no swarm; a torrent that no record names is as it was.
pub proof fn lemma_with_records(s: Swarms, records: Seq<(InfoHash, u32)>, table: Map<Seq<u8>, u32>)
    requires
        distinct_hashes(s),
        forall|i: int|
            0 <= i < records.len() ==> table.contains_key((#[trigger] records[i]).0@) && table[records[i].0@]
                == records[i].1,
    ensures
        distinct_hashes(with_records(s, records)),
        forall|h: Seq<u8>|
            (exists|i: int| 0 <= i < records.len() && (#[trigger] records[i]).0@ == h) ==> swarm_of(
                with_records(s, records),
                h,
            ) == Some(Swarm { peers: swarm_or_new(s, h).peers, downloaded: table[h] }),
        forall|h: Seq<u8>|
            !(exists|i: int| 0 <= i < records.len() && (#[trigger] records[i]).0@ == h) ==> swarm_of(
                with_records(s, records),
                h,
            ) == swarm_of(s, h),
    decreases records.len(),
{
    if records.len() > 0 {
        let front = records.drop_last();
        let last = records.last();
        lemma_with_records(s, front, table);
        let mid = with_records(s, front);
        lemma_with_swarm(
            mid,
            last.0@,
            Swarm { peers: swarm_or_new(mid, last.0@).peers, downloaded: last.1 },
        );
        let out = with_records(s, records);
        assert forall|h: Seq<u8>|
            (exists|i: int| 0 <= i < records.len() && (#[trigger] records[i]).0@ == h) implies swarm_of(
                out,
                h,
            ) == Some(Swarm { peers: swarm_or_new(s, h).peers, downloaded: table[h] }) by {
            if h != last.0@ {
                let i = choose|i: int| 0 <= i < records.len() && (#[trigger] records[i]).0@ == h;
                assert(front[i] == records[i]);
            }
        }
    }
}

/// The number of buckets of the index.
const BUCKETS: usize = 65536;

/// The bucket of an info-hash: the number that its first two bytes stand
/// for.
spec fn bucket_of(h: Seq<u8>) -> int {
    h[0] as int * 256 + h[1] as int
}

/// Whether `i` is among the positions of a bucket.
spec fn listed(list: Seq<usize>, i: int) -> bool {
    exists|j: int| 0 <= j < list.len() && #[trigger] list[j] == i
}

/// What makes the buckets an index of the swarms: every position that a
/// bucket holds is a position of a swarm whose info-hash belongs to the
/// bucket, and the position of every swarm is in the bucket of its
/// info-hash.
spec fn index_ok(s: Swarms, buckets: Seq<Vec<usize>>) -> bool {
    &&& buckets.len() == BUCKETS
    &&& forall|b: int, j: int|
        0 <= b < buckets.len() && 0 <= j < buckets[b]@.len() ==> (#[trigger] buckets[b]@[j]) < s.len()
            && bucket_of(s[buckets[b]@[j] as int].0) == b
    &&& forall|i: int| 0 <= i < s.len() ==> listed(buckets[bucket_of((#[trigger] s[i]).0)]@, i)
}

/// An index of some swarms is an index of all swarms with the same
/// info-hashes at the same positions.
proof fn lemma_index_same_hashes(s: Swarms, t: Swarms, buckets: Seq<Vec<usize>>)
    requires
        index_ok(s, buckets),
        s.len() == t.len(),
        forall|i: int| 0 <= i < s.len() ==> (#[trigger] s[i]).0 == t[i].0,
    ensures
        index_ok(t, buckets),
{
    assert forall|i: int| 0 <= i < t.len() implies listed(
        buckets[bucket_of((#[trigger] t[i]).0)]@,
        i,
    ) by {
        assert(s[i].0 == t[i].0);
    }
}

/// Putting the position of a new swarm into the bucket of its info-hash
/// keeps the index.
proof fn lemma_index_push(
    s: Swarms,
    buckets: Seq<Vec<usize>>,
    h: Seq<u8>,
    swarm: Swarm,
    longer: Vec<usize>,
)
    requires
        index_ok(s, buckets),
        s.len() < usize::MAX,
        longer@ == buckets[bucket_of(h)]@.push(s.len() as usize),
    ensures
        index_ok(s.push((h, swarm)), buckets.update(bucket_of(h), longer)),
{
    let t = s.push((h, swarm));
    let bk = bucket_of(h);
    let after = buckets.update(bk, longer);
    assert forall|i: int| 0 <= i < t.len() implies listed(after[bucket_of((#[trigger] t[i]).0)]@, i) by {
        if i < s.len() {
            let b = bucket_of(s[i].0);
            let j = choose|j: int| 0 <= j < buckets[b]@.len() && #[trigger] buckets[b]@[j] == i;
            assert(after[b]@[j] == i);
        } else {
            assert(after[bk]@[buckets[bk]@.len() as int] == i);
        }
    }
}

/// The tracker's swarms, by info-hash.
///
/// The swarms are kept in one list. To find a swarm without going through
/// the list, an index holds, for each pair of first bytes, the positions
/// of the swarms whose info-hashes begin with it.
pub struct Torrents {
    items: Vec<(InfoHash, Entry)>,
    buckets: Vec<Vec<usize>>,
}

/// What a stored pair stands for: the bytes of its info-hash and its
/// swarm.
pub open spec fn slot_view() -> spec_fn((InfoHash, Entry)) -> (Seq<u8>, Swarm) {
    |t: (InfoHash, Entry)| (t.0@, t.1@)
}

impl View for Torrents {
    type V = Swarms;

    closed spec fn view(&self) -> Swarms {
        self.items@.map_values(slot_view())
    }
}

impl Torrents {
    /// No info-hash occurs twice and every swarm is well formed. Every
    /// repository built through this interface is well formed, and every
    /// operation keeps it so.
    pub open spec fn wf(&self) -> bool {
        &&& distinct_hashes(self@)
        &&& all_wf(self@)
        &&& self.indexed()
    }

    /// The index fits the swarms.
    pub closed spec fn indexed(&self) -> bool {
        index_ok(self@, self.buckets@)
    }

    /// A repository without swarms.
    pub fn new() -> (r: Self)
        ensures
            r.wf(),
            r@ == Seq::<(Seq<u8>, Swarm)>::empty(),
    {
        let r = Torrents { items: Vec::new(), buckets: empty_buckets() };
        r
    }

    /// Makes the index anew, after swarms were taken out.
    fn reindex(&mut self)
        ensures
            final(self)@ == old(self)@,
            final(self).indexed(),
    {
        let mut buckets = empty_buckets();
        let mut i: usize = 0;
        let ghost s = self@;
        while i < self.items.len()
            invariant
                s == self@,
                s.len() == self.items@.len(),
                i <= self.items.len(),
                index_ok(s.take(i as int), buckets@),
            decreases self.items.len() - i,
        {
            let b = bucket(&self.items[i].0);
            let ghost before = buckets@;
            buckets[b].push(i);
            proof {
                assert(s.take(i + 1) =~= s.take(i as int).push(s[i as int]));
                lemma_index_push(s.take(i as int), before, s[i as int].0, s[i as int].1, buckets@[b as int]);
            }
            i += 1;
        }
        assert(s.take(s.len() as int) == s);
        self.buckets = buckets;
    }

    fn position(&self, info_hash: &InfoHash) -> (r: Option<usize>)
        requires
            self.wf(),
        ensures
            r is Some <==> has_torrent(self@, info_hash@),
            r matches Some(i) ==> i < self@.len() && i == torrent_index(self@, info_hash@)
                && self@[i as int].0 == info_hash@ && self@[i as int].1 == self.items@[i as int].1@,
    {
        let b = bucket(info_hash);
        let list = &self.buckets[b];
        let mut j: usize = 0;
        while j < list.len()
            invariant
                self.wf(),
                b == bucket_of(info_hash@),
                *list == self.buckets@[b as int],
                j <= list@.len(),
                forall|k: int| 0 <= k < j ==> self@[list@[k] as int].0 != info_hash@,
            decreases list@.len() - j,
        {
            let p = list[j];
            if self.items[p].0 == *info_hash {
                proof {
                    lemma_swarm_at(self@, p as int);
                }
                return Some(p);
            }
            j += 1;
        }
        proof {
            if has_torrent(self@, info_hash@) {
                let i = torrent_index(self@, info_hash@);
                assert(listed(self.buckets@[bucket_of(self@[i].0)]@, i));
            }
        }
        None
    }

    /// The entry under `info_hash`, if there is one.
    pub fn get(&self, info_hash: &InfoHash) -> (r: Option<&Entry>)
        requires
            self.wf(),
        ensures
            match r {
                Some(entry) => swarm_of(self@, info_hash@) == Some(entry@) && entry.wf(),
                None => swarm_of(self@, info_hash@) is None,
            },
    {
        match self.position(info_hash) {
            Some(i) => {
                Some(&self.items[i].1)
            },
            None => None,
        }
    }

    /// The counts of the swarm under `info_hash` as of `cutoff`, if there
    /// is one.
    pub fn get_swarm_metadata(&self, info_hash: &InfoHash, cutoff: DurationSinceUnixEpoch) -> (r: Option<
        SwarmMetadata,
    >)
        requires
            self.wf(),
        ensures
            r == match swarm_of(self@, info_hash@) {
                Some(swarm) => Some(swarm.metadata(cutoff)),
                None => None,
            },
    {
        match self.get(info_hash) {
            Some(entry) => Some(entry.get_swarm_metadata(cutoff)),
            None => None,
        }
    }

    /// Takes in an announce of `peer` for `info_hash`. The result says
    /// whether it counted as a completed download.
    pub fn upsert_peer(&mut self, info_hash: &InfoHash, peer: &Peer) -> (counted: bool)
        requires
            old(self).wf(),
        ensures
            final(self).wf(),
            final(self)@ == with_announce(old(self)@, info_hash@, *peer),
            counted == match swarm_of(old(self)@, info_hash@) {
                Some(swarm) => swarm.counts_as_download(*peer),
                None => false,
            },
    {
        match self.position(info_hash) {
            Some(i) => {
                let counted = self.items[i].1.upsert_peer(peer);
                proof {
                    let before = old(self)@;
                    let after = self@;
                    assert(after =~= before.update(
                        i as int,
                        (info_hash@, before[i as int].1.upsert(*peer)),
                    ));
                    lemma_index_same_hashes(before, after, self.buckets@);
                }
                counted
            },
            None => {
                let mut entry = Entry::new(0);
                let counted = entry.upsert_peer(peer);
                self.add(*info_hash, entry);
                counted
            },
        }
    }

    /// Puts a swarm under an info-hash that has none yet, behind the
    /// others.
    fn add(&mut self, info_hash: InfoHash, entry: Entry)
        requires
            old(self).indexed(),
        ensures
            final(self).indexed(),
            final(self).items@ == old(self).items@.push((info_hash, entry)),
            final(self)@ == old(self)@.push((info_hash@, entry@)),
    {
        let b = bucket(&info_hash);
        let position = self.items.len();
        self.items.push((info_hash, entry));
        let longer = self.items.len();
        let ghost before = self.buckets@;
        self.buckets[b].push(position);
        proof {
            assert(self@ =~= old(self)@.push((info_hash@, entry@)));
            lemma_index_push(old(self)@, before, info_hash@, entry@, self.buckets@[b as int]);
        }
    }

    /// The counts of all swarms together, as of `cutoff`.
    pub fn get_metrics(&self, cutoff: DurationSinceUnixEpoch) -> (r: TorrentsMetrics)
        requires
            self.wf(),
        ensures
            r == metrics_of(self@, cutoff),
    {
        let mut complete: u128 = 0;
        let mut downloaded: u128 = 0;
        let mut incomplete: u128 = 0;
        let mut i: usize = 0;
        while i < self.items.len()
            invariant
                i <= self.items.len(),
                complete == sum_complete(self@.take(i as int), cutoff),
                downloaded == sum_downloaded(self@.take(i as int)),
                incomplete == sum_incomplete(self@.take(i as int), cutoff),
                complete <= i * 0xffff_ffff,
                downloaded <= i * 0xffff_ffff,
                incomplete <= i * 0xffff_ffff,
            decreases self.items.len() - i,
        {
            proof {
                assert(self@.take(i + 1).drop_last() =~= self@.take(i as int));
            }
            let stats = self.items[i].1.get_swarm_metadata(cutoff);
            complete = complete + stats.complete as u128;
            downloaded = downloaded + stats.downloaded as u128;
            incomplete = incomplete + stats.incomplete as u128;
            i += 1;
        }
        assert(self@.take(self@.len() as int) == self@);
        TorrentsMetrics {
            complete: saturate(complete),
            downloaded: saturate(downloaded),
            incomplete: saturate(incomplete),
            torrents: self.items.len() as u64,
        }
    }

    /// Drops, from every swarm, the peers that announced last before
    /// `cutoff`.
    pub fn remove_inactive_peers(&mut self, cutoff: DurationSinceUnixEpoch)
        requires
            old(self).wf(),
        ensures
            final(self).wf(),
            final(self)@ == old(self)@.map_values(dropping_inactive(cutoff)),
    {
        let ghost before = self@;
        let mut i: usize = 0;
        while i < self.items.len()
            invariant
                before == old(self)@,
                i <= self.items.len(),
                self@.len() == before.len(),
                distinct_hashes(self@),
                all_wf(self@),
                self.indexed(),
                forall|j: int| 0 <= j < i ==> self@[j] == dropping_inactive(cutoff)(before[j]),
                forall|j: int| i <= j < before.len() ==> self@[j] == before[j],
            decreases self.items.len() - i,
        {
            let ghost prev = self@;
            assert(prev[i as int].1.wf());
            self.items[i].1.remove_inactive_peers(cutoff);
            proof {
                let now = self@;
                assert(now =~= prev.update(
                    i as int,
                    (prev[i as int].0, prev[i as int].1.without_inactive(cutoff)),
                ));
                lemma_index_same_hashes(prev, now, self.buckets@);
            }
            i += 1;
        }
    }

    /// Drops the swarms that `policy` does not keep in a cleanup with the
    /// given cutoff.
    pub fn remove_peerless_torrents(&mut self, policy: &TrackerPolicy, cutoff: DurationSinceUnixEpoch)
        requires
            old(self).wf(),
        ensures
            final(self).wf(),
            final(self)@ == old(self)@.filter(retained_by(*policy, cutoff)),
    {
        let ghost before = self@;
        let ghost mut k: int = 0;
        let mut i: usize = 0;
        proof {
            assert(before.take(0).filter(retained_by(*policy, cutoff)).len() == 0) by {
                before.take(0).lemma_filter_len(retained_by(*policy, cutoff));
            }
        }
        while i < self.items.len()
            invariant
                before == old(self)@,
                0 <= k <= before.len(),
                i == before.take(k).filter(retained_by(*policy, cutoff)).len(),
                self@ == before.take(k).filter(retained_by(*policy, cutoff)) + before.skip(k),
            decreases before.len() - k,
        {
            proof {
                assert(self@[i as int] == before.skip(k)[0]);
                before.lemma_take_succ_push(k);
                before.take(k).lemma_filter_push(before[k], retained_by(*policy, cutoff));
            }
            if self.items[i].1.meets_retaining_policy(policy, cutoff) {
                proof {
                    k = k + 1;
                }
                i += 1;
            } else {
                let ghost prev = self@;
                let dropped = self.items.remove(i);
                proof {
                    assert(self@ =~= prev.remove(i as int));
                    k = k + 1;
                }
            }
        }
        self.reindex();
        proof {
            assert(before.take(k) == before);
            crate::swarm::lemma_filter_keeps_distinct(before, retained_by(*policy, cutoff), hash_of());
            assert forall|a: int| 0 <= a < self@.len() implies (#[trigger] self@[a]).1.wf() by {
                assert(before.contains(self@[a]));
            }
        }
    }

    /// Takes in the counters that were read from the database, one after
    /// the other: each becomes the counter of its swarm, whose peers stay.
    pub fn import_persistent(&mut self, records: &PersistentTorrents)
        requires
            old(self).wf(),
        ensures
            final(self).wf(),
            final(self)@ == with_records(old(self)@, records@),
    {
        let ghost before = self@;
        let mut k: usize = 0;
        while k < records.len()
            invariant
                before == old(self)@,
                k <= records.len(),
                self.wf(),
                self@ == with_records(before, records@.take(k as int)),
            decreases records.len() - k,
        {
            proof {
                assert(records@.take(k + 1).drop_last() =~= records@.take(k as int));
            }
            let info_hash = records[k].0;
            let downloaded = records[k].1;
            let ghost prev = self@;
            match self.position(&info_hash) {
                Some(i) => {
                    self.items[i].1.set_downloaded(downloaded);
                    proof {
                        let now = self@;
                        assert(now =~= prev.update(
                            i as int,
                            (info_hash@, Swarm { peers: prev[i as int].1.peers, downloaded }),
                        ));
                        lemma_index_same_hashes(prev, now, self.buckets@);
                    }
                },
                None => {
                    self.add(info_hash, Entry::new(downloaded));
                },
            }
            k += 1;
        }
        assert(records@.take(records@.len() as int) == records@);
    }
}

/// The info-hash of a stored swarm.
pub open spec fn hash_of() -> spec_fn((Seq<u8>, Swarm)) -> Seq<u8> {
    |t: (Seq<u8>, Swarm)| t.0
}

/// The bucket of an info-hash.
fn bucket(info_hash: &InfoHash) -> (b: usize)
    ensures
        b == bucket_of(info_hash@),
        b < BUCKETS,
{
    (info_hash.0[0] as usize) * 256 + (info_hash.0[1] as usize)
}

/// An index without positions.
fn empty_buckets() -> (buckets: Vec<Vec<usize>>)
    ensures
        index_ok(Seq::<(Seq<u8>, Swarm)>::empty(), buckets@),
{
    let mut buckets: Vec<Vec<usize>> = Vec::new();
    let mut b: usize = 0;
    while b < BUCKETS
        invariant
            b <= BUCKETS,
            buckets@.len() == b,
            forall|k: int| 0 <= k < b ==> (#[trigger] buckets@[k])@.len() == 0,
        decreases BUCKETS - b,
    {
        buckets.push(Vec::new());
        b += 1;
    }
    buckets
}

/// A sum as a `u64`, with `u64::MAX` for all that is above it.
fn saturate(n: u128) -> (r: u64)
    ensures
        r == clamp_u64(n as nat),
{
    if n > u64::MAX as u128 {
        u64::MAX
    } else {
        n as u64
    }
}

} // verus!
