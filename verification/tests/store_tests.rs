use tracker_core::assoc::AssocList;
use tracker_core::auth::{Key, PeerKey};
use tracker_core::databases::{Database, Error, MemoryDatabase};
use tracker_core::primitives::{DurationSinceUnixEpoch, InfoHash, SwarmMetadata};
use tracker_core::statistics::{Event, Metrics};
use tracker_core::tracker::{AnnounceData, ScrapeData};

fn hash(n: u8) -> InfoHash {
    InfoHash([n; 20])
}

fn key(last: char) -> Key {
    Key::new(&format!("YZSl4lMZupRuOpSRC3krIKR5BPB14nr{last}")).unwrap()
}

#[test]
fn a_list_of_pairs_holds_one_value_for_each_key() {
    let mut list: AssocList<InfoHash, u32> = AssocList::new();
    assert_eq!(list.len(), 0);
    assert_eq!(list.insert(hash(1), 10), None);
    assert_eq!(list.insert(hash(2), 20), None);
    assert_eq!(list.insert(hash(1), 11), Some(10));

    assert_eq!(list.len(), 2);
    assert_eq!(list.get(&hash(1)), Some(&11));
    assert_eq!(list.get(&hash(3)), None);
    assert!(list.contains_key(&hash(2)));
    assert_eq!(list.position(&hash(2)), Some(1));
    assert_eq!(list.key_at(0), &hash(1));
    assert_eq!(list.value_at(1), &20);

    assert_eq!(list.remove(&hash(1)), Some(11));
    assert_eq!(list.remove(&hash(1)), None);
    assert_eq!(list.remove(&hash(2)), Some(20));
    assert_eq!(list.len(), 0);

    list.insert(hash(4), 40);
    list.clear();
    assert!(!list.contains_key(&hash(4)));
}

#[test]
fn the_store_in_memory_keeps_the_whitelist() {
    let mut database = MemoryDatabase::new();

    assert_eq!(database.is_info_hash_whitelisted(hash(1)), Ok(false));
    assert_eq!(database.add_info_hash_to_whitelist(hash(1)), Ok(1));
    assert_eq!(database.add_info_hash_to_whitelist(hash(1)), Err(Error::InsertFailed));
    assert_eq!(database.add_info_hash_to_whitelist(hash(2)), Ok(1));
    assert_eq!(database.is_info_hash_whitelisted(hash(1)), Ok(true));
    assert_eq!(database.load_whitelist(), Ok(vec![hash(1), hash(2)]));

    assert_eq!(database.remove_info_hash_from_whitelist(hash(1)), Ok(1));
    assert_eq!(database.remove_info_hash_from_whitelist(hash(1)), Err(Error::DeleteFailed));
    assert_eq!(database.load_whitelist(), Ok(vec![hash(2)]));
}

#[test]
fn the_store_in_memory_keeps_the_keys() {
    let mut database = MemoryDatabase::new();
    let expiring = PeerKey { key: key('A'), valid_until: Some(DurationSinceUnixEpoch::new(5, 0)) };
    let permanent = PeerKey { key: key('B'), valid_until: None };

    assert_eq!(database.add_key_to_keys(&expiring), Ok(1));
    assert_eq!(database.add_key_to_keys(&permanent), Ok(1));
    assert_eq!(database.add_key_to_keys(&expiring), Err(Error::InsertFailed));
    assert_eq!(database.load_keys(), Ok(vec![expiring.clone(), permanent.clone()]));

    assert_eq!(database.remove_key_from_keys(&key('A')), Ok(1));
    assert_eq!(database.remove_key_from_keys(&key('A')), Err(Error::DeleteFailed));
    assert_eq!(database.load_keys(), Ok(vec![permanent]));
}

#[test]
fn the_store_in_memory_keeps_the_completed_downloads() {
    let mut database = MemoryDatabase::new();

    assert_eq!(database.load_persistent_torrents(), Ok(vec![]));
    assert_eq!(database.save_persistent_torrent(&hash(1), 3), Ok(()));
    assert_eq!(database.save_persistent_torrent(&hash(2), 4), Ok(()));
    assert_eq!(database.save_persistent_torrent(&hash(1), 5), Ok(()));
    assert_eq!(database.load_persistent_torrents(), Ok(vec![(hash(1), 5), (hash(2), 4)]));

    assert_eq!(database.drop_database_tables(), Ok(()));
    assert_eq!(database.load_persistent_torrents(), Ok(vec![]));
}

#[test]
fn answers_to_a_scrape_are_the_same_whatever_the_order_of_their_torrents() {
    let one = SwarmMetadata { downloaded: 1, complete: 2, incomplete: 3 };
    let mut a = ScrapeData::empty();
    a.add_file(&hash(1), one);
    a.add_file_with_zeroed_metadata(&hash(2));
    let mut b = ScrapeData::empty();
    b.add_file_with_zeroed_metadata(&hash(2));
    b.add_file(&hash(1), SwarmMetadata::zeroed());
    b.add_file(&hash(1), one);

    assert!(a.same_files(&b));
    assert!(b.same_files(&a));
    assert_eq!(a.len(), 2);
    assert_eq!(a.get(&hash(1)), Some(one));
    assert_eq!(a.get(&hash(3)), None);

    b.add_file_with_zeroed_metadata(&hash(3));
    assert!(!a.same_files(&b));
    assert!(!b.same_files(&a));

    let mut c = ScrapeData::empty();
    c.add_file(&hash(1), one);
    c.add_file(&hash(2), one);
    assert!(!a.same_files(&c));
}

#[test]
fn a_zeroed_answer_holds_zeros_for_each_torrent_once() {
    let zeroed = ScrapeData::zeroed(&vec![hash(1), hash(2), hash(1)]);

    assert_eq!(zeroed.len(), 2);
    assert_eq!(zeroed.get(&hash(1)), Some(SwarmMetadata::zeroed()));
    assert_eq!(zeroed.get(&hash(2)), Some(SwarmMetadata::zeroed()));
    assert!(ScrapeData::zeroed(&vec![]).same_files(&ScrapeData::empty()));
}

#[test]
fn an_answer_to_an_announce_starts_empty() {
    let answer = AnnounceData::default();

    assert_eq!(answer.peers, vec![]);
    assert_eq!(answer.stats, SwarmMetadata::zeroed());
    assert_eq!(answer, AnnounceData::new(vec![], SwarmMetadata::zeroed(), answer.policy));
}

#[test]
fn a_request_over_tcp_counts_as_a_connection_too() {
    let mut metrics = Metrics::default();
    metrics.record(Event::Tcp4Announce);
    metrics.record(Event::Tcp4Scrape);
    metrics.record(Event::Tcp6Announce);
    metrics.record(Event::Udp4Connect);
    metrics.record(Event::Udp4Announce);
    metrics.record(Event::Udp6Scrape);

    assert_eq!(
        metrics,
        Metrics {
            tcp4_connections_handled: 2,
            tcp4_announces_handled: 1,
            tcp4_scrapes_handled: 1,
            tcp6_connections_handled: 1,
            tcp6_announces_handled: 1,
            tcp6_scrapes_handled: 0,
            udp4_connections_handled: 1,
            udp4_announces_handled: 1,
            udp4_scrapes_handled: 0,
            udp6_connections_handled: 0,
            udp6_announces_handled: 0,
            udp6_scrapes_handled: 1,
        }
    );
}

#[test]
fn a_counter_of_requests_stays_at_its_highest_value() {
    let mut metrics = Metrics { udp6_connections_handled: u64::MAX, ..Metrics::default() };
    metrics.record(Event::Udp6Connect);

    assert_eq!(metrics.udp6_connections_handled, u64::MAX);
}
