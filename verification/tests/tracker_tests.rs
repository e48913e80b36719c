use tracker_core::auth::{Error as AuthError, Key};
use tracker_core::config::{AnnouncePolicy, Core, Network, PrivateMode, TrackerPolicy, TORRENT_PEERS_LIMIT};
use tracker_core::databases::{Database, Error as DatabaseError, MemoryDatabase, UnreachableDatabase};
use tracker_core::error::{Error, PeerKeyError};
use tracker_core::primitives::{
    AnnounceEvent, DurationSinceUnixEpoch, InfoHash, IpAddr, Ipv4Addr, Peer, PeerId, SocketAddr,
    SwarmMetadata, TorrentsMetrics,
};
use tracker_core::tracker::{AddKeyRequest, AnnounceData, PeersWanted, ScrapeData, Tracker};

fn ephemeral() -> Core {
    Core {
        private: false,
        listed: false,
        announce_policy: AnnouncePolicy { interval: 120, interval_min: 120 },
        net: Network { on_reverse_proxy: false, external_ip: Some(IpAddr::V4(Ipv4Addr::new(0, 0, 0, 0))) },
        tracker_policy: TrackerPolicy {
            max_peer_timeout: 900,
            persistent_torrent_completed_stat: false,
            remove_peerless_torrents: true,
        },
        private_mode: None,
    }
}

fn tracker_factory(config: &Core) -> Tracker<MemoryDatabase> {
    Tracker::new(config, MemoryDatabase::new())
}

fn public_tracker() -> Tracker<MemoryDatabase> {
    tracker_factory(&ephemeral())
}

fn private_config() -> Core {
    let mut config = ephemeral();
    config.private = true;
    config
}

fn private_tracker() -> Tracker<MemoryDatabase> {
    tracker_factory(&private_config())
}

fn private_tracker_that_does_not_check_keys_expiration() -> Tracker<MemoryDatabase> {
    let mut config = private_config();
    config.private_mode = Some(PrivateMode { check_keys_expiration: false });
    tracker_factory(&config)
}

fn listed_config() -> Core {
    let mut config = ephemeral();
    config.listed = true;
    config
}

fn whitelisted_tracker() -> Tracker<MemoryDatabase> {
    tracker_factory(&listed_config())
}

fn persisting_config() -> Core {
    let mut config = ephemeral();
    config.tracker_policy.persistent_torrent_completed_stat = true;
    config
}

fn tracker_persisting_torrents_in_database() -> Tracker<MemoryDatabase> {
    tracker_factory(&persisting_config())
}

/// The time at which the tests take place.
fn now() -> DurationSinceUnixEpoch {
    DurationSinceUnixEpoch::new(1_700_000_000, 0)
}

fn info_hash_from_hex(hex: &str) -> InfoHash {
    let parsed = hex.parse::<bittorrent_primitives::info_hash::InfoHash>().unwrap();
    InfoHash(parsed.bytes())
}

fn sample_info_hash() -> InfoHash {
    info_hash_from_hex("3b245504cf5f11bbdbe1201cea6a6bf45aee1bc0")
}

// The client peer IP
fn peer_ip() -> IpAddr {
    IpAddr::V4(Ipv4Addr::new(126, 0, 0, 1))
}

/// Sample peer whose state is not relevant for the tests
fn sample_peer() -> Peer {
    complete_peer()
}

/// Sample peer when for tests that need more than one peer
fn sample_peer_1() -> Peer {
    Peer {
        peer_id: PeerId(*b"-qB00000000000000001"),
        peer_addr: SocketAddr::new(IpAddr::V4(Ipv4Addr::new(126, 0, 0, 1)), 8081),
        updated: DurationSinceUnixEpoch::new(1_669_397_478_934, 0),
        uploaded: 0,
        downloaded: 0,
        left: 0,
        event: AnnounceEvent::Completed,
    }
}

/// Sample peer when for tests that need more than one peer
fn sample_peer_2() -> Peer {
    Peer {
        peer_id: PeerId(*b"-qB00000000000000002"),
        peer_addr: SocketAddr::new(IpAddr::V4(Ipv4Addr::new(126, 0, 0, 2)), 8082),
        updated: DurationSinceUnixEpoch::new(1_669_397_478_934, 0),
        uploaded: 0,
        downloaded: 0,
        left: 0,
        event: AnnounceEvent::Completed,
    }
}

fn seeder() -> Peer {
    complete_peer()
}

fn leecher() -> Peer {
    incomplete_peer()
}

fn started_peer() -> Peer {
    incomplete_peer()
}

fn completed_peer() -> Peer {
    complete_peer()
}

/// A peer that counts as `complete` in the swarm metadata. Its completed
/// download only counts if the peer has announced at least once before.
fn complete_peer() -> Peer {
    Peer {
        peer_id: PeerId(*b"-qB00000000000000000"),
        peer_addr: SocketAddr::new(IpAddr::V4(Ipv4Addr::new(126, 0, 0, 1)), 8080),
        updated: DurationSinceUnixEpoch::new(1_669_397_478_934, 0),
        uploaded: 0,
        downloaded: 0,
        left: 0, // No bytes left to download
        event: AnnounceEvent::Completed,
    }
}

/// A peer that counts as `incomplete` in the swarm metadata
fn incomplete_peer() -> Peer {
    Peer {
        peer_id: PeerId(*b"-qB00000000000000000"),
        peer_addr: SocketAddr::new(IpAddr::V4(Ipv4Addr::new(126, 0, 0, 1)), 8080),
        updated: DurationSinceUnixEpoch::new(1_669_397_478_934, 0),
        uploaded: 0,
        downloaded: 0,
        left: 1000, // Still bytes to download
        event: AnnounceEvent::Started,
    }
}

/// It generates a peer id from a number where the number is the last
/// part of the peer ID. For example, for `12` it returns
/// `-qB00000000000000012`.
fn numeric_peer_id(two_digits_value: i32) -> PeerId {
    // Format idx as a string with leading zeros, ensuring it has exactly 2 digits
    let idx_str = format!("{two_digits_value:02}");

    // Create the base part of the peer ID.
    let base = b"-qB00000000000000000";

    // Concatenate the base with idx bytes, ensuring the total length is 20 bytes.
    let mut peer_id_bytes = [0u8; 20];
    peer_id_bytes[..base.len()].copy_from_slice(base);
    peer_id_bytes[base.len() - idx_str.len()..].copy_from_slice(idx_str.as_bytes());

    PeerId(peer_id_bytes)
}

fn numbered_peer(idx: i32) -> Peer {
    Peer {
        peer_id: numeric_peer_id(idx),
        peer_addr: SocketAddr::new(IpAddr::V4(Ipv4Addr::new(126, 0, 0, idx.try_into().unwrap())), 8080),
        updated: DurationSinceUnixEpoch::new(1_669_397_478_934, 0),
        uploaded: 0,
        downloaded: 0,
        left: 0, // No bytes left to download
        event: AnnounceEvent::Completed,
    }
}

fn sample_key() -> Key {
    Key::new("YZSl4lMZupRuOpSRC3krIKR5BPB14nrJ").unwrap()
}

#[test]
fn should_collect_torrent_metrics() {
    let tracker = public_tracker();

    let torrents_metrics = tracker.get_torrents_metrics();

    assert_eq!(
        torrents_metrics,
        TorrentsMetrics {
            complete: 0,
            downloaded: 0,
            incomplete: 0,
            torrents: 0
        }
    );
}

#[test]
fn it_should_return_the_peers_for_a_given_torrent() {
    let mut tracker = public_tracker();

    let info_hash = sample_info_hash();
    let peer = sample_peer();

    tracker.upsert_peer_and_get_stats(&info_hash, &peer);

    let peers = tracker.get_torrent_peers(&info_hash);

    assert_eq!(peers, vec![peer]);
}

#[test]
fn it_should_return_74_peers_at_the_most_for_a_given_torrent() {
    let mut tracker = public_tracker();

    let info_hash = sample_info_hash();

    for idx in 1..=75 {
        let peer = numbered_peer(idx);

        tracker.upsert_peer_and_get_stats(&info_hash, &peer);
    }

    let peers = tracker.get_torrent_peers(&info_hash);

    assert_eq!(peers.len(), 74);
}

#[test]
fn it_should_return_the_peers_for_a_given_torrent_excluding_a_given_peer() {
    let mut tracker = public_tracker();

    let info_hash = sample_info_hash();
    let peer = sample_peer();

    tracker.upsert_peer_and_get_stats(&info_hash, &peer);

    let peers = tracker.get_peers_for(&info_hash, &peer, TORRENT_PEERS_LIMIT);

    assert_eq!(peers, vec![]);
}

#[test]
fn it_should_return_74_peers_at_the_most_for_a_given_torrent_when_it_filters_out_a_given_peer() {
    let mut tracker = public_tracker();

    let info_hash = sample_info_hash();

    let excluded_peer = sample_peer();

    tracker.upsert_peer_and_get_stats(&info_hash, &excluded_peer);

    // Add 74 peers
    for idx in 2..=75 {
        let peer = numbered_peer(idx);

        tracker.upsert_peer_and_get_stats(&info_hash, &peer);
    }

    let peers = tracker.get_peers_for(&info_hash, &excluded_peer, TORRENT_PEERS_LIMIT);

    assert_eq!(peers.len(), 74);
}

#[test]
fn it_should_return_the_torrent_metrics() {
    let mut tracker = public_tracker();

    tracker.upsert_peer_and_get_stats(&sample_info_hash(), &leecher());

    let torrent_metrics = tracker.get_torrents_metrics();

    assert_eq!(
        torrent_metrics,
        TorrentsMetrics {
            complete: 0,
            downloaded: 0,
            incomplete: 1,
            torrents: 1,
        }
    );
}

#[test]
fn it_should_get_many_the_torrent_metrics() {
    let mut tracker = public_tracker();

    let start_time = std::time::Instant::now();
    for i in 0..1_000_000 {
        tracker.upsert_peer_and_get_stats(
            &InfoHash(bittorrent_primitives::info_hash::fixture::gen_seeded_infohash(&i).bytes()),
            &leecher(),
        );
    }
    let result_a = start_time.elapsed();

    let start_time = std::time::Instant::now();
    let torrent_metrics = tracker.get_torrents_metrics();
    let result_b = start_time.elapsed();

    assert_eq!(
        (torrent_metrics),
        (TorrentsMetrics {
            complete: 0,
            downloaded: 0,
            incomplete: 1_000_000,
            torrents: 1_000_000,
        }),
        "{result_a:?} {result_b:?}"
    );
}

// Handling an announce request

#[test]
fn it_should_return_the_announce_data_with_an_empty_peer_list_when_it_is_the_first_announced_peer() {
    let mut tracker = public_tracker();

    let mut peer = sample_peer();

    let announce_data = tracker.announce(&sample_info_hash(), &mut peer, &peer_ip(), &PeersWanted::All);

    assert_eq!(announce_data.peers, vec![]);
}

#[test]
fn it_should_return_the_announce_data_with_the_previously_announced_peers() {
    let mut tracker = public_tracker();

    let mut previously_announced_peer = sample_peer_1();
    tracker.announce(
        &sample_info_hash(),
        &mut previously_announced_peer,
        &peer_ip(),
        &PeersWanted::All,
    );

    let mut peer = sample_peer_2();
    let announce_data = tracker.announce(&sample_info_hash(), &mut peer, &peer_ip(), &PeersWanted::All);

    assert_eq!(announce_data.peers, vec![previously_announced_peer]);
}

#[test]
fn when_the_peer_is_a_seeder() {
    let mut tracker = public_tracker();

    let mut peer = seeder();

    let announce_data = tracker.announce(&sample_info_hash(), &mut peer, &peer_ip(), &PeersWanted::All);

    assert_eq!(announce_data.stats.complete, 1);
}

#[test]
fn when_the_peer_is_a_leecher() {
    let mut tracker = public_tracker();

    let mut peer = leecher();

    let announce_data = tracker.announce(&sample_info_hash(), &mut peer, &peer_ip(), &PeersWanted::All);

    assert_eq!(announce_data.stats.incomplete, 1);
}

#[test]
fn when_a_previously_announced_started_peer_has_completed_downloading() {
    let mut tracker = public_tracker();

    // We have to announce with "started" event because peer does not count if peer was not previously known
    let mut started_peer = started_peer();
    tracker.announce(&sample_info_hash(), &mut started_peer, &peer_ip(), &PeersWanted::All);

    let mut completed_peer = completed_peer();
    let announce_data = tracker.announce(&sample_info_hash(), &mut completed_peer, &peer_ip(), &PeersWanted::All);

    assert_eq!(announce_data.stats.downloaded, 1);
}

// Handling a scrape request

#[test]
fn it_should_return_a_zeroed_swarm_metadata_for_the_requested_file_if_the_tracker_does_not_have_that_torrent() {
    let tracker = public_tracker();

    let info_hashes = vec![info_hash_from_hex("3b245504cf5f11bbdbe1201cea6a6bf45aee1bc0")];

    let scrape_data = tracker.scrape(&info_hashes);

    let mut expected_scrape_data = ScrapeData::empty();

    expected_scrape_data.add_file_with_zeroed_metadata(&info_hashes[0]);

    assert!(scrape_data.same_files(&expected_scrape_data));
}

#[test]
fn it_should_return_the_swarm_metadata_for_the_requested_file_if_the_tracker_has_that_torrent() {
    let mut tracker = public_tracker();

    let info_hash = info_hash_from_hex("3b245504cf5f11bbdbe1201cea6a6bf45aee1bc0");

    // Announce a "complete" peer for the torrent
    let mut complete_peer = complete_peer();
    tracker.announce(
        &info_hash,
        &mut complete_peer,
        &IpAddr::V4(Ipv4Addr::new(126, 0, 0, 10)),
        &PeersWanted::All,
    );

    // Announce an "incomplete" peer for the torrent
    let mut incomplete_peer = incomplete_peer();
    tracker.announce(
        &info_hash,
        &mut incomplete_peer,
        &IpAddr::V4(Ipv4Addr::new(126, 0, 0, 11)),
        &PeersWanted::All,
    );

    // Scrape
    let scrape_data = tracker.scrape(&vec![info_hash]);

    // The expected swarm metadata for the file. The two announces came from
    // two addresses, so the swarm holds two peers.
    let mut expected_scrape_data = ScrapeData::empty();
    expected_scrape_data.add_file(
        &info_hash,
        SwarmMetadata {
            complete: 1, // the "complete" peer, whose first completed announce is no download
            downloaded: 0,
            incomplete: 1, // the "incomplete" peer we have just announced
        },
    );

    assert!(scrape_data.same_files(&expected_scrape_data));
}

#[test]
fn it_should_allow_scraping_for_multiple_torrents() {
    let tracker = public_tracker();

    let info_hashes = vec![
        info_hash_from_hex("3b245504cf5f11bbdbe1201cea6a6bf45aee1bc0"),
        info_hash_from_hex("99c82bb73505a3c0b453f9fa0e881d6e5a32a0c1"),
    ];

    let scrape_data = tracker.scrape(&info_hashes);

    let mut expected_scrape_data = ScrapeData::empty();
    expected_scrape_data.add_file_with_zeroed_metadata(&info_hashes[0]);
    expected_scrape_data.add_file_with_zeroed_metadata(&info_hashes[1]);

    assert!(scrape_data.same_files(&expected_scrape_data));
}

// Configured as whitelisted: handling authorization

#[test]
fn it_should_authorize_the_announce_and_scrape_actions_on_whitelisted_torrents() {
    let mut tracker = whitelisted_tracker();

    let info_hash = sample_info_hash();

    let result = tracker.add_torrent_to_whitelist(&info_hash);
    assert!(result.is_ok());

    let result = tracker.authorize(&info_hash);
    assert!(result.is_ok());
}

#[test]
fn it_should_not_authorize_the_announce_and_scrape_actions_on_not_whitelisted_torrents() {
    let tracker = whitelisted_tracker();

    let info_hash = sample_info_hash();

    let result = tracker.authorize(&info_hash);
    assert!(result.is_err());
}

// Configured as whitelisted: handling the torrent whitelist

#[test]
fn it_should_add_a_torrent_to_the_whitelist() {
    let mut tracker = whitelisted_tracker();

    let info_hash = sample_info_hash();

    tracker.add_torrent_to_whitelist(&info_hash).unwrap();

    assert!(tracker.is_info_hash_whitelisted(&info_hash));
}

#[test]
fn it_should_remove_a_torrent_from_the_whitelist() {
    let mut tracker = whitelisted_tracker();

    let info_hash = sample_info_hash();

    tracker.add_torrent_to_whitelist(&info_hash).unwrap();

    tracker.remove_torrent_from_whitelist(&info_hash).unwrap();

    assert!(!tracker.is_info_hash_whitelisted(&info_hash));
}

#[test]
fn it_should_load_the_whitelist_from_the_database() {
    let mut tracker = whitelisted_tracker();

    let info_hash = sample_info_hash();

    tracker.add_torrent_to_whitelist(&info_hash).unwrap();

    // Remove torrent from the in-memory whitelist
    tracker.remove_torrent_from_memory_whitelist(&info_hash);
    assert!(!tracker.is_info_hash_whitelisted(&info_hash));

    tracker.load_whitelist_from_database().unwrap();

    assert!(tracker.is_info_hash_whitelisted(&info_hash));
}

// Configured as whitelisted: handling a scrape request

#[test]
fn it_should_be_able_to_build_a_zeroed_scrape_data_for_a_list_of_info_hashes() {
    // Zeroed scrape data is used when the authentication for the scrape request fails.

    let sample_info_hash = sample_info_hash();

    let mut expected_scrape_data = ScrapeData::empty();
    expected_scrape_data.add_file_with_zeroed_metadata(&sample_info_hash);

    assert!(ScrapeData::zeroed(&vec![sample_info_hash]).same_files(&expected_scrape_data));
}

#[test]
fn it_should_return_the_zeroed_swarm_metadata_for_the_requested_file_if_it_is_not_whitelisted() {
    let mut tracker = whitelisted_tracker();

    let info_hash = info_hash_from_hex("3b245504cf5f11bbdbe1201cea6a6bf45aee1bc0");

    let mut peer = incomplete_peer();
    tracker.announce(&info_hash, &mut peer, &peer_ip(), &PeersWanted::All);

    // Announce twice to force non zeroed swarm metadata
    let mut peer = complete_peer();
    tracker.announce(&info_hash, &mut peer, &peer_ip(), &PeersWanted::All);

    let scrape_data = tracker.scrape(&vec![info_hash]);

    // The expected zeroed swarm metadata for the file
    let mut expected_scrape_data = ScrapeData::empty();
    expected_scrape_data.add_file(&info_hash, SwarmMetadata::zeroed());

    assert!(scrape_data.same_files(&expected_scrape_data));
}

// Configured as private: handling authentication

#[test]
fn it_should_fail_authenticating_a_peer_when_it_uses_an_unregistered_key() {
    let tracker = private_tracker();

    let unregistered_key = Key::new("YZSl4lMZupRuOpSRC3krIKR5BPB14nrJ").unwrap();

    let result = tracker.authenticate(&unregistered_key);

    assert!(result.is_err());
}

#[test]
fn it_should_fail_verifying_an_unregistered_authentication_key() {
    let tracker = private_tracker();

    let unregistered_key = Key::new("YZSl4lMZupRuOpSRC3krIKR5BPB14nrJ").unwrap();

    assert!(tracker.verify_auth_key(&unregistered_key).is_err());
}

#[test]
fn it_should_remove_an_authentication_key() {
    let mut tracker = private_tracker();

    let expiring_key = tracker
        .generate_auth_key(Some(DurationSinceUnixEpoch::from_secs(100)))
        .unwrap();

    let result = tracker.remove_auth_key(&expiring_key.key());

    assert!(result.is_ok());
    assert!(tracker.verify_auth_key(&expiring_key.key()).is_err());
}

#[test]
fn it_should_load_authentication_keys_from_the_database() {
    let mut tracker = private_tracker();

    let expiring_key = tracker
        .generate_auth_key(Some(DurationSinceUnixEpoch::from_secs(100)))
        .unwrap();

    // Drop what is in memory: a new tracker over the same database
    let mut tracker = tracker_factory_over(&private_config(), tracker.into_database());
    assert!(tracker.verify_auth_key(&expiring_key.key()).is_err());

    let result = tracker.load_keys_from_database();

    assert!(result.is_ok());
    assert!(tracker.verify_auth_key(&expiring_key.key()).is_ok());
}

fn tracker_factory_over(config: &Core, database: MemoryDatabase) -> Tracker<MemoryDatabase> {
    Tracker::new(config, database)
}

// With expiring and randomly generated keys

#[test]
fn it_should_generate_the_key() {
    let mut tracker = private_tracker();

    let peer_key = tracker
        .generate_auth_key_at(Some(DurationSinceUnixEpoch::from_secs(100)), now())
        .unwrap();

    assert_eq!(
        peer_key.valid_until,
        Some(now().checked_add(&DurationSinceUnixEpoch::from_secs(100)).unwrap())
    );
    assert_eq!(peer_key.valid_until, Some(DurationSinceUnixEpoch::new(1_700_000_100, 0)));
}

#[test]
fn it_should_authenticate_a_peer_with_the_key() {
    let mut tracker = private_tracker();

    let peer_key = tracker
        .generate_auth_key(Some(DurationSinceUnixEpoch::from_secs(100)))
        .unwrap();

    let result = tracker.authenticate(&peer_key.key());

    assert!(result.is_ok());
}

#[test]
fn it_should_accept_an_expired_key_when_checking_expiration_is_disabled_in_configuration() {
    let mut tracker = private_tracker_that_does_not_check_keys_expiration();

    let past_timestamp = DurationSinceUnixEpoch::zero();

    let peer_key = tracker
        .add_auth_key(Key::new("YZSl4lMZupRuOpSRC3krIKR5BPB14nrJ").unwrap(), Some(past_timestamp))
        .unwrap();

    assert!(tracker.authenticate(&peer_key.key()).is_ok());
}

// With expiring and pre-generated keys

#[test]
fn it_should_add_a_pre_generated_key() {
    let mut tracker = private_tracker();

    let peer_key = tracker
        .add_peer_key_at(
            AddKeyRequest {
                opt_key: Some(Key::new("YZSl4lMZupRuOpSRC3krIKR5BPB14nrJ").unwrap().to_string()),
                opt_seconds_valid: Some(100),
            },
            now(),
        )
        .unwrap();

    assert_eq!(
        peer_key.valid_until,
        Some(now().checked_add(&DurationSinceUnixEpoch::from_secs(100)).unwrap())
    );
}

#[test]
fn mod_it_should_authenticate_a_peer_with_the_key() {
    let mut tracker = private_tracker();

    let peer_key = tracker
        .add_peer_key(AddKeyRequest {
            opt_key: Some(Key::new("YZSl4lMZupRuOpSRC3krIKR5BPB14nrJ").unwrap().to_string()),
            opt_seconds_valid: Some(100),
        })
        .unwrap();

    let result = tracker.authenticate(&peer_key.key());

    assert!(result.is_ok());
}

#[test]
fn mod_it_should_accept_an_expired_key_when_checking_expiration_is_disabled_in_configuration() {
    let mut tracker = private_tracker_that_does_not_check_keys_expiration();

    let peer_key = tracker
        .add_peer_key(AddKeyRequest {
            opt_key: Some(Key::new("YZSl4lMZupRuOpSRC3krIKR5BPB14nrJ").unwrap().to_string()),
            opt_seconds_valid: Some(0),
        })
        .unwrap();

    assert!(tracker.authenticate(&peer_key.key()).is_ok());
}

// With permanent and randomly generated keys

#[test]
fn mod_it_should_generate_the_key() {
    let mut tracker = private_tracker();

    let peer_key = tracker.generate_permanent_auth_key().unwrap();

    assert_eq!(peer_key.valid_until, None);
}

#[test]
fn it_should_authenticate_a_peer_with_the_permanent_key_that_was_generated() {
    let mut tracker = private_tracker();

    let peer_key = tracker.generate_permanent_auth_key().unwrap();

    let result = tracker.authenticate(&peer_key.key());

    assert!(result.is_ok());
}

// With permanent and pre-generated keys

#[test]
fn mod_it_should_add_a_pre_generated_key() {
    let mut tracker = private_tracker();

    let peer_key = tracker
        .add_peer_key(AddKeyRequest {
            opt_key: Some(Key::new("YZSl4lMZupRuOpSRC3krIKR5BPB14nrJ").unwrap().to_string()),
            opt_seconds_valid: None,
        })
        .unwrap();

    assert_eq!(peer_key.valid_until, None);
}

#[test]
fn it_should_authenticate_a_peer_with_the_permanent_key_that_was_added() {
    let mut tracker = private_tracker();

    let peer_key = tracker
        .add_peer_key(AddKeyRequest {
            opt_key: Some(Key::new("YZSl4lMZupRuOpSRC3krIKR5BPB14nrJ").unwrap().to_string()),
            opt_seconds_valid: None,
        })
        .unwrap();

    let result = tracker.authenticate(&peer_key.key());

    assert!(result.is_ok());
}

// Handling torrent persistence

#[test]
fn it_should_persist_the_number_of_completed_peers_for_all_torrents_into_the_database() {
    let mut tracker = tracker_persisting_torrents_in_database();

    let info_hash = sample_info_hash();

    let mut peer = sample_peer();

    peer.event = AnnounceEvent::Started;
    let swarm_stats = tracker.upsert_peer_and_get_stats(&info_hash, &peer);
    assert_eq!(swarm_stats.downloaded, 0);

    peer.event = AnnounceEvent::Completed;
    let swarm_stats = tracker.upsert_peer_and_get_stats(&info_hash, &peer);
    assert_eq!(swarm_stats.downloaded, 1);

    // Drop the torrent from memory: a new tracker over the same database
    let mut tracker = tracker_factory_over(&persisting_config(), tracker.into_database());
    assert!(tracker.torrents().get(&info_hash).is_none());

    tracker.load_torrents_from_database().unwrap();

    let torrent_entry = tracker.torrents().get(&info_hash).expect("it should be able to get entry");

    // It persists the number of completed peers.
    assert_eq!(torrent_entry.get_swarm_metadata(DurationSinceUnixEpoch::zero()).downloaded, 1);

    // It does not persist the peers
    assert!(torrent_entry.peers_is_empty());
}

// More of the announce

#[test]
fn the_first_announce_of_a_completed_peer_counts_a_seeder_and_no_download() {
    let mut tracker = public_tracker();

    let mut peer = complete_peer();
    let announce_data = tracker.announce(&sample_info_hash(), &mut peer, &peer_ip(), &PeersWanted::All);

    assert_eq!(
        announce_data,
        AnnounceData {
            peers: vec![],
            stats: SwarmMetadata { complete: 1, downloaded: 0, incomplete: 0 },
            policy: AnnouncePolicy { interval: 120, interval_min: 120 },
        }
    );
}

#[test]
fn the_second_of_two_completed_peers_is_handed_the_first_and_counts_two_seeders() {
    let mut tracker = public_tracker();

    let mut first = complete_peer();
    tracker.announce(&sample_info_hash(), &mut first, &peer_ip(), &PeersWanted::All);

    let mut second = sample_peer_2();
    let announce_data = tracker.announce(
        &sample_info_hash(),
        &mut second,
        &IpAddr::V4(Ipv4Addr::new(126, 0, 0, 2)),
        &PeersWanted::All,
    );

    assert_eq!(announce_data.peers, vec![first]);
    assert_eq!(announce_data.stats.complete, 2);
}

#[test]
fn an_announce_stores_the_peer_under_the_ip_the_request_came_from() {
    let mut tracker = public_tracker();

    let mut peer = sample_peer();
    let remote = IpAddr::V4(Ipv4Addr::new(10, 1, 2, 3));
    tracker.announce(&sample_info_hash(), &mut peer, &remote, &PeersWanted::All);

    assert_eq!(peer.peer_addr, SocketAddr::new(remote, 8080));
    assert_eq!(tracker.get_torrent_peers(&sample_info_hash()), vec![peer]);
}

#[test]
fn an_announce_from_the_loopback_address_stores_the_external_ip_of_the_tracker() {
    let mut config = ephemeral();
    config.net.external_ip = Some(IpAddr::V4(Ipv4Addr::new(126, 0, 0, 1)));
    let mut tracker = tracker_factory(&config);

    let mut peer = sample_peer_2();
    tracker.announce(
        &sample_info_hash(),
        &mut peer,
        &IpAddr::V4(Ipv4Addr::new(127, 0, 0, 1)),
        &PeersWanted::All,
    );

    let stored = tracker.get_torrent_peers(&sample_info_hash());
    assert_eq!(stored.len(), 1);
    assert_eq!(stored[0].peer_addr.ip, IpAddr::V4(Ipv4Addr::new(126, 0, 0, 1)));
    assert_eq!(stored[0].peer_addr.port, 8082);
}

#[test]
fn an_announce_from_the_loopback_address_keeps_it_where_the_tracker_has_no_external_ip() {
    let mut config = ephemeral();
    config.net.external_ip = None;
    let mut tracker = tracker_factory(&config);

    let mut peer = sample_peer_2();
    tracker.announce(
        &sample_info_hash(),
        &mut peer,
        &IpAddr::V4(Ipv4Addr::new(127, 0, 0, 1)),
        &PeersWanted::All,
    );

    let stored = tracker.get_torrent_peers(&sample_info_hash());
    assert_eq!(stored[0].peer_addr.ip, IpAddr::V4(Ipv4Addr::new(127, 0, 0, 1)));
}

#[test]
fn two_announces_from_one_address_leave_one_peer_whatever_the_peer_id() {
    let mut tracker = public_tracker();

    let mut first = numbered_peer(7);
    tracker.announce(&sample_info_hash(), &mut first, &peer_ip(), &PeersWanted::All);
    let mut second = numbered_peer(8);
    second.left = 5;
    let answer = tracker.announce(&sample_info_hash(), &mut second, &peer_ip(), &PeersWanted::All);

    assert_eq!(answer.stats, SwarmMetadata { complete: 0, downloaded: 1, incomplete: 1 });
    assert_eq!(tracker.get_torrent_peers(&sample_info_hash()), vec![second]);
}

#[test]
fn one_peer_id_at_two_addresses_is_two_peers() {
    let mut tracker = public_tracker();

    let mut first = sample_peer();
    tracker.announce(&sample_info_hash(), &mut first, &IpAddr::V4(Ipv4Addr::new(126, 0, 0, 1)), &PeersWanted::All);
    let mut second = sample_peer();
    let answer =
        tracker.announce(&sample_info_hash(), &mut second, &IpAddr::V4(Ipv4Addr::new(126, 0, 0, 2)), &PeersWanted::All);

    assert_eq!(answer.stats.complete, 2);
    assert_eq!(answer.peers, vec![first]);
}

#[test]
fn an_announce_answers_with_74_peers_at_the_most_whatever_is_wanted() {
    let mut tracker = public_tracker();
    let info_hash = sample_info_hash();
    for idx in 1..=100 {
        tracker.upsert_peer_and_get_stats(&info_hash, &numbered_peer(idx));
    }

    let mut few = numbered_peer(101);
    let answer = tracker.announce(&info_hash, &mut few, &IpAddr::V4(Ipv4Addr::new(126, 0, 0, 101)), &PeersWanted::only(3));
    assert_eq!(answer.peers.len(), 74);

    let mut many = numbered_peer(102);
    let answer =
        tracker.announce(&info_hash, &mut many, &IpAddr::V4(Ipv4Addr::new(126, 0, 0, 102)), &PeersWanted::only(90));
    assert_eq!(answer.peers.len(), 74);
    assert!(answer.peers.iter().all(|p| p.peer_addr != many.peer_addr));
}

#[test]
fn a_repeated_completed_announce_counts_again() {
    let mut tracker = public_tracker();
    let info_hash = sample_info_hash();

    let peer = complete_peer();
    assert_eq!(tracker.upsert_peer_and_get_stats(&info_hash, &peer).downloaded, 0);
    assert_eq!(tracker.upsert_peer_and_get_stats(&info_hash, &peer).downloaded, 1);
    assert_eq!(tracker.upsert_peer_and_get_stats(&info_hash, &peer).downloaded, 2);
}

#[test]
fn the_peers_wanted_come_from_a_number() {
    assert_eq!(PeersWanted::from(0), PeersWanted::All);
    assert_eq!(PeersWanted::from(-5), PeersWanted::All);
    assert_eq!(PeersWanted::from(30), PeersWanted::Only { amount: 30 });
    assert_eq!(PeersWanted::only(30), PeersWanted::Only { amount: 30 });
    assert_eq!(PeersWanted::default(), PeersWanted::All);
    assert_eq!(PeersWanted::All.limit(), 74);
    assert_eq!(PeersWanted::only(5).limit(), 5);
}

#[test]
fn the_mode_of_the_tracker_follows_its_settings() {
    let public = public_tracker();
    assert!(public.is_public());
    assert!(!public.is_private());
    assert!(!public.requires_authentication());
    assert!(!public.is_listed());
    assert!(!public.is_behind_reverse_proxy());
    assert_eq!(public.get_announce_policy(), AnnouncePolicy { interval: 120, interval_min: 120 });
    assert_eq!(public.get_maybe_external_ip(), Some(IpAddr::V4(Ipv4Addr::new(0, 0, 0, 0))));

    let private = private_tracker();
    assert!(private.is_private());
    assert!(private.requires_authentication());
    assert!(!private.is_public());

    assert!(whitelisted_tracker().is_listed());
}

// More of the scrape

#[test]
fn a_scrape_on_a_listed_tracker_reports_a_whitelisted_torrent() {
    let mut tracker = whitelisted_tracker();
    let info_hash = sample_info_hash();
    let other = info_hash_from_hex("99c82bb73505a3c0b453f9fa0e881d6e5a32a0c1");
    tracker.add_torrent_to_whitelist(&info_hash).unwrap();

    let mut peer = incomplete_peer();
    tracker.announce(&info_hash, &mut peer, &peer_ip(), &PeersWanted::All);
    let mut peer = incomplete_peer();
    tracker.announce(&other, &mut peer, &peer_ip(), &PeersWanted::All);

    let scrape_data = tracker.scrape(&vec![info_hash, other, info_hash]);

    assert_eq!(scrape_data.len(), 2);
    assert_eq!(scrape_data.get(&info_hash), Some(SwarmMetadata { complete: 0, downloaded: 0, incomplete: 1 }));
    assert_eq!(scrape_data.get(&other), Some(SwarmMetadata::zeroed()));
}

#[test]
fn the_refusal_names_the_torrent() {
    let tracker = whitelisted_tracker();
    let info_hash = sample_info_hash();

    assert_eq!(tracker.authorize(&info_hash), Err(Error::TorrentNotWhitelisted { info_hash }));
    assert_eq!(public_tracker().authorize(&info_hash), Ok(()));
}

// More of the whitelist

#[test]
fn whitelisting_a_torrent_twice_is_whitelisting_it_once() {
    let mut tracker = whitelisted_tracker();
    let info_hash = sample_info_hash();

    tracker.add_torrent_to_whitelist(&info_hash).unwrap();
    tracker.add_torrent_to_whitelist(&info_hash).unwrap();
    assert!(tracker.is_info_hash_whitelisted(&info_hash));

    tracker.remove_torrent_from_whitelist(&info_hash).unwrap();
    assert!(!tracker.is_info_hash_whitelisted(&info_hash));
    assert_eq!(tracker.into_database().is_info_hash_whitelisted(info_hash), Ok(false));
}

#[test]
fn the_whitelist_in_memory_says_whether_it_changed() {
    let mut tracker = whitelisted_tracker();
    let info_hash = sample_info_hash();

    assert!(tracker.add_torrent_to_memory_whitelist(&info_hash));
    assert!(!tracker.add_torrent_to_memory_whitelist(&info_hash));
    assert!(tracker.remove_torrent_from_memory_whitelist(&info_hash));
    assert!(!tracker.remove_torrent_from_memory_whitelist(&info_hash));
}

#[test]
fn removing_a_torrent_from_the_whitelist_of_the_database_leaves_memory_alone() {
    let mut tracker = whitelisted_tracker();
    let info_hash = sample_info_hash();
    tracker.add_torrent_to_whitelist(&info_hash).unwrap();

    tracker.remove_torrent_from_database_whitelist(&info_hash).unwrap();
    // a second removal finds nothing to remove, and succeeds
    tracker.remove_torrent_from_database_whitelist(&info_hash).unwrap();

    assert!(tracker.is_info_hash_whitelisted(&info_hash));
    tracker.load_whitelist_from_database().unwrap();
    assert!(!tracker.is_info_hash_whitelisted(&info_hash));
}

// More of the keys

#[test]
fn a_key_is_refused_once_its_time_has_passed() {
    let mut tracker = private_tracker();
    let until = DurationSinceUnixEpoch::new(1_700_000_100, 0);
    tracker.add_auth_key(sample_key(), Some(until)).unwrap();

    assert_eq!(tracker.authenticate_at(&sample_key(), DurationSinceUnixEpoch::new(1_700_000_099, 0)), Ok(()));
    // at the very time it is still valid
    assert_eq!(tracker.authenticate_at(&sample_key(), until), Ok(()));
    assert_eq!(
        tracker.authenticate_at(&sample_key(), DurationSinceUnixEpoch::new(1_700_000_100, 1)),
        Err(AuthError::KeyExpired)
    );
    assert_eq!(
        tracker.verify_auth_key_at(&sample_key(), DurationSinceUnixEpoch::new(1_700_000_101, 0)),
        Err(AuthError::KeyExpired)
    );
}

#[test]
fn a_permanent_key_never_expires() {
    let mut tracker = private_tracker();
    tracker.add_permanent_auth_key(sample_key()).unwrap();

    assert_eq!(
        tracker.authenticate_at(&sample_key(), DurationSinceUnixEpoch::new(u64::MAX, 999_999_999)),
        Ok(())
    );
}

#[test]
fn an_unknown_key_is_named_in_the_refusal() {
    let tracker = private_tracker();

    assert_eq!(
        tracker.verify_auth_key_at(&sample_key(), now()),
        Err(AuthError::UnableToReadKey { key: sample_key() })
    );
}

#[test]
fn a_public_tracker_lets_every_key_in() {
    let tracker = public_tracker();

    assert_eq!(tracker.authenticate_at(&sample_key(), now()), Ok(()));
    assert_eq!(tracker.authenticate(&sample_key()), Ok(()));
}

#[test]
fn an_expired_key_is_accepted_where_expiration_is_not_checked() {
    let mut tracker = private_tracker_that_does_not_check_keys_expiration();
    tracker.add_auth_key(sample_key(), Some(DurationSinceUnixEpoch::zero())).unwrap();

    assert_eq!(tracker.authenticate_at(&sample_key(), now()), Ok(()));
}

#[test]
fn adding_a_key_and_removing_it_leaves_the_tracker_without_it() {
    let mut tracker = private_tracker();

    tracker.add_auth_key(sample_key(), None).unwrap();
    tracker.remove_auth_key(&sample_key()).unwrap();

    assert!(tracker.verify_auth_key_at(&sample_key(), now()).is_err());
    assert_eq!(tracker.into_database().load_keys(), Ok(vec![]));
}

#[test]
fn a_key_that_the_database_refuses_is_not_added_to_memory() {
    let mut database = MemoryDatabase::new();
    database
        .add_key_to_keys(&tracker_core::auth::PeerKey { key: sample_key(), valid_until: None })
        .unwrap();
    let mut tracker = tracker_factory_over(&private_config(), database);

    // the database holds the key already and refuses to write it again
    assert!(tracker.add_auth_key(sample_key(), None).is_err());
    assert!(tracker.verify_auth_key_at(&sample_key(), now()).is_err());

    assert!(matches!(
        tracker.add_peer_key_at(
            AddKeyRequest { opt_key: Some(sample_key().to_string()), opt_seconds_valid: None },
            now()
        ),
        Err(PeerKeyError::DatabaseError { .. })
    ));
}

#[test]
fn removing_a_key_that_the_database_does_not_hold_fails_and_changes_nothing() {
    let mut tracker = private_tracker();

    assert!(tracker.remove_auth_key(&sample_key()).is_err());
}

#[test]
fn a_key_request_with_too_many_seconds_overflows() {
    let mut tracker = private_tracker();

    let result = tracker.add_peer_key_at(
        AddKeyRequest { opt_key: Some(sample_key().to_string()), opt_seconds_valid: Some(u64::MAX) },
        now(),
    );

    assert_eq!(result, Err(PeerKeyError::DurationOverflow { seconds_valid: u64::MAX }));
    assert!(tracker.verify_auth_key_at(&sample_key(), now()).is_err());
}

#[test]
fn a_key_request_checks_the_key_before_the_seconds() {
    let mut tracker = private_tracker();

    let result = tracker.add_peer_key_at(
        AddKeyRequest { opt_key: Some("no key".to_string()), opt_seconds_valid: Some(u64::MAX) },
        now(),
    );

    assert_eq!(
        result,
        Err(PeerKeyError::InvalidKey {
            key: "no key".to_string(),
            source: tracker_core::auth::ParseKeyError::InvalidKeyLength
        })
    );

    let result = tracker.add_peer_key_at(
        AddKeyRequest { opt_key: Some("short".to_string()), opt_seconds_valid: Some(u64::MAX) },
        DurationSinceUnixEpoch::from_secs(1),
    );

    assert_eq!(
        result,
        Err(PeerKeyError::InvalidKey {
            key: "short".to_string(),
            source: tracker_core::auth::ParseKeyError::InvalidKeyLength
        })
    );
}

#[test]
fn a_key_request_with_a_text_that_is_no_key_is_refused() {
    let mut tracker = private_tracker();

    let short = tracker.add_peer_key_at(
        AddKeyRequest { opt_key: Some("too short".to_string()), opt_seconds_valid: None },
        now(),
    );
    assert_eq!(
        short,
        Err(PeerKeyError::InvalidKey {
            key: "too short".to_string(),
            source: tracker_core::auth::ParseKeyError::InvalidKeyLength
        })
    );

    let text = "YZSl4lMZupRuOpSRC3krIKR5BPB14nr!";
    let odd = tracker.add_peer_key_at(
        AddKeyRequest { opt_key: Some(text.to_string()), opt_seconds_valid: Some(10) },
        now(),
    );
    assert_eq!(
        odd,
        Err(PeerKeyError::InvalidKey {
            key: text.to_string(),
            source: tracker_core::auth::ParseKeyError::InvalidChars
        })
    );
}

#[test]
fn a_key_request_without_a_key_draws_one() {
    let mut tracker = private_tracker();

    let expiring = tracker
        .add_peer_key_at(AddKeyRequest { opt_key: None, opt_seconds_valid: Some(60) }, now())
        .unwrap();
    assert_eq!(expiring.valid_until, Some(DurationSinceUnixEpoch::new(1_700_000_060, 0)));
    assert_eq!(expiring.key.value().len(), 32);
    assert!(expiring.key.value().chars().all(|c| c.is_ascii_alphanumeric()));

    let permanent = tracker
        .add_peer_key_at(AddKeyRequest { opt_key: None, opt_seconds_valid: None }, now())
        .unwrap();
    assert_eq!(permanent.valid_until, None);
    assert_ne!(permanent.key, expiring.key);

    assert_eq!(tracker.authenticate_at(&expiring.key, now()), Ok(()));
    assert_eq!(tracker.authenticate_at(&permanent.key, now()), Ok(()));
}

#[test]
fn a_generated_key_with_a_lifetime_beyond_all_time_is_valid_to_the_end_of_time() {
    let mut tracker = private_tracker();

    let peer_key = tracker
        .generate_auth_key_at(Some(DurationSinceUnixEpoch::from_secs(u64::MAX)), now())
        .unwrap();

    assert_eq!(peer_key.valid_until, Some(DurationSinceUnixEpoch { secs: u64::MAX, nanos: 999_999_999 }));
}

// More of the cleanup

fn peer_updated_at(last_octet: u8, secs: u64, left: u64) -> Peer {
    Peer {
        peer_id: PeerId(*b"-qB00000000000000000"),
        peer_addr: SocketAddr::new(IpAddr::V4(Ipv4Addr::new(126, 0, 0, last_octet)), 8080),
        updated: DurationSinceUnixEpoch::new(secs, 0),
        uploaded: 0,
        downloaded: 0,
        left,
        event: AnnounceEvent::Started,
    }
}

#[test]
fn a_cleanup_drops_the_peers_that_announced_before_the_cutoff() {
    let mut tracker = public_tracker();
    let info_hash = sample_info_hash();
    // the cutoff is 900 seconds before the time of the cleanup
    tracker.upsert_peer_and_get_stats(&info_hash, &peer_updated_at(1, 1_699_999_099, 0));
    tracker.upsert_peer_and_get_stats(&info_hash, &peer_updated_at(2, 1_699_999_100, 0));
    tracker.upsert_peer_and_get_stats(&info_hash, &peer_updated_at(3, 1_699_999_101, 7));

    tracker.cleanup_torrents_at(now());

    assert_eq!(
        tracker.get_torrent_peers(&info_hash),
        vec![peer_updated_at(2, 1_699_999_100, 0), peer_updated_at(3, 1_699_999_101, 7)]
    );
    assert_eq!(
        tracker.get_swarm_metadata_at(&info_hash, now()),
        SwarmMetadata { complete: 1, downloaded: 0, incomplete: 1 }
    );
}

#[test]
fn a_cleanup_drops_the_torrents_that_are_left_without_peers() {
    let mut tracker = public_tracker();
    let info_hash = sample_info_hash();
    let other = info_hash_from_hex("99c82bb73505a3c0b453f9fa0e881d6e5a32a0c1");
    tracker.upsert_peer_and_get_stats(&info_hash, &peer_updated_at(1, 10, 0));
    tracker.upsert_peer_and_get_stats(&other, &peer_updated_at(1, 1_700_000_000, 0));

    tracker.cleanup_torrents_at(now());

    assert_eq!(
        tracker.get_torrents_metrics_at(now()),
        TorrentsMetrics { complete: 1, downloaded: 0, incomplete: 0, torrents: 1 }
    );
    assert!(tracker.torrents().get(&info_hash).is_none());
    assert!(tracker.torrents().get(&other).is_some());
}

#[test]
fn a_cleanup_keeps_peerless_torrents_where_the_tracker_is_set_to() {
    let mut config = ephemeral();
    config.tracker_policy.remove_peerless_torrents = false;
    let mut tracker = tracker_factory(&config);
    tracker.upsert_peer_and_get_stats(&sample_info_hash(), &peer_updated_at(1, 10, 0));

    tracker.cleanup_torrents_at(now());

    assert_eq!(
        tracker.get_torrents_metrics_at(now()),
        TorrentsMetrics { complete: 0, downloaded: 0, incomplete: 0, torrents: 1 }
    );
}

#[test]
fn a_cleanup_keeps_a_peerless_torrent_with_downloads_where_these_are_persisted() {
    let mut tracker = tracker_persisting_torrents_in_database();
    let info_hash = sample_info_hash();
    let mut peer = peer_updated_at(1, 10, 0);
    tracker.upsert_peer_and_get_stats(&info_hash, &peer);
    peer.event = AnnounceEvent::Completed;
    tracker.upsert_peer_and_get_stats(&info_hash, &peer);

    tracker.cleanup_torrents_at(now());

    assert_eq!(
        tracker.get_torrents_metrics_at(now()),
        TorrentsMetrics { complete: 0, downloaded: 1, incomplete: 0, torrents: 1 }
    );
}

#[test]
fn a_cleanup_shortly_after_the_epoch_has_the_epoch_as_its_cutoff() {
    let mut tracker = public_tracker();
    tracker.upsert_peer_and_get_stats(&sample_info_hash(), &peer_updated_at(1, 0, 0));

    tracker.cleanup_torrents_at(DurationSinceUnixEpoch::new(5, 0));

    assert_eq!(tracker.get_torrent_peers(&sample_info_hash()).len(), 1);
}

#[test]
fn a_cleanup_by_the_clock_drops_a_peer_of_long_ago() {
    let mut tracker = public_tracker();
    tracker.upsert_peer_and_get_stats(&sample_info_hash(), &peer_updated_at(1, 1_000_000, 0));
    tracker.upsert_peer_and_get_stats(&sample_info_hash(), &sample_peer_2());

    tracker.cleanup_torrents();

    assert_eq!(tracker.get_torrent_peers(&sample_info_hash()), vec![sample_peer_2()]);
}

// More of the persistence

#[test]
fn loading_the_torrents_sets_the_counter_and_keeps_the_peers_in_memory() {
    let mut database = MemoryDatabase::new();
    database.save_persistent_torrent(&sample_info_hash(), 12).unwrap();
    let mut tracker = tracker_factory_over(&ephemeral(), database);
    tracker.upsert_peer_and_get_stats(&sample_info_hash(), &leecher());

    tracker.load_torrents_from_database().unwrap();

    assert_eq!(
        tracker.get_swarm_metadata(&sample_info_hash()),
        SwarmMetadata { complete: 0, downloaded: 12, incomplete: 1 }
    );
    assert_eq!(tracker.get_torrent_peers(&sample_info_hash()), vec![leecher()]);
}

#[test]
fn a_tracker_that_does_not_persist_writes_no_counter() {
    let mut tracker = public_tracker();
    let peer = sample_peer();
    tracker.upsert_peer_and_get_stats(&sample_info_hash(), &peer);
    tracker.upsert_peer_and_get_stats(&sample_info_hash(), &peer);

    assert_eq!(tracker.into_database().load_persistent_torrents(), Ok(vec![]));
}

#[test]
fn a_tracker_that_persists_writes_the_counter_when_the_counts_change() {
    let mut tracker = tracker_persisting_torrents_in_database();
    let peer = sample_peer();
    tracker.upsert_peer_and_get_stats(&sample_info_hash(), &peer);
    tracker.upsert_peer_and_get_stats(&sample_info_hash(), &peer);

    assert_eq!(tracker.into_database().load_persistent_torrents(), Ok(vec![(sample_info_hash(), 1)]));
}

#[test]
fn dropping_the_tables_empties_the_database_and_leaves_memory() {
    let mut tracker = whitelisted_tracker();
    tracker.add_torrent_to_whitelist(&sample_info_hash()).unwrap();
    tracker.add_auth_key(sample_key(), None).unwrap();

    tracker.drop_database_tables().unwrap();

    assert!(tracker.is_info_hash_whitelisted(&sample_info_hash()));
    tracker.load_whitelist_from_database().unwrap();
    tracker.load_keys_from_database().unwrap();
    assert!(!tracker.is_info_hash_whitelisted(&sample_info_hash()));
    assert!(tracker.verify_auth_key_at(&sample_key(), now()).is_err());
}

#[test]
fn the_metrics_add_up_the_swarms() {
    let mut tracker = public_tracker();
    let other = info_hash_from_hex("99c82bb73505a3c0b453f9fa0e881d6e5a32a0c1");
    let peer = sample_peer();
    tracker.upsert_peer_and_get_stats(&sample_info_hash(), &peer);
    tracker.upsert_peer_and_get_stats(&sample_info_hash(), &peer);
    tracker.upsert_peer_and_get_stats(&sample_info_hash(), &sample_peer_2());
    tracker.upsert_peer_and_get_stats(&other, &leecher());
    tracker.upsert_peer_and_get_stats(&other, &sample_peer_2());

    assert_eq!(
        tracker.get_torrents_metrics(),
        TorrentsMetrics { complete: 3, downloaded: 1, incomplete: 1, torrents: 2 }
    );
}

// A database that fails

fn tracker_without_database(config: &Core) -> Tracker<UnreachableDatabase> {
    Tracker::new(config, UnreachableDatabase::new())
}

#[test]
fn an_announce_is_answered_though_the_counter_cannot_be_written() {
    let mut tracker = tracker_without_database(&persisting_config());
    let info_hash = sample_info_hash();

    let mut peer = started_peer();
    tracker.announce(&info_hash, &mut peer, &peer_ip(), &PeersWanted::All);
    let mut peer = completed_peer();
    let answer = tracker.announce(&info_hash, &mut peer, &peer_ip(), &PeersWanted::All);

    assert_eq!(answer.stats, SwarmMetadata { complete: 1, downloaded: 1, incomplete: 0 });
}

#[test]
fn a_torrent_that_the_database_does_not_take_is_not_whitelisted_in_memory() {
    let mut tracker = tracker_without_database(&listed_config());
    let info_hash = sample_info_hash();

    assert_eq!(tracker.add_torrent_to_whitelist(&info_hash), Err(DatabaseError::ConnectionFailed));
    assert!(!tracker.is_info_hash_whitelisted(&info_hash));
    assert!(tracker.authorize(&info_hash).is_err());

    tracker.add_torrent_to_memory_whitelist(&info_hash);
    assert_eq!(tracker.remove_torrent_from_whitelist(&info_hash), Err(DatabaseError::ConnectionFailed));
    assert_eq!(
        tracker.remove_torrent_from_database_whitelist(&info_hash),
        Err(DatabaseError::ConnectionFailed)
    );
    assert!(tracker.is_info_hash_whitelisted(&info_hash));
}

#[test]
fn a_key_that_the_database_does_not_take_gives_no_access() {
    let mut tracker = tracker_without_database(&private_config());

    assert_eq!(tracker.add_auth_key(sample_key(), None), Err(DatabaseError::ConnectionFailed));
    assert_eq!(tracker.add_permanent_auth_key(sample_key()), Err(DatabaseError::ConnectionFailed));
    assert_eq!(tracker.generate_permanent_auth_key(), Err(DatabaseError::ConnectionFailed));
    assert_eq!(
        tracker.generate_auth_key(Some(DurationSinceUnixEpoch::from_secs(100))),
        Err(DatabaseError::ConnectionFailed)
    );
    assert_eq!(
        tracker.add_peer_key(AddKeyRequest { opt_key: None, opt_seconds_valid: Some(100) }),
        Err(PeerKeyError::DatabaseError { source: DatabaseError::ConnectionFailed })
    );
    assert_eq!(tracker.remove_auth_key(&sample_key()), Err(DatabaseError::ConnectionFailed));
    assert!(tracker.authenticate(&sample_key()).is_err());
}

#[test]
fn a_load_that_fails_leaves_memory_as_it_was() {
    let mut tracker = tracker_without_database(&listed_config());
    let info_hash = sample_info_hash();
    tracker.add_torrent_to_memory_whitelist(&info_hash);
    tracker.upsert_peer_and_get_stats(&info_hash, &leecher());

    assert_eq!(tracker.load_whitelist_from_database(), Err(DatabaseError::ConnectionFailed));
    assert_eq!(tracker.load_keys_from_database(), Err(DatabaseError::ConnectionFailed));
    assert_eq!(tracker.load_torrents_from_database(), Err(DatabaseError::ConnectionFailed));
    assert_eq!(tracker.drop_database_tables(), Err(DatabaseError::ConnectionFailed));

    assert!(tracker.is_info_hash_whitelisted(&info_hash));
    assert_eq!(tracker.get_torrent_peers(&info_hash), vec![leecher()]);
}

// The counts are those of the active peers

#[test]
fn a_peer_that_is_no_longer_active_is_not_counted_and_is_still_handed_out() {
    let mut tracker = public_tracker();
    let info_hash = sample_info_hash();
    // the peer timeout is 900 seconds
    tracker.upsert_peer_and_get_stats_at(&info_hash, &peer_updated_at(1, 1_699_999_099, 0), now());
    let stats = tracker.upsert_peer_and_get_stats_at(&info_hash, &peer_updated_at(2, 1_699_999_100, 0), now());

    assert_eq!(stats, SwarmMetadata { complete: 1, downloaded: 0, incomplete: 0 });
    assert_eq!(
        tracker.get_torrents_metrics_at(now()),
        TorrentsMetrics { complete: 1, downloaded: 0, incomplete: 0, torrents: 1 }
    );
    assert_eq!(
        tracker.scrape_at(&vec![info_hash], now()).get(&info_hash),
        Some(SwarmMetadata { complete: 1, downloaded: 0, incomplete: 0 })
    );
    assert_eq!(tracker.get_torrent_peers(&info_hash).len(), 2);

    let mut client = peer_updated_at(3, 1_700_000_000, 5);
    let answer = tracker.announce_at(
        &info_hash,
        &mut client,
        &IpAddr::V4(Ipv4Addr::new(126, 0, 0, 3)),
        &PeersWanted::All,
        now(),
    );
    assert_eq!(answer.stats, SwarmMetadata { complete: 1, downloaded: 0, incomplete: 1 });
    assert_eq!(answer.peers.len(), 2);

    // a second later the peer at the edge is no longer active either
    let later = DurationSinceUnixEpoch::new(1_700_000_001, 0);
    assert_eq!(
        tracker.get_swarm_metadata_at(&info_hash, later),
        SwarmMetadata { complete: 0, downloaded: 0, incomplete: 1 }
    );
}

#[test]
fn the_counts_by_the_clock_leave_out_a_peer_of_long_ago() {
    let mut tracker = public_tracker();
    let info_hash = sample_info_hash();
    tracker.upsert_peer_and_get_stats(&info_hash, &peer_updated_at(1, 1_000_000, 0));
    let stats = tracker.upsert_peer_and_get_stats(&info_hash, &sample_peer_2());

    assert_eq!(stats, SwarmMetadata { complete: 1, downloaded: 0, incomplete: 0 });
    assert_eq!(tracker.get_swarm_metadata(&info_hash), stats);
    assert_eq!(
        tracker.get_torrents_metrics(),
        TorrentsMetrics { complete: 1, downloaded: 0, incomplete: 0, torrents: 1 }
    );
}
