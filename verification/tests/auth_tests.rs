use tracker_core::auth::{valid_until, verify_key_expiration, Error, Key, ParseKeyError, PeerKey};
use tracker_core::primitives::DurationSinceUnixEpoch;

#[test]
fn a_key_is_32_letters_and_digits() {
    let key = Key::new("YZSl4lMZupRuOpSRC3krIKR5BPB14nrJ").unwrap();

    assert_eq!(key.value(), "YZSl4lMZupRuOpSRC3krIKR5BPB14nrJ");
    assert_eq!(key.to_string(), "YZSl4lMZupRuOpSRC3krIKR5BPB14nrJ");
    assert_eq!(key.clone(), key);
    assert_eq!("YZSl4lMZupRuOpSRC3krIKR5BPB14nrJ".parse::<Key>(), Ok(key.clone()));
    assert!(Key::new("00000000000000000000000000000000").is_ok());
    assert!(Key::new("azAZ09azAZ09azAZ09azAZ09azAZ09az").is_ok());
}

#[test]
fn a_text_of_another_length_is_no_key() {
    assert_eq!(Key::new(""), Err(ParseKeyError::InvalidKeyLength));
    assert_eq!(Key::new("YZSl4lMZupRuOpSRC3krIKR5BPB14nr"), Err(ParseKeyError::InvalidKeyLength));
    assert_eq!(Key::new("YZSl4lMZupRuOpSRC3krIKR5BPB14nrJJ"), Err(ParseKeyError::InvalidKeyLength));
}

#[test]
fn a_text_with_another_character_is_no_key() {
    assert_eq!(Key::new("YZSl4lMZupRuOpSRC3krIKR5BPB14nr!"), Err(ParseKeyError::InvalidChars));
    assert_eq!(Key::new("YZSl4lMZupRuOpSRC3krIKR5BPB14n J"), Err(ParseKeyError::InvalidChars));
    assert_eq!(Key::new("YZSl4lMZupRuOpSRC3krIKR5BPB14nr\u{e9}"), Err(ParseKeyError::InvalidChars));
    assert_eq!(Key::new("/ZSl4lMZupRuOpSRC3krIKR5BPB14nrJ"), Err(ParseKeyError::InvalidChars));
    assert_eq!(Key::new(":ZSl4lMZupRuOpSRC3krIKR5BPB14nrJ"), Err(ParseKeyError::InvalidChars));
    assert_eq!(Key::new("@ZSl4lMZupRuOpSRC3krIKR5BPB14nrJ"), Err(ParseKeyError::InvalidChars));
    assert_eq!(Key::new("[ZSl4lMZupRuOpSRC3krIKR5BPB14nrJ"), Err(ParseKeyError::InvalidChars));
    assert_eq!(Key::new("`ZSl4lMZupRuOpSRC3krIKR5BPB14nrJ"), Err(ParseKeyError::InvalidChars));
    assert_eq!(Key::new("{ZSl4lMZupRuOpSRC3krIKR5BPB14nrJ"), Err(ParseKeyError::InvalidChars));
}

#[test]
fn a_key_drawn_at_random_is_a_key() {
    let first = Key::random();
    let second = Key::random();

    assert_eq!(first.value().chars().count(), 32);
    assert!(first.value().chars().all(|c| c.is_ascii_alphanumeric()));
    assert_eq!(Key::new(first.value()), Ok(first.clone()));
    assert_ne!(first, second);
}

#[test]
fn a_key_expires_after_its_time_and_not_at_it() {
    let until = DurationSinceUnixEpoch::new(100, 0);

    assert_eq!(verify_key_expiration(Some(until), DurationSinceUnixEpoch::new(99, 999_999_999)), Ok(()));
    assert_eq!(verify_key_expiration(Some(until), until), Ok(()));
    assert_eq!(verify_key_expiration(Some(until), DurationSinceUnixEpoch::new(100, 1)), Err(Error::KeyExpired));
    assert_eq!(verify_key_expiration(None, DurationSinceUnixEpoch::new(u64::MAX, 0)), Ok(()));
}

#[test]
fn a_key_is_valid_for_its_lifetime_from_now_on() {
    let now = DurationSinceUnixEpoch::new(1_700_000_000, 250);

    assert_eq!(
        valid_until(Some(DurationSinceUnixEpoch::from_secs(100)), now),
        Some(DurationSinceUnixEpoch::new(1_700_000_100, 250))
    );
    assert_eq!(valid_until(None, now), None);
    assert_eq!(
        valid_until(Some(DurationSinceUnixEpoch::from_secs(u64::MAX)), now),
        Some(DurationSinceUnixEpoch { secs: u64::MAX, nanos: 999_999_999 })
    );
}

#[test]
fn a_peer_key_hands_out_its_key() {
    let peer_key = PeerKey {
        key: Key::new("YZSl4lMZupRuOpSRC3krIKR5BPB14nrJ").unwrap(),
        valid_until: Some(DurationSinceUnixEpoch::zero()),
    };

    assert_eq!(peer_key.key(), Key::new("YZSl4lMZupRuOpSRC3krIKR5BPB14nrJ").unwrap());
    assert_eq!(peer_key.clone(), peer_key);
}
