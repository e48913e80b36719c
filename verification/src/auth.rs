use vstd::prelude::*;
use vstd::std_specs::cmp::PartialEqSpecImpl;
use vstd::string::StrSliceExecFns;
use rand::distributions::DistString;
use crate::assoc::KeyEq;
use crate::primitives::DurationSinceUnixEpoch;

verus! {

/// The number of characters of a key.
pub const AUTH_KEY_LENGTH: usize = 32;

/// The ASCII letters and digits.
pub open spec fn is_alphanumeric(c: char) -> bool {
    ('0' <= c && c <= '9') || ('a' <= c && c <= 'z') || ('A' <= c && c <= 'Z')
}

/// The texts that are keys: 32 characters, each an ASCII letter or digit.
pub open spec fn valid_key(s: Seq<char>) -> bool {
    &&& s.len() == AUTH_KEY_LENGTH
    &&& forall|i: int| 0 <= i < s.len() ==> is_alphanumeric(#[trigger] s[i])
}

/// Why a text is no key.
#[derive(Clone, Copy, Debug, PartialEq, Eq, Structural)]
pub enum ParseKeyError {
    /// It has not 32 characters.
    InvalidKeyLength,
    /// It has 32 characters, and one of them is no ASCII letter or digit.
    InvalidChars,
}

/// A token that gives access to a private tracker. Its text is what
/// identifies it.
#[derive(Debug, Eq, Hash)]
pub struct Key(String);

impl View for Key {
    type V = Seq<char>;

    closed spec fn view(&self) -> Seq<char> {
        self.0@
    }
}

impl PartialEq for Key {
    fn eq(&self, other: &Self) -> (r: bool) {
        self.0 == other.0
    }
}

impl PartialEqSpecImpl for Key {
    open spec fn obeys_eq_spec() -> bool {
        true
    }

    open spec fn eq_spec(&self, other: &Self) -> bool {
        self@ == other@
    }
}

impl KeyEq for Key {
    fn key_eq(&self, other: &Self) -> (r: bool) {
        self.0 == other.0
    }
}

impl Clone for Key {
    fn clone(&self) -> (r: Self)
        ensures
            r@ == self@,
    {
        Key(self.0.clone())
    }
}

fn is_alphanumeric_char(c: char) -> (r: bool)
    ensures
        r == is_alphanumeric(c),
{
    ('0' <= c && c <= '9') || ('a' <= c && c <= 'z') || ('A' <= c && c <= 'Z')
}

/// Draws `len` characters with rand's `DistString::sample_string`, called
/// on the distribution `Alphanumeric` with the generator of the thread.
/// The distribution picks each character from the ASCII letters and
/// digits, and the text holds `len` of them. Which ones is left open.
#[verifier::external_body]
fn random_alphanumeric(len: usize) -> (s: String)
    ensures
        s@.len() == len,
        forall|i: int| 0 <= i < s@.len() ==> is_alphanumeric(#[trigger] s@[i]),
{
    rand::distributions::Alphanumeric.sample_string(&mut rand::thread_rng(), len)
}

impl Key {
    /// Reads a key from its text.
    pub fn new(value: &str) -> (r: Result<Key, ParseKeyError>)
        ensures
            match r {
                Ok(key) => valid_key(value@) && key@ == value@,
                Err(ParseKeyError::InvalidKeyLength) => value@.len() != AUTH_KEY_LENGTH,
                Err(ParseKeyError::InvalidChars) => value@.len() == AUTH_KEY_LENGTH && !valid_key(
                    value@,
                ),
            },
    {
        if value.unicode_len() != AUTH_KEY_LENGTH {
            return Err(ParseKeyError::InvalidKeyLength);
        }
        let mut i: usize = 0;
        while i < AUTH_KEY_LENGTH
            invariant
                i <= AUTH_KEY_LENGTH,
                value@.len() == AUTH_KEY_LENGTH,
                forall|j: int| 0 <= j < i ==> is_alphanumeric(#[trigger] value@[j]),
            decreases AUTH_KEY_LENGTH - i,
        {
            if !is_alphanumeric_char(value.get_char(i)) {
                return Err(ParseKeyError::InvalidChars);
            }
            i += 1;
        }
        Ok(Key(value.to_owned()))
    }

    /// A key drawn at random.
    pub fn random() -> (r: Key)
        ensures
            valid_key(r@),
    {
        Key(random_alphanumeric(AUTH_KEY_LENGTH))
    }

    /// The text of the key.
    pub fn value(&self) -> (r: &str)
        ensures
            r@ == self@,
    {
        self.0.as_str()
    }

    /// The text of the key.
    pub fn to_string(&self) -> (r: String)
        ensures
            r@ == self@,
    {
        self.0.clone()
    }
}

impl core::str::FromStr for Key {
    type Err = ParseKeyError;

    fn from_str(value: &str) -> (r: Result<Self, Self::Err>)
        ensures
            match r {
                Ok(key) => valid_key(value@) && key@ == value@,
                Err(ParseKeyError::InvalidKeyLength) => value@.len() != AUTH_KEY_LENGTH,
                Err(ParseKeyError::InvalidChars) => value@.len() == AUTH_KEY_LENGTH && !valid_key(
                    value@,
                ),
            },
    {
        Key::new(value)
    }
}

/// A key and the time until which it gives access. A key without such a
/// time is permanent.
#[derive(Debug, PartialEq, Eq)]
pub struct PeerKey {
    pub key: Key,
    pub valid_until: Option<DurationSinceUnixEpoch>,
}

impl Clone for PeerKey {
    fn clone(&self) -> (r: Self)
        ensures
            r.key@ == self.key@,
            r.valid_until == self.valid_until,
    {
        PeerKey { key: self.key.clone(), valid_until: self.valid_until }
    }
}

impl PeerKey {
    /// The key itself.
    pub fn key(&self) -> (r: Key)
        ensures
            r@ == self.key@,
    {
        self.key.clone()
    }
}

/// Why a key gives no access.
#[derive(Debug, PartialEq, Eq)]
pub enum Error {
    /// The time of the key has passed.
    KeyExpired,
    /// The tracker has no such key.
    UnableToReadKey { key: Key },
}

/// Whether a key that is valid until `valid_until` has expired at `now`:
/// a permanent key never has, another one once `now` is later than its
/// time.
pub open spec fn expired(valid_until: Option<DurationSinceUnixEpoch>, now: DurationSinceUnixEpoch) -> bool {
    match valid_until {
        Some(t) => t.total_nanos() < now.total_nanos(),
        None => false,
    }
}

/// Refuses a key whose time has passed at `now`.
pub fn verify_key_expiration(
    valid_until: Option<DurationSinceUnixEpoch>,
    now: DurationSinceUnixEpoch,
) -> (r: Result<(), Error>)
    ensures
        r == if expired(valid_until, now) {
            Err::<(), Error>(Error::KeyExpired)
        } else {
            Ok::<(), Error>(())
        },
{
    match valid_until {
        Some(t) => {
            if t.is_before(&now) {
                Err(Error::KeyExpired)
            } else {
                Ok(())
            }
        },
        None => Ok(()),
    }
}

/// The time until which a key that is made at `now` for `lifetime` is
/// valid: `now + lifetime`, and the last time that can be held where the
/// sum is beyond it. A key without a lifetime is permanent.
pub open spec fn spec_valid_until(
    lifetime: Option<DurationSinceUnixEpoch>,
    now: DurationSinceUnixEpoch,
) -> Option<DurationSinceUnixEpoch> {
    match lifetime {
        Some(d) => match DurationSinceUnixEpoch::held((now.total_nanos() + d.total_nanos()) as int) {
            Some(t) => Some(t),
            None => Some(DurationSinceUnixEpoch { secs: u64::MAX, nanos: 999_999_999 }),
        },
        None => None,
    }
}

#[verifier::when_used_as_spec(spec_valid_until)]
pub fn valid_until(lifetime: Option<DurationSinceUnixEpoch>, now: DurationSinceUnixEpoch) -> (r: Option<
    DurationSinceUnixEpoch,
>)
    ensures
        r == spec_valid_until(lifetime, now),
{
    match lifetime {
        Some(d) => match now.checked_add(&d) {
            Some(t) => Some(t),
            None => Some(DurationSinceUnixEpoch { secs: u64::MAX, nanos: 999_999_999 }),
        },
        None => None,
    }
}

/// What the tracker finds of a key.
pub enum Verdict {
    /// The key gives access.
    Valid,
    /// The tracker has the key, and its time has passed.
    Expired,
    /// The tracker has no such key.
    Unknown,
}

/// What is found of `key` at `now` among `keys`, with or without regard
/// to the times until which keys are valid.
pub open spec fn verdict(
    keys: Map<Seq<char>, Option<DurationSinceUnixEpoch>>,
    check_expiration: bool,
    key: Seq<char>,
    now: DurationSinceUnixEpoch,
) -> Verdict {
    if !keys.contains_key(key) {
        Verdict::Unknown
    } else if check_expiration && expired(keys[key], now) {
        Verdict::Expired
    } else {
        Verdict::Valid
    }
}

/// The answer that stands for a verdict on `key`.
pub open spec fn answers(r: Result<(), Error>, v: Verdict, key: Seq<char>) -> bool {
    match r {
        Ok(_) => v is Valid,
        Err(Error::KeyExpired) => v is Expired,
        Err(Error::UnableToReadKey { key: k }) => v is Unknown && k@ == key,
    }
}

} // verus!
