use vstd::prelude::*;
use vstd::std_specs::cmp::PartialEqSpecImpl;
use vstd::string::StrSliceExecFns;
use crate::assoc::KeyEq;

verus! {

/// Whether two arrays of 20 bytes hold the same bytes.
fn same_bytes(a: &[u8; 20], b: &[u8; 20]) -> (r: bool)
    ensures
        r == (a@ == b@),
{
    let mut i: usize = 0;
    while i < 20
        invariant
            i <= 20,
            forall|j: int| 0 <= j < i ==> a@[j] == b@[j],
        decreases 20 - i,
    {
        if a[i] != b[i] {
            return false;
        }
        i += 1;
    }
    assert(a@ =~= b@);
    true
}

/// Identifier of a torrent: the 20 bytes of the SHA-1 digest of its
/// metainfo. Two info-hashes are equal when their bytes are.
#[derive(Clone, Copy, Debug, Eq, Hash)]
pub struct InfoHash(pub [u8; 20]);

impl View for InfoHash {
    type V = Seq<u8>;

    open spec fn view(&self) -> Seq<u8> {
        self.0@
    }
}

impl PartialEq for InfoHash {
    fn eq(&self, other: &Self) -> (r: bool) {
        same_bytes(&self.0, &other.0)
    }
}

impl PartialEqSpecImpl for InfoHash {
    open spec fn obeys_eq_spec() -> bool {
        true
    }

    open spec fn eq_spec(&self, other: &Self) -> bool {
        self@ == other@
    }
}

impl KeyEq for InfoHash {
    fn key_eq(&self, other: &Self) -> (r: bool) {
        same_bytes(&self.0, &other.0)
    }
}

/// The sixteen digits of lowercase hexadecimal text.
pub open spec fn hex_digits() -> Seq<char> {
    seq!['0', '1', '2', '3', '4', '5', '6', '7', '8', '9', 'a', 'b', 'c', 'd', 'e', 'f']
}

/// The value of a hexadecimal digit, in either case.
pub open spec fn hex_value(c: char) -> Option<int> {
    if '0' <= c && c <= '9' {
        Some(c as int - 48)
    } else if 'a' <= c && c <= 'f' {
        Some(c as int - 87)
    } else if 'A' <= c && c <= 'F' {
        Some(c as int - 55)
    } else {
        None
    }
}

/// The text that is made of hexadecimal digits only.
pub open spec fn is_hex(s: Seq<char>) -> bool {
    forall|i: int| 0 <= i < s.len() ==> hex_value(#[trigger] s[i]) is Some
}

/// Bytes as lowercase hexadecimal text: two digits for each byte, the
/// high half first.
pub open spec fn hex_of(bytes: Seq<u8>) -> Seq<char> {
    Seq::new(
        2 * bytes.len(),
        |i: int|
            if i % 2 == 0 {
                hex_digits()[bytes[i / 2] as int / 16]
            } else {
                hex_digits()[bytes[i / 2] as int % 16]
            },
    )
}

/// The bytes that hexadecimal text of even length stands for.
pub open spec fn bytes_of_hex(s: Seq<char>) -> Seq<u8> {
    Seq::new(
        s.len() / 2,
        |i: int| (hex_value(s[2 * i]).unwrap() * 16 + hex_value(s[2 * i + 1]).unwrap()) as u8,
    )
}

/// The number of characters of an info-hash as text.
pub const INFO_HASH_HEX_LEN: usize = 40;

/// Why a text is no info-hash.
#[derive(Clone, Copy, Debug, PartialEq, Eq, Structural)]
pub enum ParseInfoHashError {
    /// It has not 40 characters.
    InvalidLength,
    /// It has 40 characters, and one of them is no hexadecimal digit.
    InvalidDigit,
}

/// Writes 20 bytes as text: makes an info-hash of the crate
/// bittorrent-primitives of them, with its `From` of an array, and calls
/// its `to_hex_string`. That hands the bytes to `bin2hex` of the crate
/// binascii, which writes two lowercase hexadecimal digits for each byte,
/// the high half first.
#[verifier::external_body]
fn bytes_to_hex(bytes: &[u8; 20]) -> (s: String)
    ensures
        s@ == hex_of(bytes@),
{
    bittorrent_primitives::info_hash::InfoHash::from(*bytes).to_hex_string()
}

/// Reads 20 bytes from text with the `FromStr` of the info-hash type of
/// the crate bittorrent-primitives, which refuses a text that is not 40
/// bytes long and hands the others to `hex2bin` of the crate binascii.
/// That refuses every byte that is no hexadecimal digit, and takes digits
/// of either case, the high half of each byte first.
#[verifier::external_body]
fn hex_to_bytes(text: &str) -> (r: Option<[u8; 20]>)
    ensures
        match r {
            Some(bytes) => {
                &&& text@.len() == INFO_HASH_HEX_LEN
                &&& is_hex(text@)
                &&& bytes@ == bytes_of_hex(text@)
            },
            None => !(text@.len() == INFO_HASH_HEX_LEN && is_hex(text@)),
        },
{
    match text.parse::<bittorrent_primitives::info_hash::InfoHash>() {
        Ok(info_hash) => Some(info_hash.bytes()),
        Err(_) => None,
    }
}

impl InfoHash {
    /// The info-hash of these bytes.
    pub fn from_bytes(bytes: [u8; 20]) -> (r: Self)
        ensures
            r@ == bytes@,
            r.0 == bytes,
    {
        InfoHash(bytes)
    }

    /// The bytes of the info-hash.
    pub fn bytes(&self) -> (r: [u8; 20])
        ensures
            r@ == self@,
            r == self.0,
    {
        self.0
    }

    /// The info-hash as text: 40 lowercase hexadecimal digits.
    pub fn to_hex_string(&self) -> (r: String)
        ensures
            r@ == hex_of(self@),
            r@.len() == INFO_HASH_HEX_LEN,
    {
        bytes_to_hex(&self.0)
    }

    /// Reads an info-hash from its text: 40 hexadecimal digits, in either
    /// case.
    pub fn from_hex_str(text: &str) -> (r: Result<InfoHash, ParseInfoHashError>)
        ensures
            match r {
                Ok(info_hash) => {
                    &&& text@.len() == INFO_HASH_HEX_LEN
                    &&& is_hex(text@)
                    &&& info_hash@ == bytes_of_hex(text@)
                },
                Err(ParseInfoHashError::InvalidLength) => text@.len() != INFO_HASH_HEX_LEN,
                Err(ParseInfoHashError::InvalidDigit) => text@.len() == INFO_HASH_HEX_LEN && !is_hex(
                    text@,
                ),
            },
    {
        match hex_to_bytes(text) {
            Some(bytes) => Ok(InfoHash(bytes)),
            None => {
                if text.unicode_len() != INFO_HASH_HEX_LEN {
                    Err(ParseInfoHashError::InvalidLength)
                } else {
                    Err(ParseInfoHashError::InvalidDigit)
                }
            },
        }
    }
}

impl core::str::FromStr for InfoHash {
    type Err = ParseInfoHashError;

    fn from_str(text: &str) -> (r: Result<Self, Self::Err>)
        ensures
            match r {
                Ok(info_hash) => {
                    &&& text@.len() == INFO_HASH_HEX_LEN
                    &&& is_hex(text@)
                    &&& info_hash@ == bytes_of_hex(text@)
                },
                Err(ParseInfoHashError::InvalidLength) => text@.len() != INFO_HASH_HEX_LEN,
                Err(ParseInfoHashError::InvalidDigit) => text@.len() == INFO_HASH_HEX_LEN && !is_hex(
                    text@,
                ),
            },
    {
        InfoHash::from_hex_str(text)
    }
}

/// Identifier that a client chose for itself. It does not identify a peer
/// within a swarm: the socket address does.
#[derive(Clone, Copy, Debug, Eq, Hash)]
pub struct PeerId(pub [u8; 20]);

impl View for PeerId {
    type V = Seq<u8>;

    open spec fn view(&self) -> Seq<u8> {
        self.0@
    }
}

impl PartialEq for PeerId {
    fn eq(&self, other: &Self) -> (r: bool) {
        same_bytes(&self.0, &other.0)
    }
}

impl PartialEqSpecImpl for PeerId {
    open spec fn obeys_eq_spec() -> bool {
        true
    }

    open spec fn eq_spec(&self, other: &Self) -> bool {
        self@ == other@
    }
}

/// An IPv4 address, by its four octets.
#[derive(Clone, Copy, Debug, PartialEq, Eq, Structural, Hash)]
pub struct Ipv4Addr {
    pub a: u8,
    pub b: u8,
    pub c: u8,
    pub d: u8,
}

impl Ipv4Addr {
    pub fn new(a: u8, b: u8, c: u8, d: u8) -> (r: Self)
        ensures
            r == (Ipv4Addr { a, b, c, d }),
    {
        Ipv4Addr { a, b, c, d }
    }

    /// The address 127.0.0.1.
    pub fn localhost() -> (r: Self)
        ensures
            r == (Ipv4Addr { a: 127, b: 0, c: 0, d: 1 }),
            r.is_loopback(),
    {
        Ipv4Addr { a: 127, b: 0, c: 0, d: 1 }
    }

    /// The addresses of 127.0.0.0/8.
    pub open spec fn is_loopback(&self) -> bool {
        self.a == 127
    }
}

/// An IPv6 address, by its eight groups of 16 bits.
#[derive(Clone, Copy, Debug, PartialEq, Eq, Structural, Hash)]
pub struct Ipv6Addr {
    pub a: u16,
    pub b: u16,
    pub c: u16,
    pub d: u16,
    pub e: u16,
    pub f: u16,
    pub g: u16,
    pub h: u16,
}

impl Ipv6Addr {
    pub fn new(a: u16, b: u16, c: u16, d: u16, e: u16, f: u16, g: u16, h: u16) -> (r: Self)
        ensures
            r == (Ipv6Addr { a, b, c, d, e, f, g, h }),
    {
        Ipv6Addr { a, b, c, d, e, f, g, h }
    }

    /// The address ::1.
    pub fn localhost() -> (r: Self)
        ensures
            r == (Ipv6Addr { a: 0, b: 0, c: 0, d: 0, e: 0, f: 0, g: 0, h: 1 }),
            r.is_loopback(),
    {
        Ipv6Addr { a: 0, b: 0, c: 0, d: 0, e: 0, f: 0, g: 0, h: 1 }
    }

    /// The one address ::1.
    pub open spec fn is_loopback(&self) -> bool {
        *self == (Ipv6Addr { a: 0, b: 0, c: 0, d: 0, e: 0, f: 0, g: 0, h: 1 })
    }
}

/// An IP address of either family.
#[derive(Clone, Copy, Debug, PartialEq, Eq, Structural, Hash)]
pub enum IpAddr {
    V4(Ipv4Addr),
    V6(Ipv6Addr),
}

impl IpAddr {
    /// The addresses that name the host itself: 127.0.0.0/8 and ::1.
    pub open spec fn spec_is_loopback(&self) -> bool {
        match *self {
            IpAddr::V4(ip) => ip.is_loopback(),
            IpAddr::V6(ip) => ip.is_loopback(),
        }
    }

    #[verifier::when_used_as_spec(spec_is_loopback)]
    pub fn is_loopback(&self) -> (r: bool)
        ensures
            r == self.spec_is_loopback(),
    {
        match *self {
            IpAddr::V4(ip) => ip.a == 127,
            IpAddr::V6(ip) => ip.a == 0 && ip.b == 0 && ip.c == 0 && ip.d == 0 && ip.e == 0
                && ip.f == 0 && ip.g == 0 && ip.h == 1,
        }
    }
}

/// An IP address and a port. Within a swarm it identifies a peer.
#[derive(Clone, Copy, Debug, PartialEq, Eq, Structural, Hash)]
pub struct SocketAddr {
    pub ip: IpAddr,
    pub port: u16,
}

impl SocketAddr {
    pub fn new(ip: IpAddr, port: u16) -> (r: Self)
        ensures
            r == (SocketAddr { ip, port }),
    {
        SocketAddr { ip, port }
    }
}

/// What a client reports with an announce.
#[derive(Clone, Copy, Debug, PartialEq, Eq, Structural, Hash)]
pub enum AnnounceEvent {
    Started,
    Updated,
    Completed,
    Stopped,
}

/// Nanoseconds in a second.
pub const NANOS_PER_SEC: u32 = 1_000_000_000;

/// A point in time, as the time that has passed since the Unix epoch:
/// whole seconds and the nanoseconds beyond them. Points in time are
/// ordered by the nanoseconds they stand for.
#[derive(Clone, Copy, Debug, PartialEq, Eq, Structural, Hash)]
pub struct DurationSinceUnixEpoch {
    pub secs: u64,
    pub nanos: u32,
}

impl DurationSinceUnixEpoch {
    /// The nanoseconds that the value stands for.
    pub open spec fn total_nanos(&self) -> nat {
        (self.secs as nat) * 1_000_000_000 + self.nanos as nat
    }

    /// The value of `n` nanoseconds with less than a second of them in
    /// `nanos`. It is meant for `n` below 2^64 seconds.
    pub open spec fn of_nanos(n: nat) -> Self {
        DurationSinceUnixEpoch {
            secs: (n / 1_000_000_000) as u64,
            nanos: (n % 1_000_000_000) as u32,
        }
    }

    /// Whether `n` nanoseconds can be held.
    pub open spec fn representable(n: nat) -> bool {
        n / 1_000_000_000 <= u64::MAX
    }

    /// The value that holds `n` nanoseconds, if one does: `n` is not
    /// negative and its whole seconds fit.
    pub open spec fn held(n: int) -> Option<Self> {
        if n >= 0 && Self::representable(n as nat) {
            Some(Self::of_nanos(n as nat))
        } else {
            None
        }
    }

    /// The epoch itself.
    pub fn zero() -> (r: Self)
        ensures
            r == (DurationSinceUnixEpoch { secs: 0, nanos: 0 }),
            r.total_nanos() == 0,
    {
        DurationSinceUnixEpoch { secs: 0, nanos: 0 }
    }

    /// The point in time `secs` seconds after the epoch.
    pub fn from_secs(secs: u64) -> (r: Self)
        ensures
            r == (DurationSinceUnixEpoch { secs, nanos: 0 }),
            r.total_nanos() == secs * 1_000_000_000,
    {
        DurationSinceUnixEpoch { secs, nanos: 0 }
    }

    /// `secs` seconds and `nanos` nanoseconds, with the whole seconds among
    /// the nanoseconds carried over.
    pub fn new(secs: u64, nanos: u32) -> (r: Self)
        requires
            secs + nanos / 1_000_000_000 <= u64::MAX,
        ensures
            r == Self::of_nanos((secs as nat) * 1_000_000_000 + nanos as nat),
            r.total_nanos() == secs * 1_000_000_000 + nanos,
            r.nanos < 1_000_000_000,
    {
        let carry: u32 = nanos / NANOS_PER_SEC;
        let rest: u32 = nanos % NANOS_PER_SEC;
        let r = DurationSinceUnixEpoch { secs: secs + carry as u64, nanos: rest };
        assert(r == Self::of_nanos((secs as nat) * 1_000_000_000 + nanos as nat)) by {
            let n = (secs as nat) * 1_000_000_000 + nanos as nat;
            assert(n / 1_000_000_000 == secs + carry && n % 1_000_000_000 == rest) by {
                vstd::arithmetic::div_mod::lemma_fundamental_div_mod_converse(
                    n as int,
                    1_000_000_000,
                    (secs + carry) as int,
                    rest as int,
                );
            }
        }
        r
    }

    /// The whole seconds.
    pub fn as_secs(&self) -> (r: u64)
        ensures
            r == self.secs,
    {
        self.secs
    }

    /// The nanoseconds beyond the whole seconds.
    pub fn subsec_nanos(&self) -> (r: u32)
        ensures
            r == self.nanos,
    {
        self.nanos
    }

    /// The nanoseconds that the value stands for.
    pub fn as_nanos(&self) -> (r: u128)
        ensures
            r == self.total_nanos(),
    {
        (self.secs as u128) * 1_000_000_000u128 + self.nanos as u128
    }

    /// The value of `n` nanoseconds, where it can be held.
    fn from_nanos(n: u128) -> (r: Option<Self>)
        ensures
            r == Self::held(n as int),
    {
        let secs: u128 = n / 1_000_000_000u128;
        let rest: u128 = n % 1_000_000_000u128;
        if secs > u64::MAX as u128 {
            None
        } else {
            Some(DurationSinceUnixEpoch { secs: secs as u64, nanos: rest as u32 })
        }
    }

    /// The point in time `rhs` after this one, unless it cannot be held.
    pub fn checked_add(&self, rhs: &Self) -> (r: Option<Self>)
        ensures
            r == Self::held((self.total_nanos() + rhs.total_nanos()) as int),
    {
        Self::from_nanos(self.as_nanos() + rhs.as_nanos())
    }

    /// The point in time `rhs` before this one, unless that is before the
    /// epoch.
    pub fn checked_sub(&self, rhs: &Self) -> (r: Option<Self>)
        ensures
            r == Self::held(self.total_nanos() - rhs.total_nanos()),
    {
        let a: u128 = self.as_nanos();
        let b: u128 = rhs.as_nanos();
        if a >= b {
            Self::from_nanos(a - b)
        } else {
            None
        }
    }

    /// Whether this point in time is earlier than `other`.
    pub fn is_before(&self, other: &Self) -> (r: bool)
        ensures
            r == (self.total_nanos() < other.total_nanos()),
    {
        self.as_nanos() < other.as_nanos()
    }
}

/// One client in one swarm, as its last announce showed it.
#[derive(Clone, Copy, Debug, PartialEq, Eq)]
pub struct Peer {
    pub peer_id: PeerId,
    pub peer_addr: SocketAddr,
    /// When the peer last announced.
    pub updated: DurationSinceUnixEpoch,
    pub uploaded: u64,
    pub downloaded: u64,
    /// The bytes the peer still has to download.
    pub left: u64,
    pub event: AnnounceEvent,
}

impl Peer {
    /// A peer that has nothing left to download.
    pub open spec fn spec_is_seeder(&self) -> bool {
        self.left == 0
    }

    #[verifier::when_used_as_spec(spec_is_seeder)]
    pub fn is_seeder(&self) -> (r: bool)
        ensures
            r == self.spec_is_seeder(),
    {
        self.left == 0
    }

    /// Whether the peer announced at `cutoff` or later.
    pub open spec fn spec_is_active(&self, cutoff: DurationSinceUnixEpoch) -> bool {
        self.updated.total_nanos() >= cutoff.total_nanos()
    }

    #[verifier::when_used_as_spec(spec_is_active)]
    pub fn is_active(&self, cutoff: DurationSinceUnixEpoch) -> (r: bool)
        ensures
            r == self.spec_is_active(cutoff),
    {
        !self.updated.is_before(&cutoff)
    }

    /// Puts `new_ip` in place of the address's IP; the port stays.
    pub fn change_ip(&mut self, new_ip: &IpAddr)
        ensures
            *final(self) == (Peer {
                peer_addr: SocketAddr { ip: *new_ip, port: old(self).peer_addr.port },
                ..*old(self)
            }),
    {
        self.peer_addr = SocketAddr { ip: *new_ip, port: self.peer_addr.port };
    }
}

/// The counts of one swarm: its seeders, its leechers, and the downloads
/// that were completed in it.
#[derive(Clone, Copy, Debug, PartialEq, Eq, Structural)]
pub struct SwarmMetadata {
    /// Completed downloads that the tracker saw.
    pub downloaded: u32,
    /// Seeders.
    pub complete: u32,
    /// Leechers.
    pub incomplete: u32,
}

impl SwarmMetadata {
    pub fn zeroed() -> (r: Self)
        ensures
            r == (SwarmMetadata { downloaded: 0, complete: 0, incomplete: 0 }),
    {
        SwarmMetadata { downloaded: 0, complete: 0, incomplete: 0 }
    }
}

impl Default for SwarmMetadata {
    fn default() -> (r: Self)
        ensures
            r == (SwarmMetadata { downloaded: 0, complete: 0, incomplete: 0 }),
    {
        SwarmMetadata { downloaded: 0, complete: 0, incomplete: 0 }
    }
}

/// The counts of all swarms together.
#[derive(Clone, Copy, Debug, PartialEq, Eq, Structural)]
pub struct TorrentsMetrics {
    pub complete: u64,
    pub downloaded: u64,
    pub incomplete: u64,
    pub torrents: u64,
}

impl Default for TorrentsMetrics {
    fn default() -> (r: Self)
        ensures
            r == (TorrentsMetrics { complete: 0, downloaded: 0, incomplete: 0, torrents: 0 }),
    {
        TorrentsMetrics { complete: 0, downloaded: 0, incomplete: 0, torrents: 0 }
    }
}

} // verus!
