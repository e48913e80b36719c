use vstd::prelude::*;
use crate::assoc::AssocList;
use crate::auth::{Key, PeerKey};
use crate::primitives::{DurationSinceUnixEpoch, InfoHash};
use crate::torrent::PersistentTorrents;

verus! {

/// What a database holds for the tracker: the completed downloads of
/// torrents, the whitelist, and the keys with the times until which they
/// are valid.
pub struct DbState {
    pub torrents: Map<Seq<u8>, u32>,
    pub whitelist: Set<Seq<u8>>,
    pub keys: Map<Seq<char>, Option<DurationSinceUnixEpoch>>,
}

/// What went wrong in the database.
#[derive(Clone, Copy, Debug, PartialEq, Eq, Structural)]
pub enum Error {
    /// The database could not be reached.
    ConnectionFailed,
    /// A row could not be written.
    InsertFailed,
    /// A row could not be deleted.
    DeleteFailed,
}

/// The records are the rows of the table: each record is a row, and each
/// row is among the records.
pub open spec fn records_match(records: Seq<(InfoHash, u32)>, table: Map<Seq<u8>, u32>) -> bool {
    &&& forall|i: int|
        0 <= i < records.len() ==> table.contains_key((#[trigger] records[i]).0@) && table[records[i].0@]
            == records[i].1
    &&& forall|h: Seq<u8>| #[trigger]
        table.contains_key(h) ==> exists|i: int| 0 <= i < records.len() && (#[trigger] records[i]).0@ == h
}

/// The list holds the info-hashes of the table, and no others.
pub open spec fn hashes_match(list: Seq<InfoHash>, table: Set<Seq<u8>>) -> bool {
    &&& forall|i: int| 0 <= i < list.len() ==> table.contains((#[trigger] list[i])@)
    &&& forall|h: Seq<u8>| #[trigger]
        table.contains(h) ==> exists|i: int| 0 <= i < list.len() && (#[trigger] list[i])@ == h
}

/// The list holds the keys of the table, each with its time, and no
/// others.
pub open spec fn keys_match(
    list: Seq<PeerKey>,
    table: Map<Seq<char>, Option<DurationSinceUnixEpoch>>,
) -> bool {
    &&& forall|i: int|
        0 <= i < list.len() ==> table.contains_key((#[trigger] list[i]).key@) && table[list[i].key@]
            == list[i].valid_until
    &&& forall|k: Seq<char>| #[trigger]
        table.contains_key(k) ==> exists|i: int| 0 <= i < list.len() && (#[trigger] list[i]).key@ == k
}

/// What the tracker asks of its database.
pub enum Operation {
    LoadPersistentTorrents,
    SavePersistentTorrent { info_hash: Seq<u8>, downloaded: u32 },
    LoadWhitelist,
    AddInfoHashToWhitelist { info_hash: Seq<u8> },
    RemoveInfoHashFromWhitelist { info_hash: Seq<u8> },
    IsInfoHashWhitelisted { info_hash: Seq<u8> },
    LoadKeys,
    AddKeyToKeys { key: Seq<char>, valid_until: Option<DurationSinceUnixEpoch> },
    RemoveKeyFromKeys { key: Seq<char> },
    DropDatabaseTables,
}

impl DbState {
    /// What the database holds once an operation was carried out. An
    /// operation that only reads leaves it as it is.
    pub open spec fn after(self, operation: Operation) -> DbState {
        match operation {
            Operation::SavePersistentTorrent { info_hash, downloaded } => DbState {
                torrents: self.torrents.insert(info_hash, downloaded),
                ..self
            },
            Operation::AddInfoHashToWhitelist { info_hash } => DbState {
                whitelist: self.whitelist.insert(info_hash),
                ..self
            },
            Operation::RemoveInfoHashFromWhitelist { info_hash } => DbState {
                whitelist: self.whitelist.remove(info_hash),
                ..self
            },
            Operation::AddKeyToKeys { key, valid_until } => DbState {
                keys: self.keys.insert(key, valid_until),
                ..self
            },
            Operation::RemoveKeyFromKeys { key } => DbState { keys: self.keys.remove(key), ..self },
            Operation::DropDatabaseTables => DbState {
                torrents: Map::empty(),
                whitelist: Set::empty(),
                keys: Map::empty(),
            },
            _ => self,
        }
    }
}

/// How an operation that writes ends: with the error of the store's
/// refusal and the store as it was, or carried out.
pub open spec fn written<T>(
    refusal: Option<Error>,
    before: DbState,
    after: DbState,
    operation: Operation,
    r: Result<T, Error>,
) -> bool {
    match refusal {
        Some(e) => r == Err::<T, Error>(e) && after == before,
        None => r is Ok && after == before.after(operation),
    }
}

/// The store in which the tracker keeps what has to outlast it. Whether
/// the store carries an operation out is for the store to say; one that
/// it refuses leaves it as it was.
pub trait Database {
    /// What the store holds.
    spec fn state(&self) -> DbState;

    /// What the store needs to hold of itself to work. Every operation
    /// keeps it.
    spec fn wf(&self) -> bool;

    /// The error with which the store, as it is, answers an operation that
    /// it does not carry out, and nothing where it carries the operation
    /// out.
    spec fn refusal(&self, operation: Operation) -> Option<Error>;

    /// The completed downloads of all torrents.
    fn load_persistent_torrents(&self) -> (r: Result<PersistentTorrents, Error>)
        requires
            self.wf(),
        ensures
            match self.refusal(Operation::LoadPersistentTorrents) {
                Some(e) => r == Err::<PersistentTorrents, Error>(e),
                None => r matches Ok(records) && records_match(records@, self.state().torrents),
            },
    ;

    /// Writes the completed downloads of a torrent.
    fn save_persistent_torrent(&mut self, info_hash: &InfoHash, downloaded: u32) -> (r: Result<(), Error>)
        requires
            old(self).wf(),
        ensures
            final(self).wf(),
            written(
                old(self).refusal(
                    Operation::SavePersistentTorrent { info_hash: info_hash@, downloaded },
                ),
                old(self).state(),
                final(self).state(),
                Operation::SavePersistentTorrent { info_hash: info_hash@, downloaded },
                r,
            ),
    ;

    /// The whitelist.
    fn load_whitelist(&self) -> (r: Result<Vec<InfoHash>, Error>)
        requires
            self.wf(),
        ensures
            match self.refusal(Operation::LoadWhitelist) {
                Some(e) => r == Err::<Vec<InfoHash>, Error>(e),
                None => r matches Ok(list) && hashes_match(list@, self.state().whitelist),
            },
    ;

    /// Puts an info-hash on the whitelist.
    fn add_info_hash_to_whitelist(&mut self, info_hash: InfoHash) -> (r: Result<usize, Error>)
        requires
            old(self).wf(),
        ensures
            final(self).wf(),
            written(
                old(self).refusal(Operation::AddInfoHashToWhitelist { info_hash: info_hash@ }),
                old(self).state(),
                final(self).state(),
                Operation::AddInfoHashToWhitelist { info_hash: info_hash@ },
                r,
            ),
    ;

    /// Takes an info-hash off the whitelist.
    fn remove_info_hash_from_whitelist(&mut self, info_hash: InfoHash) -> (r: Result<usize, Error>)
        requires
            old(self).wf(),
        ensures
            final(self).wf(),
            written(
                old(self).refusal(Operation::RemoveInfoHashFromWhitelist { info_hash: info_hash@ }),
                old(self).state(),
                final(self).state(),
                Operation::RemoveInfoHashFromWhitelist { info_hash: info_hash@ },
                r,
            ),
    ;

    /// Whether an info-hash is on the whitelist.
    fn is_info_hash_whitelisted(&self, info_hash: InfoHash) -> (r: Result<bool, Error>)
        requires
            self.wf(),
        ensures
            r == match self.refusal(Operation::IsInfoHashWhitelisted { info_hash: info_hash@ }) {
                Some(e) => Err::<bool, Error>(e),
                None => Ok::<bool, Error>(self.state().whitelist.contains(info_hash@)),
            },
    ;

    /// The keys.
    fn load_keys(&self) -> (r: Result<Vec<PeerKey>, Error>)
        requires
            self.wf(),
        ensures
            match self.refusal(Operation::LoadKeys) {
                Some(e) => r == Err::<Vec<PeerKey>, Error>(e),
                None => r matches Ok(list) && keys_match(list@, self.state().keys),
            },
    ;

    /// Writes a key and the time until which it is valid.
    fn add_key_to_keys(&mut self, auth_key: &PeerKey) -> (r: Result<usize, Error>)
        requires
            old(self).wf(),
        ensures
            final(self).wf(),
            written(
                old(self).refusal(
                    Operation::AddKeyToKeys { key: auth_key.key@, valid_until: auth_key.valid_until },
                ),
                old(self).state(),
                final(self).state(),
                Operation::AddKeyToKeys { key: auth_key.key@, valid_until: auth_key.valid_until },
                r,
            ),
    ;

    /// Deletes a key.
    fn remove_key_from_keys(&mut self, key: &Key) -> (r: Result<usize, Error>)
        requires
            old(self).wf(),
        ensures
            final(self).wf(),
            written(
                old(self).refusal(Operation::RemoveKeyFromKeys { key: key@ }),
                old(self).state(),
                final(self).state(),
                Operation::RemoveKeyFromKeys { key: key@ },
                r,
            ),
    ;

    /// Empties the store.
    fn drop_database_tables(&mut self) -> (r: Result<(), Error>)
        requires
            old(self).wf(),
        ensures
            final(self).wf(),
            written(
                old(self).refusal(Operation::DropDatabaseTables),
                old(self).state(),
                final(self).state(),
                Operation::DropDatabaseTables,
                r,
            ),
    ;
}

/// A store that keeps everything in memory. It refuses to write a key or
/// an info-hash that it holds already, and to delete one that it does not
/// hold; all else succeeds.
pub struct MemoryDatabase {
    torrents: AssocList<InfoHash, u32>,
    whitelist: AssocList<InfoHash, ()>,
    keys: AssocList<Key, Option<DurationSinceUnixEpoch>>,
}

impl MemoryDatabase {
    /// An empty store.
    pub fn new() -> (r: Self)
        ensures
            r.wf(),
            r.state() == (DbState { torrents: Map::empty(), whitelist: Set::empty(), keys: Map::empty() }),
    {
        let r = MemoryDatabase {
            torrents: AssocList::new(),
            whitelist: AssocList::new(),
            keys: AssocList::new(),
        };
        r
    }
}

impl Database for MemoryDatabase {
    closed spec fn state(&self) -> DbState {
        DbState { torrents: self.torrents@, whitelist: self.whitelist@.dom(), keys: self.keys@ }
    }

    closed spec fn wf(&self) -> bool {
        &&& self.torrents.wf()
        &&& self.whitelist.wf()
        &&& self.keys.wf()
    }

    open spec fn refusal(&self, operation: Operation) -> Option<Error> {
        match operation {
            Operation::AddInfoHashToWhitelist { info_hash } => if self.state().whitelist.contains(
                info_hash,
            ) {
                Some(Error::InsertFailed)
            } else {
                None
            },
            Operation::RemoveInfoHashFromWhitelist { info_hash } => if self.state().whitelist.contains(
                info_hash,
            ) {
                None
            } else {
                Some(Error::DeleteFailed)
            },
            Operation::AddKeyToKeys { key, valid_until } => if self.state().keys.contains_key(key) {
                Some(Error::InsertFailed)
            } else {
                None
            },
            Operation::RemoveKeyFromKeys { key } => if self.state().keys.contains_key(key) {
                None
            } else {
                Some(Error::DeleteFailed)
            },
            _ => None,
        }
    }

    fn load_persistent_torrents(&self) -> (r: Result<PersistentTorrents, Error>)
    {
        let mut records: Vec<(InfoHash, u32)> = Vec::new();
        let mut i: usize = 0;
        while i < self.torrents.len()
            invariant
                self.wf(),
                i <= self.torrents.entries().len(),
                records@.len() == i,
                forall|j: int|
                    0 <= j < i ==> (#[trigger] records@[j]).0@ == self.torrents.entries()[j].0@
                        && records@[j].1 == self.torrents.entries()[j].1,
            decreases self.torrents.entries().len() - i,
        {
            let info_hash = *self.torrents.key_at(i);
            let downloaded = *self.torrents.value_at(i);
            records.push((info_hash, downloaded));
            i += 1;
        }
        proof {
            let entries = self.torrents.entries();
            assert forall|j: int| 0 <= j < records@.len() implies self.torrents@.contains_key(
                (#[trigger] records@[j]).0@,
            ) && self.torrents@[records@[j].0@] == records@[j].1 by {
                crate::assoc::lemma_entry_at(entries, j);
            }
            assert forall|h: Seq<u8>| #[trigger] self.torrents@.contains_key(h) implies exists|j: int|
                0 <= j < records@.len() && (#[trigger] records@[j]).0@ == h by {
                crate::assoc::lemma_key_position(entries, h);
                let j = crate::assoc::key_index(entries, h);
                assert(records@[j].0@ == h);
            }
        }
        Ok(records)
    }

    fn save_persistent_torrent(&mut self, info_hash: &InfoHash, downloaded: u32) -> (r: Result<(), Error>)
    {
        let previous = self.torrents.insert(*info_hash, downloaded);
        Ok(())
    }

    fn load_whitelist(&self) -> (r: Result<Vec<InfoHash>, Error>)
    {
        let mut list: Vec<InfoHash> = Vec::new();
        let mut i: usize = 0;
        while i < self.whitelist.len()
            invariant
                self.wf(),
                i <= self.whitelist.entries().len(),
                list@.len() == i,
                forall|j: int| 0 <= j < i ==> (#[trigger] list@[j])@ == self.whitelist.entries()[j].0@,
            decreases self.whitelist.entries().len() - i,
        {
            let info_hash = *self.whitelist.key_at(i);
            list.push(info_hash);
            i += 1;
        }
        proof {
            let entries = self.whitelist.entries();
            assert forall|j: int| 0 <= j < list@.len() implies self.whitelist@.dom().contains(
                (#[trigger] list@[j])@,
            ) by {
                crate::assoc::lemma_entry_at(entries, j);
            }
            assert forall|h: Seq<u8>| #[trigger] self.whitelist@.dom().contains(h) implies exists|j: int|
                0 <= j < list@.len() && (#[trigger] list@[j])@ == h by {
                crate::assoc::lemma_key_position(entries, h);
                let j = crate::assoc::key_index(entries, h);
                assert(list@[j]@ == h);
            }
        }
        Ok(list)
    }

    fn add_info_hash_to_whitelist(&mut self, info_hash: InfoHash) -> (r: Result<usize, Error>)
    {
        if self.whitelist.contains_key(&info_hash) {
            Err(Error::InsertFailed)
        } else {
            let previous = self.whitelist.insert(info_hash, ());
            Ok(1)
        }
    }

    fn remove_info_hash_from_whitelist(&mut self, info_hash: InfoHash) -> (r: Result<usize, Error>)
    {
        if self.whitelist.contains_key(&info_hash) {
            let previous = self.whitelist.remove(&info_hash);
            Ok(1)
        } else {
            Err(Error::DeleteFailed)
        }
    }

    fn is_info_hash_whitelisted(&self, info_hash: InfoHash) -> (r: Result<bool, Error>)
    {
        Ok(self.whitelist.contains_key(&info_hash))
    }

    fn load_keys(&self) -> (r: Result<Vec<PeerKey>, Error>)
    {
        let mut list: Vec<PeerKey> = Vec::new();
        let mut i: usize = 0;
        while i < self.keys.len()
            invariant
                self.wf(),
                i <= self.keys.entries().len(),
                list@.len() == i,
                forall|j: int|
                    0 <= j < i ==> (#[trigger] list@[j]).key@ == self.keys.entries()[j].0@
                        && list@[j].valid_until == self.keys.entries()[j].1,
            decreases self.keys.entries().len() - i,
        {
            let key = self.keys.key_at(i).clone();
            let valid_until = *self.keys.value_at(i);
            list.push(PeerKey { key, valid_until });
            i += 1;
        }
        proof {
            let entries = self.keys.entries();
            assert forall|j: int| 0 <= j < list@.len() implies self.keys@.contains_key(
                (#[trigger] list@[j]).key@,
            ) && self.keys@[list@[j].key@] == list@[j].valid_until by {
                crate::assoc::lemma_entry_at(entries, j);
            }
            assert forall|k: Seq<char>| #[trigger] self.keys@.contains_key(k) implies exists|j: int|
                0 <= j < list@.len() && (#[trigger] list@[j]).key@ == k by {
                crate::assoc::lemma_key_position(entries, k);
                let j = crate::assoc::key_index(entries, k);
                assert(list@[j].key@ == k);
            }
        }
        Ok(list)
    }

    fn add_key_to_keys(&mut self, auth_key: &PeerKey) -> (r: Result<usize, Error>)
    {
        if self.keys.contains_key(&auth_key.key) {
            Err(Error::InsertFailed)
        } else {
            let previous = self.keys.insert(auth_key.key.clone(), auth_key.valid_until);
            Ok(1)
        }
    }

    fn remove_key_from_keys(&mut self, key: &Key) -> (r: Result<usize, Error>)
    {
        if self.keys.contains_key(key) {
            let previous = self.keys.remove(key);
            Ok(1)
        } else {
            Err(Error::DeleteFailed)
        }
    }

    fn drop_database_tables(&mut self) -> (r: Result<(), Error>)
    {
        self.torrents.clear();
        self.whitelist.clear();
        self.keys.clear();
        Ok(())
    }
}

/// A store that cannot be reached: it holds nothing, and every operation
/// fails.
pub struct UnreachableDatabase {}

impl UnreachableDatabase {
    pub fn new() -> (r: Self)
        ensures
            r.wf(),
            r.state() == (DbState { torrents: Map::empty(), whitelist: Set::empty(), keys: Map::empty() }),
    {
        UnreachableDatabase {  }
    }
}

impl Database for UnreachableDatabase {
    open spec fn state(&self) -> DbState {
        DbState { torrents: Map::empty(), whitelist: Set::empty(), keys: Map::empty() }
    }

    open spec fn wf(&self) -> bool {
        true
    }

    open spec fn refusal(&self, operation: Operation) -> Option<Error> {
        Some(Error::ConnectionFailed)
    }

    fn load_persistent_torrents(&self) -> (r: Result<PersistentTorrents, Error>)
    {
        Err(Error::ConnectionFailed)
    }

    fn save_persistent_torrent(&mut self, info_hash: &InfoHash, downloaded: u32) -> (r: Result<(), Error>)
    {
        Err(Error::ConnectionFailed)
    }

    fn load_whitelist(&self) -> (r: Result<Vec<InfoHash>, Error>)
    {
        Err(Error::ConnectionFailed)
    }

    fn add_info_hash_to_whitelist(&mut self, info_hash: InfoHash) -> (r: Result<usize, Error>)
    {
        Err(Error::ConnectionFailed)
    }

    fn remove_info_hash_from_whitelist(&mut self, info_hash: InfoHash) -> (r: Result<usize, Error>)
    {
        Err(Error::ConnectionFailed)
    }

    fn is_info_hash_whitelisted(&self, info_hash: InfoHash) -> (r: Result<bool, Error>)
    {
        Err(Error::ConnectionFailed)
    }

    fn load_keys(&self) -> (r: Result<Vec<PeerKey>, Error>)
    {
        Err(Error::ConnectionFailed)
    }

    fn add_key_to_keys(&mut self, auth_key: &PeerKey) -> (r: Result<usize, Error>)
    {
        Err(Error::ConnectionFailed)
    }

    fn remove_key_from_keys(&mut self, key: &Key) -> (r: Result<usize, Error>)
    {
        Err(Error::ConnectionFailed)
    }

    fn drop_database_tables(&mut self) -> (r: Result<(), Error>)
    {
        Err(Error::ConnectionFailed)
    }
}

} // verus!
