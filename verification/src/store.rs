//! The store: a LevelDB database that holds the blocks by their hash.
//!
//! The database is rusty-leveldb's, and nothing is claimed of what it holds
//! or finds: a read that fails inside the database looks like a key that
//! holds nothing, and the database may lose entries when its housekeeping
//! fails. What [`DiscStore`] states is its own record: which entries were
//! written through it, which keys it was asked for and what the database
//! answered, and whether a write has failed.
//!
//! A write that failed can leave the database in a state in which it must
//! not be written to again. The store remembers such a failure and refuses
//! every later write.
//!
//! A call that changes the store takes it by `&mut`: whoever shares a store
//! between threads puts it behind a lock.

use vstd::prelude::*;
use vstd::std_specs::convert::FromSpecImpl;
use rusty_leveldb::Options;
use rusty_leveldb::Status;
use rusty_leveldb::DB;
use crate::errors::Error;

verus! {

/// rusty-leveldb's database.
#[verifier::external_type_specification]
#[verifier::external_body]
pub struct ExDB(DB);

/// rusty-leveldb's error: a code and a message.
#[verifier::external_type_specification]
#[verifier::external_body]
pub struct ExStatus(Status);

/// Whether a write into the database has failed since it was opened. Such a
/// write may have left an entry behind under a number that the next write
/// would take again.
pub uninterp spec fn db_write_failed(db: DB) -> bool;

/// Calls `DB::open` with the default options, which open the database in the
/// directory `path` and create it if it is missing. Trusted: no write into a
/// database that was just opened has failed.
#[verifier::external_body]
fn db_open(path: &str) -> (r: Result<DB, Status>)
    ensures
        r matches Ok(db) ==> !db_write_failed(db),
{
    DB::open(path, Options::default())
}

/// Calls `DB::open` with the options of `rusty_leveldb::in_memory`, which keep
/// the database in memory instead of on disk. Trusted: no write into a
/// database that was just opened has failed.
#[verifier::external_body]
fn db_open_in_memory(name: &str) -> (r: Result<DB, Status>)
    ensures
        r matches Ok(db) ==> !db_write_failed(db),
{
    DB::open(name, rusty_leveldb::in_memory())
}

/// Calls `DB::put`, which adds a single entry. It is called only on a
/// database into which no write has failed. Trusted: after a call that
/// succeeded, still no write has failed.
#[verifier::external_body]
fn db_put(db: &mut DB, key: &[u8], value: &[u8]) -> (r: Result<(), Status>)
    requires
        !db_write_failed(*old(db)),
    ensures
        r is Ok ==> !db_write_failed(*final(db)),
{
    db.put(key, value)
}

/// Calls `DB::get`. Nothing is claimed of what it returns: the database
/// reports a read that failed as `None`, and may then also find an older
/// value. Trusted: a read is no write.
#[verifier::external_body]
fn db_get(db: &mut DB, key: &[u8]) -> (r: Option<Vec<u8>>)
    ensures
        db_write_failed(*final(db)) == db_write_failed(*old(db)),
{
    match db.get(key) {
        Some(value) => Some(value.to_vec()),
        None => None,
    }
}

/// Calls `DB::flush`, which writes the pending log to disk. Trusted: a flush
/// is no write of an entry.
#[verifier::external_body]
fn db_flush(db: &mut DB) -> (r: Result<(), Status>)
    ensures
        db_write_failed(*final(db)) == db_write_failed(*old(db)),
{
    db.flush()
}

/// The message of a `Status`: its field `err`.
pub uninterp spec fn status_text(status: Status) -> String;

/// Copies the field `err` of a `Status`, which holds its message.
#[verifier::external_body]
fn status_message(status: &Status) -> (message: String)
    ensures
        message == status_text(*status),
{
    status.err.clone()
}

impl From<Status> for Error {
    /// A failure of the database, with the message of its status.
    fn from(status: Status) -> (e: Error)
    {
        Error::DBError(status_message(&status))
    }
}

impl FromSpecImpl<Status> for Error {
    open spec fn obeys_from_spec() -> bool {
        true
    }

    open spec fn from_spec(status: Status) -> Error {
        Error::DBError(status_text(status))
    }
}

/// What a lookup has found, as a sequence of bytes.
pub open spec fn found(lookup: Option<Vec<u8>>) -> Option<Seq<u8>> {
    match lookup {
        Some(value) => Some(value@),
        None => None,
    }
}

/// A question to the store and the database's answer: the key that was asked
/// for, and what was found under it.
pub struct Lookup {
    pub key: Seq<u8>,
    pub found: Option<Seq<u8>>,
}

/// The record that a store keeps of itself. It is a record of what was done
/// through this store, not of what the database holds.
///
/// - `entries`: what the store was opened with, which is nothing for a store
///   in memory and unknown for a store on disk, and on top of that every
///   entry that was written through this store.
/// - `lookups`: every key that the store was asked for since it was opened,
///   in order, with what the database answered.
/// - `failed`: whether a write has failed.
pub struct StoreView {
    pub entries: Map<Seq<u8>, Seq<u8>>,
    pub lookups: Seq<Lookup>,
    pub failed: bool,
}

/// A store of blocks, keyed by their hash.
pub struct DiscStore {
    db: DB,
    failed: bool,
    entries: Ghost<Map<Seq<u8>, Seq<u8>>>,
    lookups: Ghost<Seq<Lookup>>,
}

impl View for DiscStore {
    type V = StoreView;

    closed spec fn view(&self) -> StoreView {
        StoreView { entries: self.entries@, lookups: self.lookups@, failed: self.failed }
    }
}

impl DiscStore {
    /// The store knows of every write that has failed.
    pub closed spec fn wf(&self) -> bool {
        !self.failed ==> !db_write_failed(self.db)
    }

    /// Opens the store in the directory `path`, and creates it if it is not
    /// there. A store that was opened was asked nothing yet, and no write
    /// into it has failed. Fails with `DBError` if the database cannot be
    /// opened.
    pub fn open(path: &str) -> (r: Result<DiscStore, Error>)
        ensures
            match r {
                Ok(store) => store.wf() && !store@.failed && store@.lookups == Seq::<Lookup>::empty(),
                Err(e) => e is DBError,
            },
    {
        match db_open(path) {
            Ok(db) => Ok(
                DiscStore { db, failed: false, entries: Ghost(arbitrary()), lookups: Ghost(Seq::empty()) },
            ),
            Err(status) => Err(Error::from(status)),
        }
    }

    /// Opens a new store that lives in memory and is lost when it is dropped.
    /// Nothing was written into it yet. Fails with `DBError` if the database
    /// cannot be opened.
    pub fn open_in_memory(name: &str) -> (r: Result<DiscStore, Error>)
        ensures
            match r {
                Ok(store) => store.wf() && store@ == (StoreView {
                    entries: Map::empty(),
                    lookups: Seq::empty(),
                    failed: false,
                }),
                Err(e) => e is DBError,
            },
    {
        match db_open_in_memory(name) {
            Ok(db) => Ok(
                DiscStore { db, failed: false, entries: Ghost(Map::empty()), lookups: Ghost(Seq::empty()) },
            ),
            Err(status) => Err(Error::from(status)),
        }
    }

    /// Whether a write into the store has failed. Such a store takes no
    /// further write.
    pub fn has_failed(&self) -> (failed: bool)
        ensures
            failed == self@.failed,
    {
        self.failed
    }

    /// Puts `v` under the key `k`, in place of what the key held. Fails with
    /// `DBError` if the database refuses the write, and from then on; a write
    /// that fails is not recorded, and a store that has failed is not written
    /// to.
    pub fn put(&mut self, k: &[u8], v: &[u8]) -> (r: Result<(), Error>)
        requires
            old(self).wf(),
        ensures
            final(self).wf(),
            final(self)@.lookups == old(self)@.lookups,
            match r {
                Ok(_) => {
                    &&& !old(self)@.failed
                    &&& !final(self)@.failed
                    &&& final(self)@.entries == old(self)@.entries.insert(k@, v@)
                },
                Err(e) => {
                    &&& e is DBError
                    &&& final(self)@.failed
                    &&& final(self)@.entries == old(self)@.entries
                },
            },
    {
        if self.failed {
            return Err(Error::DBError("an earlier write into the store has failed".to_owned()));
        }
        match db_put(&mut self.db, k, v) {
            Ok(_) => {
                self.entries = Ghost(self.entries@.insert(k@, v@));
                Ok(())
            },
            Err(status) => {
                self.failed = true;
                Err(Error::from(status))
            },
        }
    }

    /// Asks the database for the key `k`, and returns what it finds. The
    /// question and the answer are recorded; nothing else changes.
    pub fn get(&mut self, k: &[u8]) -> (r: Option<Vec<u8>>)
        ensures
            old(self).wf() ==> final(self).wf(),
            final(self)@ == (StoreView {
                lookups: old(self)@.lookups.push(Lookup { key: k@, found: found(r) }),
                ..old(self)@
            }),
    {
        let r = db_get(&mut self.db, k);
        self.lookups = Ghost(self.lookups@.push(Lookup { key: k@, found: found(r) }));
        r
    }

    /// Writes the pending log to disk. The record of the store stays as it
    /// is. Fails with `DBError` if the database cannot write.
    pub fn flush(&mut self) -> (r: Result<(), Error>)
        ensures
            old(self).wf() ==> final(self).wf(),
            final(self)@ == old(self)@,
            r matches Err(e) ==> e is DBError,
    {
        match db_flush(&mut self.db) {
            Ok(_) => Ok(()),
            Err(status) => Err(Error::from(status)),
        }
    }
}

} // verus!
