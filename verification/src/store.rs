//! The durable log: an append-only key/value store of messages, backed by a
//! sled database.
//!
//! The store's contents are modelled as a map from key text to value text:
//! the entries of the database whose key and value are both valid UTF-8,
//! read as character sequences. The relay only ever writes text keys and
//! text values, so every entry it makes is in the model.

use vstd::prelude::*;
use crate::codec::{decode_payload, encode_message, encode_payload, decode_message};
use crate::models::{MessagePayload, RelayError};

verus! {

#[verifier::external_type_specification]
#[verifier::external_body]
pub struct ExDb(sled::Db);

#[verifier::external_type_specification]
#[verifier::external_body]
pub struct ExSledError(sled::Error);

/// The text entries of the database: every key/value pair whose key and
/// value are valid UTF-8, as character sequences.
pub uninterp spec fn kv_view(db: sled::Db) -> Map<Seq<char>, Seq<char>>;

/// The total number of entries in the database, text or not.
pub uninterp spec fn kv_size(db: sled::Db) -> nat;

/// Relies on `sled::Tree::insert`: sets the key to the value, replacing any
/// earlier value. On an error the write may or may not have taken effect.
#[verifier::external_body]
fn kv_insert(db: &mut sled::Db, key: &str, value: &str) -> (r: Result<(), sled::Error>)
    ensures
        r is Ok ==> kv_view(*final(db)) == kv_view(*old(db)).insert(key@, value@),
        r is Err ==> kv_view(*final(db)) == kv_view(*old(db)) || kv_view(*final(db)) == kv_view(
            *old(db),
        ).insert(key@, value@),
        kv_size(*final(db)) == kv_size(*old(db)) || kv_size(*final(db)) == kv_size(*old(db)) + 1,
{
    match db.insert(key.as_bytes(), value.as_bytes()) {
        Ok(_) => Ok(()),
        Err(e) => Err(e),
    }
}

/// Relies on `sled::Tree::get`: returns the value stored under the key, or
/// nothing when the key is absent (or its entry is not text).
#[verifier::external_body]
fn kv_get(db: &sled::Db, key: &str) -> (r: Result<Option<String>, sled::Error>)
    ensures
        match r {
            Ok(Some(v)) => kv_view(*db).contains_key(key@) && kv_view(*db)[key@] == v@,
            Ok(None) => !kv_view(*db).contains_key(key@),
            Err(_) => true,
        },
{
    match db.get(key.as_bytes()) {
        Ok(Some(iv)) => match String::from_utf8(iv.to_vec()) {
            Ok(v) => Ok(Some(v)),
            Err(_) => Ok(None),
        },
        Ok(None) => Ok(None),
        Err(e) => Err(e),
    }
}

/// Relies on `sled::Tree::flush`: forces all buffered writes to disk before
/// returning. Leaves the contents as they are.
#[verifier::external_body]
fn kv_flush(db: &sled::Db) -> (r: Result<(), sled::Error>)
{
    match db.flush() {
        Ok(_) => Ok(()),
        Err(e) => Err(e),
    }
}

/// Relies on `sled::Tree::len`: the number of entries in the database.
#[verifier::external_body]
fn kv_len(db: &sled::Db) -> (r: usize)
    ensures
        r as nat == kv_size(*db),
{
    db.len()
}

/// The key under which a message is stored.
pub open spec fn log_key(id: Seq<char>) -> Seq<char> {
    "msg:"@ + id
}

/// The durable log. Owns the sled database; opening the database from a
/// path is the embedding program's job.
pub struct DurableLog {
    pub db: sled::Db,
}

impl DurableLog {
    /// Wraps an already-opened database.
    pub fn new(db: sled::Db) -> (r: DurableLog)
        ensures
            r.db == db,
    {
        DurableLog { db }
    }

    /// Appends a message under `"msg:" + id`, overwriting any earlier entry
    /// with the same id, and flushes it to disk. On failure the caller must
    /// treat the message as not recorded.
    pub fn append(&mut self, id: &str, msg: &MessagePayload) -> (r: Result<(), RelayError>)
        ensures
            r is Ok ==> kv_view(final(self).db) == kv_view(old(self).db).insert(
                log_key(id@),
                encode_payload(msg@),
            ),
            r is Err ==> r == Err::<(), RelayError>(RelayError::StorageError) && (kv_view(
                final(self).db,
            ) == kv_view(old(self).db) || kv_view(final(self).db) == kv_view(old(self).db).insert(
                log_key(id@),
                encode_payload(msg@),
            )),
    {
        let key = String::from_str("msg:").concat(id);
        let value = encode_message(msg);
        match kv_insert(&mut self.db, key.as_str(), value.as_str()) {
            Ok(()) => {},
            Err(_) => {
                return Err(RelayError::StorageError);
            },
        }
        match kv_flush(&self.db) {
            Ok(()) => Ok(()),
            Err(_) => Err(RelayError::StorageError),
        }
    }

    /// Point lookup by id: the message stored under `"msg:" + id`, decoded.
    pub fn lookup(&self, id: &str) -> (r: Result<Option<MessagePayload>, RelayError>)
        ensures
            match r {
                Ok(Some(p)) => kv_view(self.db).contains_key(log_key(id@)) && decode_payload(
                    kv_view(self.db)[log_key(id@)],
                ) == Some(p@),
                Ok(None) => !kv_view(self.db).contains_key(log_key(id@)) || decode_payload(
                    kv_view(self.db)[log_key(id@)],
                ) is None,
                Err(e) => e == RelayError::StorageError,
            },
    {
        let key = String::from_str("msg:").concat(id);
        match kv_get(&self.db, key.as_str()) {
            Ok(Some(v)) => match decode_message(v.as_str()) {
                Some(p) => Ok(Some(p)),
                None => Ok(None),
            },
            Ok(None) => Ok(None),
            Err(_) => Err(RelayError::StorageError),
        }
    }

    /// The number of entries the log holds.
    pub fn size(&self) -> (r: usize)
        ensures
            r as nat == kv_size(self.db),
    {
        kv_len(&self.db)
    }
}

} // verus!
