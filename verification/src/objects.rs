//! The content-addressed object store.
//!
//! An object is one row split over three keyspaces that share its key: the
//! payload, the content type and the expiration. A small object has its
//! bytes in the payload keyspace. A large one has an empty payload there,
//! the sentinel, and its bytes in a file named by the key. A read needs all
//! three entries and an expiration that has not come yet; it never evicts
//! anything itself.

use crate::digest::{content_key, spec_content_key, KEY_LEN};
use crate::encoding::is_url_safe;
use crate::failure::{CauseView, Failure, FailureView, Status};
use crate::ingest::Promoted;
use crate::keyspace::{
    bytes_of, entries, entry, keyspace, left_or_applied, open_tree, pairs, recoverable, scan,
    store_failure, tree_flush, tree_get, tree_insert, tree_remove, Entry,
};
use crate::sweep::{
    lapsed, lapsed_among, lapsed_count, lapsed_keys, lemma_lapsed_among_step, lemma_lapsed_count,
    lemma_partly_removed_clean, lemma_partly_removed_start, lemma_partly_removed_step,
    lemma_scan_finds_lapsed, names, partly_removed,
};
use crate::timestamp::{be_bytes, decode, encode, is_live, lemma_parse_be_bytes, parse};
use vstd::prelude::*;
use vstd::utf8::{encode_utf8, is_ascii_chars_encode_utf8};

verus! {

/// Size of the chunks in which a file-backed payload is read back.
pub const READ_CHUNK_LEN: usize = 1048576;

/// Name of the directory that holds the file-backed payloads.
pub const STORAGE_DIR: &'static str = "big";

/// Name of the keyspace of the payloads.
pub const PAYLOAD_TREE: &'static str = "data";

/// Name of the keyspace of the content types.
pub const CONTENT_TYPE_TREE: &'static str = "content-type";

/// Name of the keyspace of the expirations.
pub const EXPIRATION_TREE: &'static str = "expiration";

/// The object store: a handle on each of its three keyspaces.
pub struct ObjectStore {
    payload: sled::Tree,
    content_type: sled::Tree,
    expiration: sled::Tree,
}

/// What the object store holds: the mapping of each keyspace.
pub struct Objects {
    pub payload: Map<Seq<u8>, Seq<u8>>,
    pub content_type: Map<Seq<u8>, Seq<u8>>,
    pub expiration: Map<Seq<u8>, Seq<u8>>,
}

/// What a read comes to.
pub enum Resolution {
    /// The object is live and its bytes are in the payload keyspace.
    Inline { bytes: Seq<u8>, content_type: Seq<u8> },
    /// The object is live and its bytes are in the file named by its key.
    FileBacked { content_type: Seq<u8> },
    /// An entry is missing, or the expiration has come.
    NotFound,
    /// All three entries are there, but the expiration is not a timestamp.
    Malformed,
}

/// An object as a read hands it out.
#[derive(Debug)]
pub enum Found {
    /// The bytes themselves, with their declared type and their number.
    Inline { bytes: Vec<u8>, content_type: Vec<u8>, length: usize },
    /// The bytes are in the file named by the key, to be streamed from
    /// there in chunks of `READ_CHUNK_LEN`.
    FileBacked { content_type: Vec<u8> },
}

/// How the deletion went in one keyspace.
#[derive(Debug)]
pub struct Outcome {
    /// The failure of the removal, if it failed.
    pub removal: Option<Failure>,
    /// The failure of the flush, if it failed.
    pub flush: Option<Failure>,
}

/// What a deletion leaves to do, and how it went in each keyspace.
#[derive(Debug)]
pub struct Deletion {
    /// The payload was file-backed: the file named by the key has to go.
    pub remove_file: bool,
    /// How it went in the payload keyspace.
    pub payload: Outcome,
    /// How it went in the content-type keyspace.
    pub content_type: Outcome,
    /// How it went in the expiration keyspace.
    pub expiration: Outcome,
}

/// What one sweep cycle did.
#[derive(Debug)]
pub struct Sweep {
    /// Number of expired objects that the cycle went to delete.
    pub deleted: usize,
    /// Keys of the file-backed objects that it took out: their files have
    /// to go.
    pub files: Vec<Vec<u8>>,
    /// The deletions in which a step failed, each with the key it was
    /// about. None of them stopped the cycle.
    pub failures: Vec<(Vec<u8>, Deletion)>,
    /// The failure that ended the scan before its end, if one did: the
    /// objects behind it were not looked at.
    pub cut_short: Option<Failure>,
}

impl Outcome {
    /// Whether both steps went through.
    pub open spec fn spec_is_clean(self) -> bool {
        self.removal is None && self.flush is None
    }

    /// Whether each failure is one of the store.
    pub open spec fn unexpected(self) -> bool {
        &&& self.removal matches Some(e) ==> e@.is_unexpected()
        &&& self.flush matches Some(e) ==> e@.is_unexpected()
    }

    /// What this outcome says of one keyspace, which held `before` and
    /// holds `after`, and of which `durable` would survive a crash. A
    /// removal that went through has taken the key out. One that failed
    /// has taken it out or left the keyspace as it was. A flush that went
    /// through has made all of the keyspace durable.
    pub open spec fn settles(
        self,
        before: Map<Seq<u8>, Seq<u8>>,
        after: Map<Seq<u8>, Seq<u8>>,
        durable: Map<Seq<u8>, Seq<u8>>,
        key: Seq<u8>,
    ) -> bool {
        &&& self.removal is None ==> after == before.remove(key)
        &&& self.removal is Some ==> left_or_applied(after, before, before.remove(key))
        &&& self.flush is None ==> durable == after
        &&& self.unexpected()
    }

    /// Whether both steps went through.
    pub fn is_clean(&self) -> (clean: bool)
        ensures
            clean == self.spec_is_clean(),
    {
        self.removal.is_none() && self.flush.is_none()
    }
}

impl Deletion {
    /// Whether every step went through.
    pub open spec fn spec_is_clean(self) -> bool {
        self.payload.spec_is_clean() && self.content_type.spec_is_clean()
            && self.expiration.spec_is_clean()
    }

    /// Whether each failure is one of the store.
    pub open spec fn unexpected(self) -> bool {
        self.payload.unexpected() && self.content_type.unexpected() && self.expiration.unexpected()
    }

    /// The failure that came first: the removals were tried in the order
    /// content type, payload, expiration, then the flushes in the order
    /// payload, content type, expiration.
    pub open spec fn first_failure(self) -> Option<Failure> {
        if self.content_type.removal is Some {
            self.content_type.removal
        } else if self.payload.removal is Some {
            self.payload.removal
        } else if self.expiration.removal is Some {
            self.expiration.removal
        } else if self.payload.flush is Some {
            self.payload.flush
        } else if self.content_type.flush is Some {
            self.content_type.flush
        } else {
            self.expiration.flush
        }
    }

    /// Whether every step went through.
    pub fn is_clean(&self) -> (clean: bool)
        ensures
            clean == self.spec_is_clean(),
    {
        self.payload.is_clean() && self.content_type.is_clean() && self.expiration.is_clean()
    }

    /// The failure that came first, if any step failed.
    pub fn into_failure(self) -> (failure: Option<Failure>)
        ensures
            failure == self.first_failure(),
            failure is None <==> self.spec_is_clean(),
    {
        if self.content_type.removal.is_some() {
            self.content_type.removal
        } else if self.payload.removal.is_some() {
            self.payload.removal
        } else if self.expiration.removal.is_some() {
            self.expiration.removal
        } else if self.payload.flush.is_some() {
            self.payload.flush
        } else if self.content_type.flush.is_some() {
            self.content_type.flush
        } else {
            self.expiration.flush
        }
    }
}

/// Whether the removal from one keyspace failed in `deletion`: `which` is
/// 0 for the payload, 1 for the content type, 2 for the expiration.
pub open spec fn removal_failed(deletion: Deletion, which: int) -> bool {
    if which == 0 {
        deletion.payload.removal is Some
    } else if which == 1 {
        deletion.content_type.removal is Some
    } else {
        deletion.expiration.removal is Some
    }
}

/// The keys whose removal from one keyspace failed.
pub open spec fn failed_in(failures: Seq<(Vec<u8>, Deletion)>, which: int) -> Set<Seq<u8>> {
    Set::new(
        |key: Seq<u8>|
            exists|j: int|
                0 <= j < failures.len() && (#[trigger] failures[j]).0@ == key && removal_failed(
                    failures[j].1,
                    which,
                ),
    )
}

/// Whether every deletion of the list is one in which a step failed, and
/// each of its failures one of the store.
pub open spec fn all_failed(failures: Seq<(Vec<u8>, Deletion)>) -> bool {
    forall|j: int|
        0 <= j < failures.len() ==> (#[trigger] failures[j]).1.unexpected()
            && !failures[j].1.spec_is_clean()
}

/// What a run of deletions, of the objects under `due`, leaves of the
/// store and gives as files to remove. Each keyspace is left as
/// `partly_removed` says, with the keys whose removal from it failed.
/// Every file named is that of a file-backed object that was due, and
/// every such object is named unless its removal from the payload keyspace
/// failed.
pub open spec fn evicted(
    before: Objects,
    after: Objects,
    due: Set<Seq<u8>>,
    files: Seq<Vec<u8>>,
    failures: Seq<(Vec<u8>, Deletion)>,
) -> bool {
    &&& partly_removed(before.payload, after.payload, due, failed_in(failures, 0))
    &&& partly_removed(before.content_type, after.content_type, due, failed_in(failures, 1))
    &&& partly_removed(before.expiration, after.expiration, due, failed_in(failures, 2))
    &&& names_files(before, due, files, failed_in(failures, 0))
}

/// Whether `files` names file-backed objects of `due` only, and all of
/// them but those of `failed`.
pub open spec fn names_files(
    before: Objects,
    due: Set<Seq<u8>>,
    files: Seq<Vec<u8>>,
    failed: Set<Seq<u8>>,
) -> bool {
    forall|key: Seq<u8>|
        {
            &&& #[trigger] names(files).contains(key) ==> due.contains(key) && before.file_backed(
                key,
            )
            &&& due.contains(key) && before.file_backed(key) && !failed.contains(key) ==> names(
                files,
            ).contains(key)
        }
}

/// What a sweep at `now` that went to delete the objects under `due` has
/// done. The objects under `due` had lapsed, and there are `deleted` of
/// them; where the scan was `complete`, they are all that had lapsed.
pub open spec fn swept(
    before: Objects,
    after: Objects,
    due: Set<Seq<u8>>,
    report: Sweep,
    now: u64,
) -> bool {
    &&& evicted(before, after, due, report.files@, report.failures@)
    &&& due.subset_of(lapsed_keys(before.expiration, now))
    &&& due.finite()
    &&& report.deleted == due.len()
    &&& report.cut_short is None ==> due == lapsed_keys(before.expiration, now)
}

/// What a write that went through or failed leaves of the store. The
/// three entries are written in the order payload, content type,
/// expiration, and a write that fails ends the run; the failed write may
/// have been applied all the same. So what is left is the store with the
/// first none, one, two or three of the entries written.
pub open spec fn partly_put(
    before: Objects,
    after: Objects,
    key: Seq<u8>,
    payload: Seq<u8>,
    content_type: Seq<u8>,
    expiration: u64,
) -> bool {
    let whole = before.put(key, payload, content_type, expiration);
    ||| after == before
    ||| after == (Objects {
        payload: whole.payload,
        content_type: before.content_type,
        expiration: before.expiration,
    })
    ||| after == (Objects {
        payload: whole.payload,
        content_type: whole.content_type,
        expiration: before.expiration,
    })
    ||| after == whole
}

/// What the three entries under one key come to at `now`.
pub open spec fn spec_resolve(
    payload: Option<Seq<u8>>,
    content_type: Option<Seq<u8>>,
    expiration: Option<Seq<u8>>,
    now: u64,
) -> Resolution {
    match (payload, content_type, expiration) {
        (Some(p), Some(c), Some(e)) => match parse(e) {
            None => Resolution::Malformed,
            Some(t) => if now < t {
                if p.len() == 0 {
                    Resolution::FileBacked { content_type: c }
                } else {
                    Resolution::Inline { bytes: p, content_type: c }
                }
            } else {
                Resolution::NotFound
            },
        },
        _ => Resolution::NotFound,
    }
}

impl Resolution {
    /// Whether `result` is the answer that this resolution calls for.
    pub open spec fn answered_by(self, result: Result<Found, Failure>) -> bool {
        match self {
            Resolution::Inline { bytes, content_type } => {
                &&& result matches Ok(Found::Inline { bytes: b, content_type: c, length })
                &&& b@ == bytes
                &&& c@ == content_type
                &&& length == bytes.len()
            },
            Resolution::FileBacked { content_type } => {
                &&& result matches Ok(Found::FileBacked { content_type: c })
                &&& c@ == content_type
            },
            Resolution::NotFound => {
                &&& result matches Err(e)
                &&& e@ == FailureView::Status(Status::NotFound)
            },
            Resolution::Malformed => {
                &&& result matches Err(e)
                &&& e@ == FailureView::Unexpected(
                    CauseView::plain("could not convert slice to array"@),
                )
            },
        }
    }
}

impl Objects {
    /// The store with an object written under `key`: each of the three
    /// entries is set, whatever was there before.
    pub open spec fn put(
        self,
        key: Seq<u8>,
        payload: Seq<u8>,
        content_type: Seq<u8>,
        expiration: u64,
    ) -> Objects {
        Objects {
            payload: self.payload.insert(key, payload),
            content_type: self.content_type.insert(key, content_type),
            expiration: self.expiration.insert(key, be_bytes(expiration)),
        }
    }

    /// The store without anything under `key`.
    pub open spec fn without(self, key: Seq<u8>) -> Objects {
        Objects {
            payload: self.payload.remove(key),
            content_type: self.content_type.remove(key),
            expiration: self.expiration.remove(key),
        }
    }

    /// The store without anything under any key of `keys`.
    pub open spec fn without_all(self, keys: Set<Seq<u8>>) -> Objects {
        Objects {
            payload: self.payload.remove_keys(keys),
            content_type: self.content_type.remove_keys(keys),
            expiration: self.expiration.remove_keys(keys),
        }
    }

    /// The store after a sweep at `now`: without anything under a key
    /// whose expiration has lapsed.
    pub open spec fn swept(self, now: u64) -> Objects {
        self.without_all(lapsed_keys(self.expiration, now))
    }

    /// Whether any keyspace has an entry under `key`.
    pub open spec fn holds(self, key: Seq<u8>) -> bool {
        self.payload.contains_key(key) || self.content_type.contains_key(key)
            || self.expiration.contains_key(key)
    }

    /// What a read of `key` comes to at `now`.
    pub open spec fn read(self, key: Seq<u8>, now: u64) -> Resolution {
        spec_resolve(
            entry(self.payload, key),
            entry(self.content_type, key),
            entry(self.expiration, key),
            now,
        )
    }

    /// Whether the payload under `key` is the sentinel of a file-backed
    /// object.
    pub open spec fn file_backed(self, key: Seq<u8>) -> bool {
        entry(self.payload, key) == Some(Seq::<u8>::empty())
    }
}

/// Decides a read from the three entries found under the key.
///
/// All three must be there, and `now` must lie before the expiration. An
/// empty payload stands for a file-backed object.
pub fn resolve(
    payload: Option<Vec<u8>>,
    content_type: Option<Vec<u8>>,
    expiration: Option<Vec<u8>>,
    now: u64,
) -> (result: Result<Found, Failure>)
    ensures
        spec_resolve(bytes_of(payload), bytes_of(content_type), bytes_of(expiration), now)
            .answered_by(result),
{
    match (payload, content_type, expiration) {
        (Some(bytes), Some(content_type), Some(stored)) => {
            match decode(stored.as_slice()) {
                None => Err(Failure::unexpected("could not convert slice to array".to_owned())),
                Some(until) => {
                    if is_live(until, now) {
                        if bytes.len() == 0 {
                            Ok(Found::FileBacked { content_type })
                        } else {
                            let length = bytes.len();
                            Ok(Found::Inline { bytes, content_type, length })
                        }
                    } else {
                        Err(Failure::Status(Status::NotFound))
                    }
                },
            }
        },
        _ => Err(Failure::Status(Status::NotFound)),
    }
}

/// What one read of the file of a file-backed object gives to the stream
/// of its bytes: a read that filled nothing ends the stream, any other is
/// the next chunk, and a failed read is a failure of the stream.
pub fn stream_item(read: Result<Vec<u8>, String>) -> (item: Option<Result<Vec<u8>, Failure>>)
    ensures
        match read {
            Ok(filled) => if filled@.len() == 0 {
                item is None
            } else {
                item matches Some(Ok(chunk)) && chunk@ == filled@
            },
            Err(message) => item matches Some(Err(e)) && e@ == FailureView::Unexpected(
                CauseView::plain(message@),
            ),
        },
{
    match read {
        Ok(filled) => {
            if filled.len() == 0 {
                None
            } else {
                Some(Ok(filled))
            }
        },
        Err(message) => Some(Err(Failure::unexpected(message))),
    }
}

/// Whether the payload that a deletion took out was the sentinel of a
/// file-backed object, so that its file has to go too.
pub fn was_file_backed(removed: &Option<Vec<u8>>) -> (file_backed: bool)
    ensures
        file_backed == (bytes_of(*removed) == Some(Seq::<u8>::empty())),
{
    match removed {
        Some(bytes) => {
            assert(bytes@.len() == 0 ==> bytes@ =~= Seq::<u8>::empty());
            bytes.len() == 0
        },
        None => false,
    }
}

impl View for ObjectStore {
    type V = Objects;

    closed spec fn view(&self) -> Objects {
        Objects {
            payload: entries(self.payload),
            content_type: entries(self.content_type),
            expiration: entries(self.expiration),
        }
    }
}

impl ObjectStore {
    /// What would be recovered of the store after a crash.
    pub closed spec fn durable(&self) -> Objects {
        Objects {
            payload: recoverable(self.payload),
            content_type: recoverable(self.content_type),
            expiration: recoverable(self.expiration),
        }
    }

    /// The names of the keyspaces that the store is on: that of the
    /// payloads, that of the content types, that of the expirations.
    pub closed spec fn keyspaces(&self) -> (Seq<u8>, Seq<u8>, Seq<u8>) {
        (keyspace(self.payload), keyspace(self.content_type), keyspace(self.expiration))
    }

    /// Whether the store is on its three keyspaces, each under the name of
    /// its own.
    pub open spec fn on_keyspaces(&self) -> bool {
        self.keyspaces() == (
            encode_utf8(PAYLOAD_TREE@),
            encode_utf8(CONTENT_TYPE_TREE@),
            encode_utf8(EXPIRATION_TREE@),
        )
    }

    /// Opens the object store of `db`: the keyspaces named `PAYLOAD_TREE`,
    /// `CONTENT_TYPE_TREE` and `EXPIRATION_TREE`, made where they are
    /// missing.
    pub fn open(db: &sled::Db) -> (store: Result<ObjectStore, Failure>)
        ensures
            store matches Ok(opened) ==> opened.on_keyspaces(),
            store matches Err(e) ==> e@.is_unexpected(),
    {
        let payload = match open_tree(db, PAYLOAD_TREE) {
            Ok(tree) => tree,
            Err(e) => {
                return Err(store_failure(&e));
            },
        };
        let content_type = match open_tree(db, CONTENT_TYPE_TREE) {
            Ok(tree) => tree,
            Err(e) => {
                return Err(store_failure(&e));
            },
        };
        let expiration = match open_tree(db, EXPIRATION_TREE) {
            Ok(tree) => tree,
            Err(e) => {
                return Err(store_failure(&e));
            },
        };
        Ok(ObjectStore { payload, content_type, expiration })
    }

    /// Writes the three entries of an object, payload first.
    ///
    /// A write that fails ends the run: the entries written before it
    /// stay, the one that failed is written or not, and those after it are
    /// not written.
    pub fn record(
        &mut self,
        key: &[u8],
        payload: &[u8],
        content_type: &[u8],
        expiration: u64,
    ) -> (result: Result<(), Failure>)
        ensures
            final(self).keyspaces() == old(self).keyspaces(),
            match result {
                Ok(_) => final(self)@ == old(self)@.put(key@, payload@, content_type@, expiration),
                Err(e) => e@.is_unexpected(),
            },
            partly_put(old(self)@, final(self)@, key@, payload@, content_type@, expiration),
    {
        match tree_insert(&mut self.payload, key, payload) {
            Ok(_) => {},
            Err(e) => {
                return Err(store_failure(&e));
            },
        }
        match tree_insert(&mut self.content_type, key, content_type) {
            Ok(_) => {},
            Err(e) => {
                return Err(store_failure(&e));
            },
        }
        let stored = encode(expiration);
        match tree_insert(&mut self.expiration, key, stored.as_slice()) {
            Ok(_) => {},
            Err(e) => {
                return Err(store_failure(&e));
            },
        }
        Ok(())
    }

    /// Stores a small object with its bytes inline and returns its key.
    ///
    /// An empty body is rejected and changes nothing. Uploading the same
    /// bytes again gives the same key and refreshes content type and
    /// expiration. Nothing is flushed.
    pub fn put_inline(&mut self, content_type: &str, expiration: u64, data: &[u8]) -> (result:
        Result<String, Failure>)
        ensures
            final(self).keyspaces() == old(self).keyspaces(),
            data@.len() == 0 ==> {
                &&& result matches Err(e)
                &&& e@ == FailureView::StatusWithMessage(
                    Status::InvalidInput,
                    CauseView::plain("body required"@),
                )
                &&& final(self)@ == old(self)@
            },
            data@.len() > 0 ==> match result {
                Ok(key) => {
                    &&& key@ == spec_content_key(data@)
                    &&& key@.len() == KEY_LEN
                    &&& is_url_safe(key@)
                    &&& final(self)@ == old(self)@.put(
                        encode_utf8(key@),
                        data@,
                        encode_utf8(content_type@),
                        expiration,
                    )
                },
                Err(e) => e@.is_unexpected() && partly_put(
                    old(self)@,
                    final(self)@,
                    encode_utf8(spec_content_key(data@)),
                    data@,
                    encode_utf8(content_type@),
                    expiration,
                ),
            },
    {
        if data.len() == 0 {
            return Err(Failure::rejected(Status::InvalidInput, "body required"));
        }
        let key = content_key(data);
        match self.record(key.as_str().as_bytes(), data, content_type.as_bytes(), expiration) {
            Ok(_) => Ok(key),
            Err(e) => Err(e),
        }
    }

    /// Records an object whose bytes the pipeline has promoted to the
    /// file named by its key: the payload entry is the empty sentinel.
    pub fn put_streamed(&mut self, promoted: &Promoted, content_type: &str, expiration: u64) -> (
        result: Result<(), Failure>)
        ensures
            final(self).keyspaces() == old(self).keyspaces(),
            match result {
                Ok(_) => {
                    &&& final(self)@ == old(self)@.put(
                        encode_utf8(promoted@),
                        Seq::<u8>::empty(),
                        encode_utf8(content_type@),
                        expiration,
                    )
                    &&& final(self)@.file_backed(encode_utf8(promoted@))
                },
                Err(e) => e@.is_unexpected(),
            },
            partly_put(
                old(self)@,
                final(self)@,
                encode_utf8(promoted@),
                Seq::<u8>::empty(),
                encode_utf8(content_type@),
                expiration,
            ),
    {
        let sentinel: Vec<u8> = Vec::new();
        self.record(
            promoted.key().as_bytes(),
            sentinel.as_slice(),
            content_type.as_bytes(),
            expiration,
        )
    }

    /// Reads the object under `key` at `now`.
    ///
    /// The answer is that of `Objects::read`, unless the store itself
    /// fails. The store is not changed: an expired object stays where it
    /// is until a sweep or a deletion takes it out.
    pub fn get(&self, key: &str, now: u64) -> (result: Result<Found, Failure>)
        ensures
            self@.read(encode_utf8(key@), now).answered_by(result) || (result matches Err(e)
                && e@.is_unexpected()),
            result is Ok ==> self@.read(encode_utf8(key@), now).answered_by(result),
    {
        self.get_raw(key.as_bytes(), now)
    }

    /// Reads the object under a key given as bytes.
    pub fn get_raw(&self, key: &[u8], now: u64) -> (result: Result<Found, Failure>)
        ensures
            self@.read(key@, now).answered_by(result) || (result matches Err(e)
                && e@.is_unexpected()),
            result is Ok ==> self@.read(key@, now).answered_by(result),
    {
        let payload = match tree_get(&self.payload, key) {
            Ok(value) => value,
            Err(e) => {
                return Err(store_failure(&e));
            },
        };
        let content_type = match tree_get(&self.content_type, key) {
            Ok(value) => value,
            Err(e) => {
                return Err(store_failure(&e));
            },
        };
        let expiration = match tree_get(&self.expiration, key) {
            Ok(value) => value,
            Err(e) => {
                return Err(store_failure(&e));
            },
        };
        resolve(payload, content_type, expiration, now)
    }

    /// Deletes whatever is stored under `key`.
    pub fn delete(&mut self, key: &str) -> (deletion: Deletion)
        ensures
            final(self).keyspaces() == old(self).keyspaces(),
            deleted(old(self)@, final(self)@, final(self).durable(), encode_utf8(key@), deletion),
    {
        self.delete_raw(key.as_bytes())
    }

    /// Deletes whatever is stored under a key given as bytes.
    ///
    /// The key is taken out of all three keyspaces, and each keyspace is
    /// flushed. Every one of these six steps is tried whether or not
    /// another failed, and the result says of each how it went. Deleting
    /// a key that is not there is no failure.
    pub fn delete_raw(&mut self, key: &[u8]) -> (deletion: Deletion)
        ensures
            final(self).keyspaces() == old(self).keyspaces(),
            deleted(old(self)@, final(self)@, final(self).durable(), key@, deletion),
    {
        let content_type_removal = match tree_remove(&mut self.content_type, key) {
            Ok(_) => None,
            Err(e) => Some(store_failure(&e)),
        };
        let mut remove_file = false;
        let payload_removal = match tree_remove(&mut self.payload, key) {
            Ok(removed) => {
                remove_file = was_file_backed(&removed);
                None
            },
            Err(e) => Some(store_failure(&e)),
        };
        let expiration_removal = match tree_remove(&mut self.expiration, key) {
            Ok(_) => None,
            Err(e) => Some(store_failure(&e)),
        };
        let payload_flush = match tree_flush(&mut self.payload) {
            Ok(_) => None,
            Err(e) => Some(store_failure(&e)),
        };
        let content_type_flush = match tree_flush(&mut self.content_type) {
            Ok(_) => None,
            Err(e) => Some(store_failure(&e)),
        };
        let expiration_flush = match tree_flush(&mut self.expiration) {
            Ok(_) => None,
            Err(e) => Some(store_failure(&e)),
        };
        Deletion {
            remove_file,
            payload: Outcome { removal: payload_removal, flush: payload_flush },
            content_type: Outcome { removal: content_type_removal, flush: content_type_flush },
            expiration: Outcome { removal: expiration_removal, flush: expiration_flush },
        }
    }

    /// One sweep cycle at `now`: scans the expiration keyspace and deletes
    /// every object whose expiration lies strictly in the past.
    ///
    /// A deletion in which a step fails is reported with its key and does
    /// not stop the cycle. A step of the scan that fails ends the scan:
    /// the cycle then deletes what the scan had found, and says that it
    /// was cut short.
    pub fn sweep(&mut self, now: u64) -> (report: Sweep)
        ensures
            final(self).keyspaces() == old(self).keyspaces(),
            exists|due: Set<Seq<u8>>| #[trigger] swept(old(self)@, final(self)@, due, report, now),
            report.cut_short is None ==> lapsed_keys(old(self)@.expiration, now).finite()
                && report.deleted == lapsed_keys(old(self)@.expiration, now).len(),
            report.cut_short is None && report.failures@.len() == 0 ==> {
                &&& final(self)@ == old(self)@.swept(now)
                &&& lists_files(
                    report.files@,
                    lapsed_keys(old(self)@.expiration, now),
                    old(self)@,
                )
            },
            all_failed(report.failures@),
            report.cut_short matches Some(e) ==> e@.is_unexpected(),
    {
        let scanned = scan(&self.expiration);
        let ghost listing = pairs(scanned.found@);
        proof {
            lemma_scan_finds_lapsed(listing, self@.expiration, now);
            lemma_lapsed_count(listing, listing.len() as int, now);
        }
        let found = self.evict(&scanned.found, now);
        let report = Sweep {
            deleted: found.deleted,
            files: found.files,
            failures: found.failures,
            cut_short: scanned.cut_short,
        };
        assert(swept(
            old(self)@,
            self@,
            lapsed_among(listing, listing.len() as int, now),
            report,
            now,
        ));
        report
    }

    /// Deletes the objects that a scan of the expiration keyspace shows to
    /// have lapsed at `now`, in the order of the scan.
    pub fn evict(&mut self, items: &Vec<Entry>, now: u64) -> (report: Sweep)
        ensures
            final(self).keyspaces() == old(self).keyspaces(),
            report.deleted == lapsed_count(pairs(items@), items@.len() as int, now),
            report.cut_short is None,
            evicted(
                old(self)@,
                final(self)@,
                lapsed_among(pairs(items@), items@.len() as int, now),
                report.files@,
                report.failures@,
            ),
            report.failures@.len() == 0 ==> {
                &&& final(self)@ == old(self)@.without_all(
                    lapsed_among(pairs(items@), items@.len() as int, now),
                )
                &&& lists_files(
                    report.files@,
                    lapsed_among(pairs(items@), items@.len() as int, now),
                    old(self)@,
                )
            },
            all_failed(report.failures@),
    {
        let ghost before = self@;
        let ghost named = self.keyspaces();
        let ghost listing = pairs(items@);
        let mut deleted: usize = 0;
        let mut files: Vec<Vec<u8>> = Vec::new();
        let mut failures: Vec<(Vec<u8>, Deletion)> = Vec::new();
        let mut i: usize = 0;
        proof {
            assert(lapsed_among(listing, 0, now) =~= Set::<Seq<u8>>::empty());
            assert(failed_in(failures@, 0) =~= Set::<Seq<u8>>::empty());
            assert(failed_in(failures@, 1) =~= Set::<Seq<u8>>::empty());
            assert(failed_in(failures@, 2) =~= Set::<Seq<u8>>::empty());
            lemma_partly_removed_start(before.payload);
            lemma_partly_removed_start(before.content_type);
            lemma_partly_removed_start(before.expiration);
            assert forall|key: Seq<u8>| !(#[trigger] names(files@).contains(key)) by {}
        }
        while i < items.len()
            invariant
                0 <= i <= items@.len(),
                listing == pairs(items@),
                self.keyspaces() == named,
                deleted <= i,
                deleted == lapsed_count(listing, i as int, now),
                all_failed(failures@),
                evicted(before, self@, lapsed_among(listing, i as int, now), files@, failures@),
            decreases items@.len() - i,
        {
            proof {
                lemma_lapsed_among_step(listing, i as int, now);
            }
            let ghost seen = lapsed_among(listing, i as int, now);
            let ghost mid = self@;
            let ghost listed = files@;
            let ghost reported = failures@;
            let pair = &items[i];
            assert(listing[i as int] == (pair.0@, pair.1@));
            if lapsed(pair.1.as_slice(), now) {
                let ghost own = pair.0@;
                let deletion = self.delete_raw(pair.0.as_slice());
                if deletion.remove_file {
                    files.push(pair.0.clone());
                    assert(files@.last()@ == own);
                    assert(files@.drop_last() =~= listed);
                }
                let ghost went = deletion;
                proof {
                    lemma_partly_removed_step(
                        before.payload,
                        mid.payload,
                        self@.payload,
                        seen,
                        failed_in(reported, 0),
                        own,
                        !removal_failed(went, 0),
                    );
                    lemma_partly_removed_step(
                        before.content_type,
                        mid.content_type,
                        self@.content_type,
                        seen,
                        failed_in(reported, 1),
                        own,
                        !removal_failed(went, 1),
                    );
                    lemma_partly_removed_step(
                        before.expiration,
                        mid.expiration,
                        self@.expiration,
                        seen,
                        failed_in(reported, 2),
                        own,
                        !removal_failed(went, 2),
                    );
                }
                if !deletion.is_clean() {
                    failures.push((pair.0.clone(), deletion));
                    proof {
                        assert(failures@.drop_last() =~= reported);
                        assert(failures@.last().1 == went);
                        lemma_failed_in_push(reported, failures@, 0);
                        lemma_failed_in_push(reported, failures@, 1);
                        lemma_failed_in_push(reported, failures@, 2);
                    }
                }
                proof {
                    let failed = failed_in(failures@, 0);
                    assert(failed == if removal_failed(went, 0) {
                        failed_in(reported, 0).insert(own)
                    } else {
                        failed_in(reported, 0)
                    });
                    assert forall|key: Seq<u8>|
                        {
                            &&& #[trigger] names(files@).contains(key) ==> seen.insert(
                                own,
                            ).contains(key) && before.file_backed(key)
                            &&& seen.insert(own).contains(key) && before.file_backed(key)
                                && !failed.contains(key) ==> names(files@).contains(key)
                        } by {
                        lemma_names_push(listed, files@, own, key);
                        assert(names(listed).contains(key) ==> seen.contains(key)
                            && before.file_backed(key));
                        assert(seen.contains(key) && before.file_backed(key) && !failed_in(
                            reported,
                            0,
                        ).contains(key) ==> names(listed).contains(key));
                        assert(entry(mid.payload, own) == entry(before.payload, own) || (
                        seen.contains(own) && entry(mid.payload, own) is None));
                    }
                }
                deleted = deleted + 1;
            }
            i = i + 1;
        }
        proof {
            if failures@.len() == 0 {
                let due = lapsed_among(listing, items@.len() as int, now);
                lemma_partly_removed_clean(before.payload, self@.payload, due, failed_in(failures@, 0));
                lemma_partly_removed_clean(
                    before.content_type,
                    self@.content_type,
                    due,
                    failed_in(failures@, 1),
                );
                lemma_partly_removed_clean(
                    before.expiration,
                    self@.expiration,
                    due,
                    failed_in(failures@, 2),
                );
                assert forall|key: Seq<u8>| #[trigger]
                    names(files@).contains(key) <==> (due.contains(key) && before.file_backed(
                        key,
                    )) by {}
            }
        }
        Sweep { deleted, files, failures, cut_short: None }
    }
}

/// What a deletion of `key` has done to a store that held `before`, holds
/// `after`, and of which `durable` would survive a crash: in each
/// keyspace what the outcome for that keyspace says, and the file is to be
/// removed exactly when the payload was taken out and was the sentinel.
pub open spec fn deleted(
    before: Objects,
    after: Objects,
    durable: Objects,
    key: Seq<u8>,
    deletion: Deletion,
) -> bool {
    &&& deletion.payload.settles(before.payload, after.payload, durable.payload, key)
    &&& deletion.content_type.settles(
        before.content_type,
        after.content_type,
        durable.content_type,
        key,
    )
    &&& deletion.expiration.settles(
        before.expiration,
        after.expiration,
        durable.expiration,
        key,
    )
    &&& deletion.remove_file == (deletion.payload.removal is None && before.file_backed(key))
    &&& deletion.spec_is_clean() ==> after == before.without(key) && durable == after
}

/// One more deletion that failed adds its key to the keys whose removal
/// from a keyspace failed, where its removal from that keyspace failed.
proof fn lemma_failed_in_push(
    before: Seq<(Vec<u8>, Deletion)>,
    after: Seq<(Vec<u8>, Deletion)>,
    which: int,
)
    requires
        after.len() == before.len() + 1,
        after.drop_last() == before,
    ensures
        failed_in(after, which) == if removal_failed(after.last().1, which) {
            failed_in(before, which).insert(after.last().0@)
        } else {
            failed_in(before, which)
        },
        all_failed(before) && after.last().1.unexpected() && !after.last().1.spec_is_clean()
            ==> all_failed(after),
{
    let own = after.last().0@;
    let grown = if removal_failed(after.last().1, which) {
        failed_in(before, which).insert(own)
    } else {
        failed_in(before, which)
    };
    assert forall|key: Seq<u8>| failed_in(after, which).contains(key) <==> grown.contains(
        key,
    ) by {
        if failed_in(before, which).contains(key) {
            let j = choose|j: int|
                0 <= j < before.len() && (#[trigger] before[j]).0@ == key && removal_failed(
                    before[j].1,
                    which,
                );
            assert(after[j] == before[j]);
        }
        if key == own && removal_failed(after.last().1, which) {
            assert(after[after.len() - 1].0@ == key);
        }
        if failed_in(after, which).contains(key) {
            let j = choose|j: int|
                0 <= j < after.len() && (#[trigger] after[j]).0@ == key && removal_failed(
                    after[j].1,
                    which,
                );
            if j < before.len() {
                assert(after[j] == before[j]);
            }
        }
    }
    assert(failed_in(after, which) =~= grown);
    if all_failed(before) && after.last().1.unexpected() && !after.last().1.spec_is_clean() {
        assert forall|j: int| 0 <= j < after.len() implies (#[trigger] after[j]).1.unexpected()
            && !after[j].1.spec_is_clean() by {
            if j < before.len() {
                assert(after[j] == before[j]);
            }
        }
    }
}

/// Whether `files` names exactly the keys of `keys` under which `store`
/// has a file-backed object.
pub open spec fn lists_files(files: Seq<Vec<u8>>, keys: Set<Seq<u8>>, store: Objects) -> bool {
    forall|key: Seq<u8>| #[trigger]
        names(files).contains(key) <==> (keys.contains(key) && store.file_backed(key))
}

/// How the names of a list change when it grows by at most one key.
proof fn lemma_names_push(before: Seq<Vec<u8>>, after: Seq<Vec<u8>>, own: Seq<u8>, key: Seq<u8>)
    requires
        after == before || (after.len() == before.len() + 1 && after.drop_last() == before
            && after.last()@ == own),
    ensures
        after == before ==> (names(after).contains(key) <==> names(before).contains(key)),
        after != before ==> (names(after).contains(key) <==> (names(before).contains(key) || key
            == own)),
{
    if after != before {
        if names(before).contains(key) {
            let j = choose|j: int| 0 <= j < before.len() && (#[trigger] before[j])@ == key;
            assert(after[j] == before[j]);
        }
        if key == own {
            assert(after[after.len() - 1]@ == key);
        }
        if names(after).contains(key) {
            let j = choose|j: int| 0 <= j < after.len() && (#[trigger] after[j])@ == key;
            if j < before.len() {
                assert(after[j] == before[j]);
            }
        }
    }
}

/// The three keyspaces of the object store have three different names.
pub proof fn lemma_keyspaces_differ()
    ensures
        encode_utf8(PAYLOAD_TREE@) != encode_utf8(CONTENT_TYPE_TREE@),
        encode_utf8(PAYLOAD_TREE@) != encode_utf8(EXPIRATION_TREE@),
        encode_utf8(CONTENT_TYPE_TREE@) != encode_utf8(EXPIRATION_TREE@),
{
    reveal_strlit("data");
    reveal_strlit("content-type");
    reveal_strlit("expiration");
    is_ascii_chars_encode_utf8(PAYLOAD_TREE@);
    is_ascii_chars_encode_utf8(CONTENT_TYPE_TREE@);
    is_ascii_chars_encode_utf8(EXPIRATION_TREE@);
}

/// Round trip: an object that was put with bytes inline is read back with
/// those bytes and that content type, at any time before its expiration.
/// The answer to such a read carries the number of the bytes as its length.
pub proof fn law_read_after_put_inline(
    store: Objects,
    key: Seq<u8>,
    payload: Seq<u8>,
    content_type: Seq<u8>,
    expiration: u64,
    now: u64,
)
    requires
        payload.len() > 0,
        now < expiration,
    ensures
        store.put(key, payload, content_type, expiration).read(key, now) == (Resolution::Inline {
            bytes: payload,
            content_type,
        }),
{
    lemma_parse_be_bytes(expiration);
}

/// Round trip of a streamed object: once it is recorded, a read before its
/// expiration points to its file and gives its content type.
pub proof fn law_read_after_put_streamed(
    store: Objects,
    key: Seq<u8>,
    content_type: Seq<u8>,
    expiration: u64,
    now: u64,
)
    requires
        now < expiration,
    ensures
        store.put(key, Seq::<u8>::empty(), content_type, expiration).read(key, now) == (
        Resolution::FileBacked { content_type }),
{
    lemma_parse_be_bytes(expiration);
}

/// Putting the same bytes again leaves one object under the one key that
/// the bytes give, with the content type and the expiration of the second
/// upload.
pub proof fn law_second_put_supersedes(
    store: Objects,
    key: Seq<u8>,
    payload: Seq<u8>,
    first_type: Seq<u8>,
    first_expiration: u64,
    second_type: Seq<u8>,
    second_expiration: u64,
)
    ensures
        store.put(key, payload, first_type, first_expiration).put(
            key,
            payload,
            second_type,
            second_expiration,
        ) == store.put(key, payload, second_type, second_expiration),
{
    let twice = store.put(key, payload, first_type, first_expiration).put(
        key,
        payload,
        second_type,
        second_expiration,
    );
    let once = store.put(key, payload, second_type, second_expiration);
    assert(twice.payload =~= once.payload);
    assert(twice.content_type =~= once.content_type);
    assert(twice.expiration =~= once.expiration);
}

/// An object whose expiration has come is not found, though all three of
/// its entries are still there.
pub proof fn law_expired_is_not_found(store: Objects, key: Seq<u8>, expiration: u64, now: u64)
    requires
        store.payload.contains_key(key),
        store.content_type.contains_key(key),
        store.expiration.contains_key(key),
        store.expiration[key] == be_bytes(expiration),
        now >= expiration,
    ensures
        store.read(key, now) == Resolution::NotFound,
{
    lemma_parse_be_bytes(expiration);
}

/// After a sweep no object whose expiration had lapsed has an entry in any
/// keyspace, and every other entry is as it was.
pub proof fn law_swept_holds_no_lapsed(store: Objects, key: Seq<u8>, now: u64)
    ensures
        lapsed_keys(store.expiration, now).contains(key) ==> !store.swept(now).holds(key),
        !lapsed_keys(store.expiration, now).contains(key) ==> {
            &&& entry(store.swept(now).payload, key) == entry(store.payload, key)
            &&& entry(store.swept(now).content_type, key) == entry(store.content_type, key)
            &&& entry(store.swept(now).expiration, key) == entry(store.expiration, key)
        },
{
}

/// An object that was deleted is not found, at any time.
pub proof fn law_read_after_delete(store: Objects, key: Seq<u8>, now: u64)
    ensures
        !store.without(key).holds(key),
        store.without(key).read(key, now) == Resolution::NotFound,
{
}

/// Deleting twice is deleting once.
pub proof fn law_delete_is_idempotent(store: Objects, key: Seq<u8>)
    ensures
        store.without(key).without(key) == store.without(key),
{
    let once = store.without(key);
    let twice = once.without(key);
    assert(twice.payload =~= once.payload);
    assert(twice.content_type =~= once.content_type);
    assert(twice.expiration =~= once.expiration);
}

} // verus!
