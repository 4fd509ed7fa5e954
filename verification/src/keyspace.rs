//! Keyspaces: the named, independently synchronised byte-to-byte mappings
//! of the embedded store, here the trees of `sled`.
//!
//! A tree is modelled by the mapping it holds. `sled` synchronises a tree
//! internally and lets it be changed through a shared handle; the functions
//! below take the handle by `&mut` where the mapping changes, so that the
//! mapping before a call and the one after it are two values. What they
//! state holds as long as nothing else writes to the same tree between two
//! calls. There are no transactions across trees.

use crate::failure::{CauseView, Failure, FailureView};
use vstd::prelude::*;
use vstd::utf8::encode_utf8;

verus! {

/// Number of times that a step of a scan is tried before the scan is cut
/// short.
pub const SCAN_TRIES: usize = 3;

/// `sled::Db`, the embedded store. Nothing is seen inside it.
#[verifier::external_type_specification]
#[verifier::external_body]
pub struct ExDb(sled::Db);

/// `sled::Tree`, a handle on one keyspace. Nothing is seen inside it.
#[verifier::external_type_specification]
#[verifier::external_body]
pub struct ExTree(sled::Tree);

/// `sled::IVec`, the bytes of a key or a value as a scan yields them.
/// Nothing is seen inside it. No signature here holds one, but the scan
/// below cannot be declared without it.
#[verifier::external_type_specification]
#[verifier::external_body]
pub struct ExIVec(sled::IVec);

/// `sled::Iter`, a scan under way. Nothing is seen inside it.
#[verifier::external_type_specification]
#[verifier::external_body]
pub struct ExIter(sled::Iter);

/// `sled::Error`, the failure of a call into the store. Nothing is seen
/// inside it.
#[verifier::external_type_specification]
#[verifier::external_body]
pub struct ExStoreError(sled::Error);

/// The mapping that a tree holds.
pub uninterp spec fn entries(tree: sled::Tree) -> Map<Seq<u8>, Seq<u8>>;

/// The name of the keyspace that a tree is a handle on.
pub uninterp spec fn keyspace(tree: sled::Tree) -> Seq<u8>;

/// The mapping that would be recovered for a tree if the system crashed
/// now.
pub uninterp spec fn recoverable(tree: sled::Tree) -> Map<Seq<u8>, Seq<u8>>;

/// The entries that a scan has still to yield, in the order in which it
/// yields them.
pub uninterp spec fn ahead(iter: sled::Iter) -> Seq<(Seq<u8>, Seq<u8>)>;

/// A key with its value.
pub type Entry = (Vec<u8>, Vec<u8>);

/// One step of a scan: an entry, or the failure to read one.
pub type Scanned = Result<Entry, sled::Error>;

/// The value under `key` in `map`, if there is one.
pub open spec fn entry(map: Map<Seq<u8>, Seq<u8>>, key: Seq<u8>) -> Option<Seq<u8>> {
    if map.contains_key(key) {
        Some(map[key])
    } else {
        None
    }
}

/// The bytes of an optional value.
pub open spec fn bytes_of(value: Option<Vec<u8>>) -> Option<Seq<u8>> {
    match value {
        Some(v) => Some(v@),
        None => None,
    }
}

/// The bytes of a list of entries.
pub open spec fn pairs(found: Seq<Entry>) -> Seq<(Seq<u8>, Seq<u8>)> {
    Seq::new(found.len(), |i: int| (found[i].0@, found[i].1@))
}

/// Whether every pair of `listing` is an entry of `map`.
pub open spec fn lists_entries(listing: Seq<(Seq<u8>, Seq<u8>)>, map: Map<Seq<u8>, Seq<u8>>)
    -> bool {
    forall|i: int|
        0 <= i < listing.len() ==> entry(map, (#[trigger] listing[i]).0) == Some(listing[i].1)
}

/// Whether no key stands twice in `listing`.
pub open spec fn lists_once(listing: Seq<(Seq<u8>, Seq<u8>)>) -> bool {
    forall|i: int, j: int|
        0 <= i < j < listing.len() ==> (#[trigger] listing[i]).0 != (#[trigger] listing[j]).0
}

/// Whether every key of `map` stands in `listing`.
pub open spec fn lists_all(listing: Seq<(Seq<u8>, Seq<u8>)>, map: Map<Seq<u8>, Seq<u8>>) -> bool {
    forall|key: Seq<u8>| #[trigger]
        map.contains_key(key) ==> exists|i: int|
            0 <= i < listing.len() && (#[trigger] listing[i]).0 == key
}

/// Whether `listing` is `map` written out: every pair is an entry of the
/// map, every key of the map stands in it, and none twice.
pub open spec fn lists(listing: Seq<(Seq<u8>, Seq<u8>)>, map: Map<Seq<u8>, Seq<u8>>) -> bool {
    &&& lists_entries(listing, map)
    &&& lists_all(listing, map)
    &&& lists_once(listing)
}

/// What a write that failed may have left: the store may have come to
/// apply it before it failed, so the mapping is either as it was or as the
/// write would have made it.
pub open spec fn left_or_applied(
    after: Map<Seq<u8>, Seq<u8>>,
    before: Map<Seq<u8>, Seq<u8>>,
    applied: Map<Seq<u8>, Seq<u8>>,
) -> bool {
    after == before || after == applied
}

/// `sled::Db::open_tree`: the keyspace of that name, made if it is
/// missing.
///
/// Trusted: a successful call returns a handle on the keyspace whose name
/// is the bytes of `name`. Nothing is claimed of what it holds.
#[verifier::external_body]
pub(crate) fn open_tree(db: &sled::Db, name: &str) -> (tree: Result<sled::Tree, sled::Error>)
    ensures
        tree matches Ok(t) ==> keyspace(t) == encode_utf8(name@),
{
    db.open_tree(name)
}

/// `sled::Tree::get`.
///
/// Trusted: a successful call returns the value under `key`, or `None`
/// where the tree holds none.
#[verifier::external_body]
pub(crate) fn tree_get(tree: &sled::Tree, key: &[u8]) -> (found: Result<
    Option<Vec<u8>>,
    sled::Error,
>)
    ensures
        found matches Ok(value) ==> bytes_of(value) == entry(entries(*tree), key@),
{
    tree.get(key).map(|value| value.map(|v| v.to_vec()))
}

/// `sled::Tree::insert`.
///
/// Trusted: a successful call puts `value` under `key`, leaves every other
/// entry alone and returns the value that was there before. A call can
/// fail after the store has applied the write: then the tree is either as
/// it was or as a successful call would have left it. The handle stays on
/// its keyspace.
#[verifier::external_body]
pub(crate) fn tree_insert(tree: &mut sled::Tree, key: &[u8], value: &[u8]) -> (previous: Result<
    Option<Vec<u8>>,
    sled::Error,
>)
    ensures
        previous matches Ok(before) ==> {
            &&& bytes_of(before) == entry(entries(*old(tree)), key@)
            &&& entries(*final(tree)) == entries(*old(tree)).insert(key@, value@)
        },
        previous is Err ==> left_or_applied(
            entries(*final(tree)),
            entries(*old(tree)),
            entries(*old(tree)).insert(key@, value@),
        ),
        keyspace(*final(tree)) == keyspace(*old(tree)),
{
    tree.insert(key, value).map(|before| before.map(|v| v.to_vec()))
}

/// `sled::Tree::remove`.
///
/// Trusted: a successful call removes the entry under `key`, if there is
/// one, leaves every other entry alone and returns the value that was
/// there before. A call can fail after the store has applied the removal:
/// then the tree is either as it was or without the entry. The handle
/// stays on its keyspace.
#[verifier::external_body]
pub(crate) fn tree_remove(tree: &mut sled::Tree, key: &[u8]) -> (previous: Result<
    Option<Vec<u8>>,
    sled::Error,
>)
    ensures
        previous matches Ok(before) ==> {
            &&& bytes_of(before) == entry(entries(*old(tree)), key@)
            &&& entries(*final(tree)) == entries(*old(tree)).remove(key@)
        },
        previous is Err ==> left_or_applied(
            entries(*final(tree)),
            entries(*old(tree)),
            entries(*old(tree)).remove(key@),
        ),
        keyspace(*final(tree)) == keyspace(*old(tree)),
{
    tree.remove(key).map(|before| before.map(|v| v.to_vec()))
}

/// `sled::Tree::iter`: a scan of the whole tree.
///
/// Trusted: what the scan has to yield is the tree written out, every key
/// once: the scan goes through the keys in ascending order.
#[verifier::external_body]
pub(crate) fn scan_open(tree: &sled::Tree) -> (iter: sled::Iter)
    ensures
        lists(ahead(iter), entries(*tree)),
{
    tree.iter()
}

/// `sled::Iter::next`, of `Iterator`: one step of a scan.
///
/// Trusted: a step yields the first entry that is ahead and moves past it;
/// it yields nothing only when nothing is ahead; a step that fails does
/// not move the scan.
#[verifier::external_body]
pub(crate) fn scan_next(iter: &mut sled::Iter) -> (item: Option<Scanned>)
    ensures
        match item {
            None => ahead(*old(iter)).len() == 0 && ahead(*final(iter)) == ahead(*old(iter)),
            Some(Ok(pair)) => ahead(*old(iter)).len() > 0 && (pair.0@, pair.1@) == ahead(
                *old(iter),
            )[0] && ahead(*final(iter)) == ahead(*old(iter)).drop_first(),
            Some(Err(_)) => ahead(*final(iter)) == ahead(*old(iter)),
        },
{
    iter.next().map(|item| item.map(|(k, v)| (k.to_vec(), v.to_vec())))
}

/// `sled::Tree::flush`: writes out what is not yet on disk and syncs.
///
/// Trusted: the call changes no entry and leaves the handle on its
/// keyspace, and after a successful call all that the tree holds would be
/// recovered after a crash.
#[verifier::external_body]
pub(crate) fn tree_flush(tree: &mut sled::Tree) -> (flushed: Result<usize, sled::Error>)
    ensures
        entries(*final(tree)) == entries(*old(tree)),
        keyspace(*final(tree)) == keyspace(*old(tree)),
        flushed is Ok ==> recoverable(*final(tree)) == entries(*final(tree)),
{
    tree.flush()
}

/// A failure of the store, as a failure of the engine: unexpected, with
/// the store's own words as its message.
pub fn store_failure(e: &sled::Error) -> (failure: Failure)
    ensures
        failure@.is_unexpected(),
        exists|words: String| #[trigger]
            vstd::string::to_string_from_display_ensures::<sled::Error>(e, words) && failure@
                == FailureView::Unexpected(CauseView::plain(words@)),
{
    Failure::unexpected(e.to_string())
}

/// What a scan of a keyspace found.
#[derive(Debug)]
pub struct Scan {
    /// The entries, in the order of the scan.
    pub found: Vec<Entry>,
    /// The failure that ended the scan before its end, if one did.
    pub cut_short: Option<Failure>,
}

/// Scans a keyspace from its first key on.
///
/// A step that fails leaves the scan where it was, so it is tried again,
/// up to `SCAN_TRIES` times in all; only then is the scan cut short. What
/// is found are entries of the keyspace, each key once. A scan that was
/// not cut short has found every entry.
pub fn scan(tree: &sled::Tree) -> (scan: Scan)
    ensures
        lists_entries(pairs(scan.found@), entries(*tree)),
        lists_once(pairs(scan.found@)),
        scan.cut_short is None ==> lists(pairs(scan.found@), entries(*tree)),
        scan.cut_short matches Some(e) ==> e@.is_unexpected(),
{
    let mut iter = scan_open(tree);
    let ghost whole = ahead(iter);
    let mut found: Vec<Entry> = Vec::new();
    let mut cut_short: Option<Failure> = None;
    let mut going = true;
    let mut tries: usize = SCAN_TRIES;
    assert(pairs(found@) + ahead(iter) =~= whole);
    while going
        invariant
            pairs(found@) + ahead(iter) == whole,
            !going && cut_short is None ==> ahead(iter).len() == 0,
            cut_short matches Some(e) ==> e@.is_unexpected(),
            going ==> cut_short is None && tries > 0,
        decreases
                ahead(iter).len(),
                tries + (if going {
                    1nat
                } else {
                    0nat
                }),
    {
        let ghost rest = ahead(iter);
        let ghost so_far = found@;
        match scan_next(&mut iter) {
            None => {
                going = false;
            },
            Some(Ok(pair)) => {
                found.push(pair);
                tries = SCAN_TRIES;
                assert(pairs(found@) =~= pairs(so_far).push(rest[0]));
                assert(pairs(found@) + ahead(iter) =~= pairs(so_far) + rest);
            },
            Some(Err(e)) => {
                tries = tries - 1;
                if tries == 0 {
                    cut_short = Some(store_failure(&e));
                    going = false;
                }
            },
        }
    }
    proof {
        let listing = pairs(found@);
        assert(listing =~= whole.subrange(0, listing.len() as int));
        assert forall|i: int| 0 <= i < listing.len() implies entry(
            entries(*tree),
            (#[trigger] listing[i]).0,
        ) == Some(listing[i].1) by {
            assert(listing[i] == whole[i]);
        }
        assert forall|i: int, j: int| 0 <= i < j < listing.len() implies (#[trigger] listing[i]).0
            != (#[trigger] listing[j]).0 by {
            assert(listing[i] == whole[i]);
            assert(listing[j] == whole[j]);
        }
        if cut_short is None {
            assert(listing =~= whole);
        }
    }
    Scan { found, cut_short }
}

} // verus!
