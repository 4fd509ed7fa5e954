//! What a sweep evicts: the entries of a keyspace of timestamps whose
//! timestamp lies strictly in the past.
//!
//! A sweep scans the keyspace once and goes to remove every lapsed entry
//! that the scan found. A value that is no timestamp never lapses. A
//! removal that fails does not stop the sweep; the entry it was about is
//! then either still there or gone.

use crate::keyspace::{entry, lists, lists_entries, lists_once};
use crate::timestamp::{decode, has_lapsed, parse};
use vstd::prelude::*;

verus! {

/// Whether `value` is a timestamp that lies strictly before `now`.
pub open spec fn spec_lapsed(value: Seq<u8>, now: u64) -> bool {
    parse(value) matches Some(t) && now > t
}

/// The keys of `expirations` whose timestamp has lapsed at `now`.
pub open spec fn lapsed_keys(expirations: Map<Seq<u8>, Seq<u8>>, now: u64) -> Set<Seq<u8>> {
    Set::new(|key: Seq<u8>| expirations.contains_key(key) && spec_lapsed(expirations[key], now))
}

/// Whether `pair` is an entry under `key` whose timestamp has lapsed.
pub open spec fn lapsed_pair(pair: (Seq<u8>, Seq<u8>), key: Seq<u8>, now: u64) -> bool {
    pair.0 == key && spec_lapsed(pair.1, now)
}

/// The keys of the lapsed entries among the first `n` of `listing`.
pub open spec fn lapsed_among(listing: Seq<(Seq<u8>, Seq<u8>)>, n: int, now: u64) -> Set<
    Seq<u8>,
> {
    Set::new(
        |key: Seq<u8>| exists|j: int| 0 <= j < n && lapsed_pair(#[trigger] listing[j], key, now),
    )
}

/// The number of lapsed entries among the first `n` of `listing`.
pub open spec fn lapsed_count(listing: Seq<(Seq<u8>, Seq<u8>)>, n: int, now: u64) -> nat
    decreases n,
{
    if n <= 0 {
        0
    } else {
        lapsed_count(listing, n - 1, now) + if spec_lapsed(listing[n - 1].1, now) {
            1nat
        } else {
            0nat
        }
    }
}

/// The names in a list of keys.
pub open spec fn names(keys: Seq<Vec<u8>>) -> Set<Seq<u8>> {
    Set::new(|key: Seq<u8>| exists|j: int| 0 <= j < keys.len() && (#[trigger] keys[j])@ == key)
}

/// What a run of removals leaves of a keyspace. The keys of `due` were to
/// be removed, and for those of `failed` a removal failed. Every entry
/// under another key is as it was; an entry that was due is gone, unless a
/// removal of it failed: then it is gone or as it was.
pub open spec fn partly_removed(
    before: Map<Seq<u8>, Seq<u8>>,
    after: Map<Seq<u8>, Seq<u8>>,
    due: Set<Seq<u8>>,
    failed: Set<Seq<u8>>,
) -> bool {
    forall|key: Seq<u8>|
        {
            &&& #[trigger] entry(after, key) == entry(before, key) || (due.contains(key) && entry(
                after,
                key,
            ) is None)
            &&& due.contains(key) && !failed.contains(key) ==> entry(after, key) is None
        }
}

/// Before any removal nothing is due and nothing has changed.
pub proof fn lemma_partly_removed_start(before: Map<Seq<u8>, Seq<u8>>)
    ensures
        partly_removed(before, before, Set::empty(), Set::empty()),
{
}

/// One more removal, of `key`: it went through (`ok`) and the entry is
/// gone, or it failed and the entry is gone or as it was.
pub proof fn lemma_partly_removed_step(
    before: Map<Seq<u8>, Seq<u8>>,
    mid: Map<Seq<u8>, Seq<u8>>,
    after: Map<Seq<u8>, Seq<u8>>,
    due: Set<Seq<u8>>,
    failed: Set<Seq<u8>>,
    key: Seq<u8>,
    ok: bool,
)
    requires
        partly_removed(before, mid, due, failed),
        ok ==> after == mid.remove(key),
        !ok ==> after == mid || after == mid.remove(key),
    ensures
        partly_removed(
            before,
            after,
            due.insert(key),
            if ok {
                failed
            } else {
                failed.insert(key)
            },
        ),
{
    let due_then = due.insert(key);
    let failed_then = if ok {
        failed
    } else {
        failed.insert(key)
    };
    assert forall|k: Seq<u8>|
        {
            &&& #[trigger] entry(after, k) == entry(before, k) || (due_then.contains(k) && entry(
                after,
                k,
            ) is None)
            &&& due_then.contains(k) && !failed_then.contains(k) ==> entry(after, k) is None
        } by {
        assert(entry(mid, k) == entry(before, k) || (due.contains(k) && entry(mid, k) is None));
        assert(due.contains(k) && !failed.contains(k) ==> entry(mid, k) is None);
        if k != key {
            assert(entry(after, k) == entry(mid, k));
        }
    }
}

/// Where no removal failed, what is left is the keyspace without the keys
/// that were due.
pub proof fn lemma_partly_removed_clean(
    before: Map<Seq<u8>, Seq<u8>>,
    after: Map<Seq<u8>, Seq<u8>>,
    due: Set<Seq<u8>>,
    failed: Set<Seq<u8>>,
)
    requires
        partly_removed(before, after, due, failed),
        forall|key: Seq<u8>| !failed.contains(key),
    ensures
        after == before.remove_keys(due),
{
    let gone = before.remove_keys(due);
    assert forall|key: Seq<u8>| after.contains_key(key) <==> gone.contains_key(key) by {
        assert(entry(after, key) == entry(before, key) || (due.contains(key) && entry(after, key)
            is None));
        assert(due.contains(key) && !failed.contains(key) ==> entry(after, key) is None);
    }
    assert forall|key: Seq<u8>| after.contains_key(key) implies after[key] == gone[key] by {
        assert(entry(after, key) == entry(before, key) || (due.contains(key) && entry(after, key)
            is None));
    }
    assert(after =~= gone);
}

/// The lapsed entries that a scan found are lapsed entries of the
/// keyspace, and a scan that found every entry found every lapsed one.
pub proof fn lemma_scan_finds_lapsed(
    listing: Seq<(Seq<u8>, Seq<u8>)>,
    map: Map<Seq<u8>, Seq<u8>>,
    now: u64,
)
    requires
        lists_entries(listing, map),
    ensures
        lapsed_among(listing, listing.len() as int, now).subset_of(lapsed_keys(map, now)),
        lists(listing, map) ==> lapsed_among(listing, listing.len() as int, now) == lapsed_keys(
            map,
            now,
        ),
{
    let found = lapsed_among(listing, listing.len() as int, now);
    let due = lapsed_keys(map, now);
    assert forall|key: Seq<u8>| found.contains(key) implies due.contains(key) by {
        let j = choose|j: int| 0 <= j < listing.len() && lapsed_pair(#[trigger] listing[j], key, now);
        assert(entry(map, listing[j].0) == Some(listing[j].1));
    }
    if lists(listing, map) {
        assert forall|key: Seq<u8>| due.contains(key) implies found.contains(key) by {
            assert(map.contains_key(key));
            let i = choose|i: int| 0 <= i < listing.len() && (#[trigger] listing[i]).0 == key;
            assert(entry(map, listing[i].0) == Some(listing[i].1));
            assert(lapsed_pair(listing[i], key, now));
        }
        assert(found =~= due);
    }
}

/// One more entry changes the lapsed keys found so far by at most its own
/// key.
pub proof fn lemma_lapsed_among_step(listing: Seq<(Seq<u8>, Seq<u8>)>, n: int, now: u64)
    requires
        0 <= n < listing.len(),
    ensures
        spec_lapsed(listing[n].1, now) ==> lapsed_among(listing, n + 1, now) == lapsed_among(
            listing,
            n,
            now,
        ).insert(listing[n].0),
        !spec_lapsed(listing[n].1, now) ==> lapsed_among(listing, n + 1, now) == lapsed_among(
            listing,
            n,
            now,
        ),
{
    let before = lapsed_among(listing, n, now);
    let after = lapsed_among(listing, n + 1, now);
    assert forall|key: Seq<u8>| before.contains(key) implies after.contains(key) by {
        let j = choose|j: int| 0 <= j < n && lapsed_pair(#[trigger] listing[j], key, now);
        assert(0 <= j < n + 1 && lapsed_pair(listing[j], key, now));
    }
    if spec_lapsed(listing[n].1, now) {
        let own = listing[n].0;
        assert(lapsed_pair(listing[n], own, now));
        assert(after.contains(own));
        assert forall|key: Seq<u8>| after.contains(key) implies before.insert(own).contains(
            key,
        ) by {
            let j = choose|j: int| 0 <= j < n + 1 && lapsed_pair(#[trigger] listing[j], key, now);
            if j < n {
                assert(before.contains(key));
            }
        }
        assert(after =~= before.insert(own));
    } else {
        assert forall|key: Seq<u8>| after.contains(key) implies before.contains(key) by {
            let j = choose|j: int| 0 <= j < n + 1 && lapsed_pair(#[trigger] listing[j], key, now);
            assert(j < n);
        }
        assert(after =~= before);
    }
}

/// Where no key stands twice, the lapsed entries among the first `n` are
/// as many as their keys.
pub proof fn lemma_lapsed_count(listing: Seq<(Seq<u8>, Seq<u8>)>, n: int, now: u64)
    requires
        0 <= n <= listing.len(),
        lists_once(listing),
    ensures
        lapsed_among(listing, n, now).finite(),
        lapsed_among(listing, n, now).len() == lapsed_count(listing, n, now),
    decreases n,
{
    if n == 0 {
        assert(lapsed_among(listing, 0, now) =~= Set::<Seq<u8>>::empty());
    } else {
        lemma_lapsed_count(listing, n - 1, now);
        lemma_lapsed_among_step(listing, n - 1, now);
        if spec_lapsed(listing[n - 1].1, now) {
            let own = listing[n - 1].0;
            if lapsed_among(listing, n - 1, now).contains(own) {
                let j = choose|j: int|
                    0 <= j < n - 1 && lapsed_pair(#[trigger] listing[j], own, now);
                assert(listing[j].0 != listing[n - 1].0);
            }
        }
    }
}

/// Whether a stored value is a timestamp that lies strictly before `now`.
pub fn lapsed(value: &[u8], now: u64) -> (due: bool)
    ensures
        due == spec_lapsed(value@, now),
{
    match decode(value) {
        Some(until) => has_lapsed(until, now),
        None => false,
    }
}

} // verus!
