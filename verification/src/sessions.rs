//! The session store: the tokens that authorise writes.
//!
//! The key of a session is sixteen random bytes followed by the user name,
//! so the key is both the payload of the bearer token and the identity for
//! the audit. Its value is the time at which the session ends. A session
//! lives seven days from login and is never renewed.

use crate::encoding::{
    base64_standard, base64_standard_decoded, decodable, decode_standard, describe_decode_error,
    encodable, encode_standard, utf8_text,
};
use crate::entropy::fill_random;
use crate::failure::{CauseView, Failure, FailureView, Status};
use crate::keyspace::{
    bytes_of, entries, entry, keyspace, left_or_applied, open_tree, pairs, recoverable, scan,
    store_failure, tree_flush, tree_get, tree_insert, tree_remove, Entry,
};
use crate::sweep::{
    lapsed, lapsed_among, lapsed_count, lapsed_keys, lemma_lapsed_among_step, lemma_lapsed_count,
    lemma_partly_removed_clean, lemma_partly_removed_start, lemma_partly_removed_step,
    lemma_scan_finds_lapsed, partly_removed,
};
use crate::timestamp::{
    be_bytes, decode, encode, has_lapsed, lemma_parse_be_bytes, parse, session_expiration,
    SESSION_TTL,
};
use vstd::prelude::*;
use vstd::utf8::{
    decode_utf8, encode_utf8, encode_utf8_decode_utf8, encode_utf8_valid_utf8,
    is_ascii_chars_encode_utf8, valid_utf8,
};

verus! {

/// Number of random bytes at the head of a session key.
pub const NONCE_LEN: usize = 16;

/// Name of the keyspace of the sessions.
pub const SESSIONS_TREE: &'static str = "sessions";

/// The session store: a handle on its keyspace.
pub struct SessionStore {
    sessions: sled::Tree,
}

/// What the stored entry says of a presented key.
pub enum Verdict {
    /// The session is live: writes go under this user name.
    Granted(Seq<char>),
    /// The token is not well-formed text.
    Malformed,
    /// No session is stored under the key.
    Unknown,
    /// The session has ended.
    Expired,
    /// The entry is not that of a session: its value is no timestamp, or
    /// its key holds no user name.
    Corrupt,
}

/// What the store decided about a presented key.
#[derive(Debug)]
pub enum Judgement {
    /// The session is live, for this user.
    Granted(String),
    /// No session is stored under the key.
    Unknown,
    /// The session has ended and has to be taken out.
    Expired,
    /// The entry is not that of a session; the message says why.
    Corrupt(String),
}

/// What one sweep cycle over the sessions did.
#[derive(Debug)]
pub struct Purge {
    /// Number of ended sessions that the cycle went to remove.
    pub deleted: usize,
    /// The removals that failed, each with the key it was about. None of
    /// them stopped the cycle.
    pub failures: Vec<(Vec<u8>, Failure)>,
    /// The failure that ended the scan before its end, if one did: the
    /// sessions behind it were not looked at.
    pub cut_short: Option<Failure>,
}

/// The keys whose removal failed.
pub open spec fn failed_keys(failures: Seq<(Vec<u8>, Failure)>) -> Set<Seq<u8>> {
    Set::new(
        |key: Seq<u8>| exists|j: int| 0 <= j < failures.len() && (#[trigger] failures[j]).0@ == key,
    )
}

/// Whether every failure of the list is a failure of the store.
pub open spec fn all_unexpected(failures: Seq<(Vec<u8>, Failure)>) -> bool {
    forall|j: int| 0 <= j < failures.len() ==> (#[trigger] failures[j]).1@.is_unexpected()
}

/// What a sweep at `now` that went to remove the sessions under `due` has
/// done. The sessions under `due` had ended, and there are `deleted` of
/// them; where the scan was `complete`, they are all that had ended. What
/// is left of the store is what `partly_removed` says, with the keys of
/// `failures` as those whose removal failed.
pub open spec fn purged(
    before: Map<Seq<u8>, Seq<u8>>,
    after: Map<Seq<u8>, Seq<u8>>,
    due: Set<Seq<u8>>,
    failures: Seq<(Vec<u8>, Failure)>,
    deleted: nat,
    complete: bool,
    now: u64,
) -> bool {
    &&& partly_removed(before, after, due, failed_keys(failures))
    &&& due.subset_of(lapsed_keys(before, now))
    &&& due.finite()
    &&& deleted == due.len()
    &&& complete ==> due == lapsed_keys(before, now)
}

impl View for Judgement {
    type V = Verdict;

    open spec fn view(&self) -> Verdict {
        match self {
            Judgement::Granted(name) => Verdict::Granted(name@),
            Judgement::Unknown => Verdict::Unknown,
            Judgement::Expired => Verdict::Expired,
            Judgement::Corrupt(_) => Verdict::Corrupt,
        }
    }
}

/// The key of the session of `username` with the random bytes `nonce`.
pub open spec fn session_key(nonce: Seq<u8>, username: Seq<char>) -> Seq<u8> {
    nonce + encode_utf8(username)
}

/// Whether a session can be opened for `username`: the name is short
/// enough for the text of the key to be counted in a `usize`.
pub open spec fn admits(username: Seq<char>) -> bool {
    encodable((NONCE_LEN + encode_utf8(username).len()) as nat)
}

/// The time at which a session opened at `now` ends.
pub open spec fn session_until(now: u64) -> u64 {
    (now + SESSION_TTL) as u64
}

/// The key that `token` stands for, if it is well-formed: a token is the
/// standard base64 text of the key.
pub open spec fn spec_session_of(token: Seq<char>) -> Option<Seq<u8>> {
    if decodable(encode_utf8(token).len()) {
        base64_standard_decoded(token)
    } else {
        None
    }
}

/// What the entry `stored` under `key` says at `now`.
pub open spec fn spec_judge(key: Seq<u8>, stored: Option<Seq<u8>>, now: u64) -> Verdict {
    match stored {
        None => Verdict::Unknown,
        Some(value) => match parse(value) {
            None => Verdict::Corrupt,
            Some(until) => if now > until {
                Verdict::Expired
            } else if key.len() < NONCE_LEN || !valid_utf8(key.skip(NONCE_LEN as int)) {
                Verdict::Corrupt
            } else {
                Verdict::Granted(decode_utf8(key.skip(NONCE_LEN as int)))
            },
        },
    }
}

/// What presenting `token` at `now` comes to, given what is stored.
pub open spec fn spec_validate(sessions: Map<Seq<u8>, Seq<u8>>, token: Seq<char>, now: u64)
    -> Verdict {
    match spec_session_of(token) {
        None => Verdict::Malformed,
        Some(key) => spec_judge(key, entry(sessions, key), now),
    }
}

/// Whether `result` is a failure of the store rather than a decision.
pub open spec fn store_failed<T>(result: Result<T, Failure>) -> bool {
    result matches Err(e) && e@.is_unexpected()
}

/// Whether `failure` is the rejection of a token that is not well-formed
/// text.
pub open spec fn rejects_token(failure: FailureView) -> bool {
    failure matches FailureView::StatusWithMessage(Status::BadRequest, cause) && cause.context
        == seq!["parsing session cookie"@]
}

/// Decides what the entry found under a presented key means at `now`.
///
/// A session lasts through the second of its expiration. The user name is
/// what follows the first sixteen bytes of the key.
pub fn judge(key: &[u8], stored: Option<Vec<u8>>, now: u64) -> (judgement: Judgement)
    ensures
        judgement@ == spec_judge(key@, bytes_of(stored), now),
        judgement matches Judgement::Corrupt(why) ==> match bytes_of(stored) {
            Some(value) => {
                &&& (parse(value) is None) ==> why@ == "session has no expiration"@
                &&& (parse(value) is Some) && key@.len() < NONCE_LEN ==> why@
                    == "session key is too short"@
            },
            None => true,
        },
{
    match stored {
        None => Judgement::Unknown,
        Some(value) => match decode(value.as_slice()) {
            None => Judgement::Corrupt("session has no expiration".to_owned()),
            Some(until) => {
                if has_lapsed(until, now) {
                    Judgement::Expired
                } else if key.len() < NONCE_LEN {
                    Judgement::Corrupt("session key is too short".to_owned())
                } else {
                    let name = vstd::slice::slice_subrange(key, NONCE_LEN, key.len());
                    assert(name@ =~= key@.skip(NONCE_LEN as int));
                    match utf8_text(name) {
                        Ok(text) => Judgement::Granted(text.to_owned()),
                        Err(e) => Judgement::Corrupt(e.to_string()),
                    }
                }
            },
        },
    }
}

impl Judgement {
    /// Whether the session has ended, so that its entry has to go.
    pub fn is_expired(&self) -> (expired: bool)
        ensures
            expired == (self@ is Expired),
    {
        match self {
            Judgement::Expired => true,
            _ => false,
        }
    }
}

/// What the bearer of a token is told, given what the store decided and,
/// for a session that has ended, how the removal of its entry went.
///
/// A live session gives its user. An unknown one is unauthorised, without
/// a word. One that has ended is unauthorised as expired, unless its
/// removal failed: then that failure is the answer. A corrupt entry is an
/// unexpected failure that says why.
pub fn answer(judgement: Judgement, removal: Option<Failure>) -> (result: Result<String, Failure>)
    ensures
        match judgement {
            Judgement::Granted(user) => result matches Ok(name) && name == user,
            Judgement::Unknown => result matches Err(e) && e@ == FailureView::Status(
                Status::Unauthorized,
            ),
            Judgement::Expired => match removal {
                None => result matches Err(e) && e@ == FailureView::StatusWithMessage(
                    Status::Unauthorized,
                    CauseView::plain("session expired"@),
                ),
                Some(failure) => result matches Err(e) && e == failure,
            },
            Judgement::Corrupt(why) => result matches Err(e) && e@ == FailureView::Unexpected(
                CauseView::plain(why@),
            ),
        },
{
    match judgement {
        Judgement::Granted(user) => Ok(user),
        Judgement::Unknown => Err(Failure::Status(Status::Unauthorized)),
        Judgement::Expired => match removal {
            None => Err(Failure::rejected(Status::Unauthorized, "session expired")),
            Some(failure) => Err(failure),
        },
        Judgement::Corrupt(why) => Err(Failure::unexpected(why)),
    }
}

/// Reads the key out of a token, or rejects the token as malformed.
pub fn decode_token(token: &str) -> (key: Result<Vec<u8>, Failure>)
    ensures
        match key {
            Ok(bytes) => spec_session_of(token@) == Some(bytes@),
            Err(e) => spec_session_of(token@) is None && rejects_token(e@),
        },
{
    if token.as_bytes().len() > usize::MAX - 7 {
        let e = Failure::rejected(Status::BadRequest, "token too long");
        return Err(e.with_message("parsing session cookie"));
    }
    match decode_standard(token) {
        Ok(bytes) => Ok(bytes),
        Err(e) => {
            let failure = Failure::unexpected(describe_decode_error(&e));
            let failure = failure.with_status(Status::BadRequest);
            let failure = failure.with_message("parsing session cookie");
            assert(failure@->StatusWithMessage_1.context =~= seq!["parsing session cookie"@]);
            Err(failure)
        },
    }
}

impl View for SessionStore {
    type V = Map<Seq<u8>, Seq<u8>>;

    closed spec fn view(&self) -> Map<Seq<u8>, Seq<u8>> {
        entries(self.sessions)
    }
}

impl SessionStore {
    /// What would be recovered of the sessions after a crash.
    pub closed spec fn durable(&self) -> Map<Seq<u8>, Seq<u8>> {
        recoverable(self.sessions)
    }

    /// The name of the keyspace that the store is on.
    pub closed spec fn keyspace_name(&self) -> Seq<u8> {
        keyspace(self.sessions)
    }

    /// Whether the store is on the keyspace of the sessions.
    pub open spec fn on_keyspace(&self) -> bool {
        self.keyspace_name() == encode_utf8(SESSIONS_TREE@)
    }

    /// Opens the session store of `db`: the keyspace named `SESSIONS_TREE`,
    /// made if it is missing.
    pub fn open(db: &sled::Db) -> (store: Result<SessionStore, Failure>)
        ensures
            store matches Ok(opened) ==> opened.on_keyspace(),
            store matches Err(e) ==> e@.is_unexpected(),
    {
        match open_tree(db, SESSIONS_TREE) {
            Ok(sessions) => Ok(SessionStore { sessions }),
            Err(e) => Err(store_failure(&e)),
        }
    }

    /// Opens a session for `username` at `now` and returns its token.
    ///
    /// The session is stored under sixteen fresh random bytes followed by
    /// the user name, and ends seven days after `now`. Until then the
    /// token validates to `username`; after that it is expired.
    pub fn create(&mut self, username: &str, now: u64) -> (result: Result<String, Failure>)
        requires
            now + SESSION_TTL <= u64::MAX,
            admits(username@),
        ensures
            final(self).keyspace_name() == old(self).keyspace_name(),
            match result {
                Ok(token) => exists|nonce: Seq<u8>|
                    {
                        &&& nonce.len() == NONCE_LEN
                        &&& #[trigger] opened(old(self)@, final(self)@, nonce, username@, now, token@)
                    },
                Err(e) => e@.is_unexpected(),
            },
            result is Err ==> final(self)@ == old(self)@ || exists|nonce: Seq<u8>|
                nonce.len() == NONCE_LEN && final(self)@ == #[trigger] old(self)@.insert(
                    session_key(nonce, username@),
                    be_bytes(session_until(now)),
                ),
    {
        let mut nonce: Vec<u8> = Vec::new();
        let mut i: usize = 0;
        while i < NONCE_LEN
            invariant
                i <= NONCE_LEN,
                nonce@.len() == i,
            decreases NONCE_LEN - i,
        {
            nonce.push(0u8);
            i = i + 1;
        }
        fill_random(&mut nonce);
        self.create_with_nonce(nonce.as_slice(), username, now)
    }

    /// Opens a session for `username` at `now` under the given random
    /// bytes.
    pub fn create_with_nonce(&mut self, nonce: &[u8], username: &str, now: u64) -> (result: Result<
        String,
        Failure,
    >)
        requires
            nonce@.len() == NONCE_LEN,
            now + SESSION_TTL <= u64::MAX,
            admits(username@),
        ensures
            final(self).keyspace_name() == old(self).keyspace_name(),
            match result {
                Ok(token) => opened(old(self)@, final(self)@, nonce@, username@, now, token@),
                Err(e) => e@.is_unexpected(),
            },
            result is Err ==> left_or_applied(
                final(self)@,
                old(self)@,
                old(self)@.insert(session_key(nonce@, username@), be_bytes(session_until(now))),
            ),
    {
        let mut key: Vec<u8> = Vec::new();
        key.extend_from_slice(nonce);
        key.extend_from_slice(username.as_bytes());
        assert(key@ =~= session_key(nonce@, username@));
        let until = session_expiration(now);
        let stored = encode(until);
        match tree_insert(&mut self.sessions, key.as_slice(), stored.as_slice()) {
            Ok(_) => {},
            Err(e) => {
                return Err(store_failure(&e));
            },
        }
        let token = encode_standard(key.as_slice());
        proof {
            is_ascii_chars_encode_utf8(token@);
            lemma_parse_be_bytes(until);
            encode_utf8_valid_utf8(username@);
            encode_utf8_decode_utf8(username@);
            assert(key@.skip(NONCE_LEN as int) =~= encode_utf8(username@));
        }
        Ok(token)
    }

    /// Asked before any write: validates `token` at `now` and gives the
    /// user name of its session.
    ///
    /// A malformed token is a bad request. An unknown one is unauthorised.
    /// An expired one is unauthorised too, and its entry is taken out. In
    /// every other case the store is left as it was.
    pub fn validate_and_use(&mut self, token: &str, now: u64) -> (result: Result<String, Failure>)
        ensures
            final(self).keyspace_name() == old(self).keyspace_name(),
            match spec_validate(old(self)@, token@, now) {
                Verdict::Granted(name) => {
                    ||| result matches Ok(user) && user@ == name
                    ||| store_failed(result)
                },
                Verdict::Malformed => result matches Err(e) && rejects_token(e@),
                Verdict::Unknown => {
                    ||| result matches Err(e) && e@ == FailureView::Status(Status::Unauthorized)
                    ||| store_failed(result)
                },
                Verdict::Expired => {
                    ||| result matches Err(e) && e@ == FailureView::StatusWithMessage(
                        Status::Unauthorized,
                        CauseView::plain("session expired"@),
                    ) && final(self)@ == old(self)@.remove(spec_session_of(token@)->0)
                    ||| store_failed(result)
                },
                Verdict::Corrupt => store_failed(result),
            },
            !(spec_validate(old(self)@, token@, now) is Expired) ==> final(self)@ == old(self)@,
            spec_validate(old(self)@, token@, now) is Expired ==> left_or_applied(
                final(self)@,
                old(self)@,
                old(self)@.remove(spec_session_of(token@)->0),
            ),
    {
        let key = match decode_token(token) {
            Ok(bytes) => bytes,
            Err(e) => {
                return Err(e);
            },
        };
        let stored = match tree_get(&self.sessions, key.as_slice()) {
            Ok(value) => value,
            Err(e) => {
                return Err(store_failure(&e));
            },
        };
        let judgement = judge(key.as_slice(), stored, now);
        let removal = if judgement.is_expired() {
            match tree_remove(&mut self.sessions, key.as_slice()) {
                Ok(_) => None,
                Err(e) => Some(store_failure(&e)),
            }
        } else {
            None
        };
        answer(judgement, removal)
    }

    /// Ends the session of `token`, whether or not there is one, and
    /// flushes the keyspace.
    ///
    /// Success means that the session is gone and that its absence would
    /// survive a crash. The flush is made only after a removal that went
    /// through.
    pub fn revoke(&mut self, token: &str) -> (result: Result<(), Failure>)
        ensures
            final(self).keyspace_name() == old(self).keyspace_name(),
            match spec_session_of(token@) {
                None => {
                    &&& result matches Err(e)
                    &&& rejects_token(e@)
                    &&& final(self)@ == old(self)@
                },
                Some(key) => {
                    &&& result is Ok ==> final(self)@ == old(self)@.remove(key)
                        && final(self).durable() == final(self)@
                    &&& result is Err ==> store_failed(result) && left_or_applied(
                        final(self)@,
                        old(self)@,
                        old(self)@.remove(key),
                    )
                },
            },
    {
        let key = match decode_token(token) {
            Ok(bytes) => bytes,
            Err(e) => {
                return Err(e);
            },
        };
        match tree_remove(&mut self.sessions, key.as_slice()) {
            Ok(_) => {},
            Err(e) => {
                return Err(store_failure(&e));
            },
        }
        match tree_flush(&mut self.sessions) {
            Ok(_) => Ok(()),
            Err(e) => Err(store_failure(&e)),
        }
    }

    /// One sweep cycle at `now`: scans the sessions and removes every one
    /// that has ended.
    ///
    /// A removal that fails is reported with its key and does not stop the
    /// cycle. A step of the scan that fails ends the scan: the cycle then
    /// removes what the scan had found, and says that it was cut short.
    pub fn sweep(&mut self, now: u64) -> (report: Purge)
        ensures
            final(self).keyspace_name() == old(self).keyspace_name(),
            exists|due: Set<Seq<u8>>| #[trigger]
                purged(
                    old(self)@,
                    final(self)@,
                    due,
                    report.failures@,
                    report.deleted as nat,
                    report.cut_short is None,
                    now,
                ),
            report.cut_short is None ==> lapsed_keys(old(self)@, now).finite() && report.deleted
                == lapsed_keys(old(self)@, now).len(),
            report.cut_short is None && report.failures@.len() == 0 ==> final(self)@ == old(
                self,
            )@.remove_keys(lapsed_keys(old(self)@, now)),
            all_unexpected(report.failures@),
            report.cut_short matches Some(e) ==> e@.is_unexpected(),
    {
        let scanned = scan(&self.sessions);
        let ghost listing = pairs(scanned.found@);
        proof {
            lemma_scan_finds_lapsed(listing, self@, now);
            lemma_lapsed_count(listing, listing.len() as int, now);
        }
        let evicted = self.evict(&scanned.found, now);
        let report = Purge {
            deleted: evicted.deleted,
            failures: evicted.failures,
            cut_short: scanned.cut_short,
        };
        assert(purged(
            old(self)@,
            self@,
            lapsed_among(listing, listing.len() as int, now),
            report.failures@,
            report.deleted as nat,
            report.cut_short is None,
            now,
        ));
        report
    }

    /// Removes the sessions that a scan shows to have ended at `now`, in
    /// the order of the scan.
    pub fn evict(&mut self, items: &Vec<Entry>, now: u64) -> (report: Purge)
        ensures
            final(self).keyspace_name() == old(self).keyspace_name(),
            report.deleted == lapsed_count(pairs(items@), items@.len() as int, now),
            report.cut_short is None,
            partly_removed(
                old(self)@,
                final(self)@,
                lapsed_among(pairs(items@), items@.len() as int, now),
                failed_keys(report.failures@),
            ),
            report.failures@.len() == 0 ==> final(self)@ == old(self)@.remove_keys(
                lapsed_among(pairs(items@), items@.len() as int, now),
            ),
            all_unexpected(report.failures@),
    {
        let ghost before = self@;
        let ghost named = self.keyspace_name();
        let ghost listing = pairs(items@);
        let mut deleted: usize = 0;
        let mut failures: Vec<(Vec<u8>, Failure)> = Vec::new();
        let mut i: usize = 0;
        proof {
            assert(lapsed_among(listing, 0, now) =~= Set::<Seq<u8>>::empty());
            assert(failed_keys(failures@) =~= Set::<Seq<u8>>::empty());
            lemma_partly_removed_start(before);
        }
        while i < items.len()
            invariant
                0 <= i <= items@.len(),
                listing == pairs(items@),
                self.keyspace_name() == named,
                deleted <= i,
                deleted == lapsed_count(listing, i as int, now),
                all_unexpected(failures@),
                partly_removed(
                    before,
                    self@,
                    lapsed_among(listing, i as int, now),
                    failed_keys(failures@),
                ),
            decreases items@.len() - i,
        {
            proof {
                lemma_lapsed_among_step(listing, i as int, now);
            }
            let ghost seen = lapsed_among(listing, i as int, now);
            let ghost failed = failed_keys(failures@);
            let ghost mid = self@;
            let ghost reported = failures@;
            let pair = &items[i];
            assert(listing[i as int] == (pair.0@, pair.1@));
            if lapsed(pair.1.as_slice(), now) {
                match tree_remove(&mut self.sessions, pair.0.as_slice()) {
                    Ok(_) => {
                        proof {
                            lemma_partly_removed_step(before, mid, self@, seen, failed, pair.0@, true);
                        }
                    },
                    Err(e) => {
                        failures.push((pair.0.clone(), store_failure(&e)));
                        proof {
                            assert(failures@.drop_last() =~= reported);
                            lemma_failed_keys_push(reported, failures@);
                            lemma_partly_removed_step(
                                before,
                                mid,
                                self@,
                                seen,
                                failed,
                                pair.0@,
                                false,
                            );
                        }
                    },
                }
                deleted = deleted + 1;
            }
            i = i + 1;
        }
        proof {
            if failures@.len() == 0 {
                lemma_partly_removed_clean(
                    before,
                    self@,
                    lapsed_among(listing, items@.len() as int, now),
                    failed_keys(failures@),
                );
            }
        }
        Purge { deleted, failures, cut_short: None }
    }
}

/// One more failure adds its key to the keys whose removal failed.
proof fn lemma_failed_keys_push(before: Seq<(Vec<u8>, Failure)>, after: Seq<(Vec<u8>, Failure)>)
    requires
        after.len() == before.len() + 1,
        after.drop_last() == before,
        after.last().1@.is_unexpected(),
        all_unexpected(before),
    ensures
        failed_keys(after) == failed_keys(before).insert(after.last().0@),
        all_unexpected(after),
{
    let own = after.last().0@;
    assert forall|key: Seq<u8>| failed_keys(after).contains(key) <==> failed_keys(before).insert(
        own,
    ).contains(key) by {
        if failed_keys(before).contains(key) {
            let j = choose|j: int| 0 <= j < before.len() && (#[trigger] before[j]).0@ == key;
            assert(after[j] == before[j]);
        }
        if key == own {
            assert(after[after.len() - 1].0@ == key);
        }
        if failed_keys(after).contains(key) {
            let j = choose|j: int| 0 <= j < after.len() && (#[trigger] after[j]).0@ == key;
            if j < before.len() {
                assert(after[j] == before[j]);
            }
        }
    }
    assert(failed_keys(after) =~= failed_keys(before).insert(own));
    assert forall|j: int| 0 <= j < after.len() implies (#[trigger] after[j]).1@.is_unexpected() by {
        if j < before.len() {
            assert(after[j] == before[j]);
        }
    }
}

/// What opening a session comes to: the entry is stored under the key that
/// the random bytes and the user name make, the token is the text of that
/// key, and the token validates to the user name up to the end of the
/// session and is expired after it.
pub open spec fn opened(
    before: Map<Seq<u8>, Seq<u8>>,
    after: Map<Seq<u8>, Seq<u8>>,
    nonce: Seq<u8>,
    username: Seq<char>,
    now: u64,
    token: Seq<char>,
) -> bool {
    let key = session_key(nonce, username);
    &&& token == base64_standard(key)
    &&& spec_session_of(token) == Some(key)
    &&& after == before.insert(key, be_bytes(session_until(now)))
    &&& forall|at: u64|
        at <= session_until(now) ==> #[trigger] spec_validate(after, token, at) == Verdict::Granted(
            username,
        )
    &&& forall|at: u64|
        at > session_until(now) ==> #[trigger] spec_validate(after, token, at) == Verdict::Expired
}

/// A session that was taken out is unknown from then on: its token is
/// turned away at any time.
pub proof fn law_removed_session_is_unknown(
    sessions: Map<Seq<u8>, Seq<u8>>,
    token: Seq<char>,
    key: Seq<u8>,
    now: u64,
)
    requires
        spec_session_of(token) == Some(key),
    ensures
        !sessions.remove(key).contains_key(key),
        spec_validate(sessions.remove(key), token, now) == Verdict::Unknown,
{
}

/// Taking a session out twice is taking it out once.
pub proof fn law_revoke_is_idempotent(sessions: Map<Seq<u8>, Seq<u8>>, key: Seq<u8>)
    ensures
        sessions.remove(key).remove(key) == sessions.remove(key),
{
    assert(sessions.remove(key).remove(key) =~= sessions.remove(key));
}

} // verus!
