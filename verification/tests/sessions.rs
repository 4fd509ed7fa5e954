use burn_after_reading::failure::{Class, Failure, Status};
use burn_after_reading::keyspace::Entry;
use burn_after_reading::sessions::{
    answer, decode_token, judge, Judgement, SessionStore, NONCE_LEN, SESSIONS_TREE,
};
use burn_after_reading::sweep::lapsed;
use burn_after_reading::timestamp::{encode, SESSION_TTL};

struct Fixture {
    store: SessionStore,
    sessions: sled::Tree,
    _db: sled::Db,
}

fn fixture() -> Fixture {
    let db = sled::Config::new().temporary(true).open().unwrap();
    let store = SessionStore::open(&db).unwrap();
    let sessions = db.open_tree("sessions").unwrap();
    Fixture { store, sessions, _db: db }
}

fn nonce() -> Vec<u8> {
    (0u8..16).collect()
}

fn key_of(name: &str) -> Vec<u8> {
    let mut key = nonce();
    key.extend_from_slice(name.as_bytes());
    key
}

fn is_unauthorized(result: &Result<String, Failure>) -> bool {
    matches!(result, Err(Failure::Status(Status::Unauthorized)))
}

#[test]
fn nonce_has_sixteen_bytes() {
    assert_eq!(NONCE_LEN, 16);
    assert_eq!(SESSIONS_TREE, "sessions");
}

#[test]
fn token_is_the_text_of_nonce_and_name() {
    let mut f = fixture();
    let token = f.store.create_with_nonce(&nonce(), "admin", 1_000).unwrap();
    assert_eq!(token, "AAECAwQFBgcICQoLDA0OD2FkbWlu");
    let stored = f.sessions.get(key_of("admin")).unwrap().unwrap();
    assert_eq!(stored.to_vec(), encode(1_000 + 604_800));
    assert_eq!(f.sessions.len(), 1);
}

#[test]
fn token_of_admin_validates_to_admin_until_it_expires() {
    let mut f = fixture();
    let now = 1_700_000_000;
    let token = f.store.create_with_nonce(&nonce(), "admin", now).unwrap();
    assert_eq!(f.store.validate_and_use(&token, now).unwrap(), "admin");
    assert_eq!(f.store.validate_and_use(&token, now + 1).unwrap(), "admin");
    assert_eq!(f.store.validate_and_use(&token, now + SESSION_TTL).unwrap(), "admin");
    assert_eq!(f.sessions.len(), 1);
    let e = f.store.validate_and_use(&token, now + SESSION_TTL + 1).unwrap_err();
    match &e {
        Failure::StatusWithMessage(status, cause) => {
            assert_eq!(*status, Status::Unauthorized);
            assert_eq!(cause.headline(), "session expired");
        }
        other => panic!("{:?}", other),
    }
    assert_eq!(f.sessions.len(), 0);
    assert!(f.sessions.get(key_of("admin")).unwrap().is_none());
    assert!(is_unauthorized(&f.store.validate_and_use(&token, now)));
}

#[test]
fn create_draws_its_own_nonce() {
    let mut f = fixture();
    let first = f.store.create("admin", 1_000).unwrap();
    let second = f.store.create("admin", 1_000).unwrap();
    assert_ne!(first, second);
    for token in [&first, &second] {
        let key = base64::decode(token).unwrap();
        assert_eq!(key.len(), 16 + 5);
        assert_eq!(&key[16..], b"admin");
        assert_eq!(f.sessions.get(&key).unwrap().unwrap().to_vec(), encode(1_000 + SESSION_TTL));
        assert_eq!(f.store.validate_and_use(token, 2_000).unwrap(), "admin");
    }
    assert_eq!(f.sessions.len(), 2);
}

#[test]
fn names_beyond_ascii_come_back() {
    let mut f = fixture();
    let token = f.store.create_with_nonce(&nonce(), "héllo", 0).unwrap();
    assert_eq!(token, "AAECAwQFBgcICQoLDA0OD2jDqWxsbw==");
    assert_eq!(f.store.validate_and_use(&token, 10).unwrap(), "héllo");
    let token = f.store.create_with_nonce(&nonce(), "", 0).unwrap();
    assert_eq!(token, "AAECAwQFBgcICQoLDA0ODw==");
    assert_eq!(f.store.validate_and_use(&token, 10).unwrap(), "");
}

#[test]
fn a_malformed_token_is_a_bad_request() {
    let mut f = fixture();
    f.store.create_with_nonce(&nonce(), "admin", 0).unwrap();
    for token in ["not base64!", "AAECAwQFBgcICQoLDA0OD2FkbWlu=", "a", "===="] {
        let e = f.store.validate_and_use(token, 0).unwrap_err();
        match &e {
            Failure::StatusWithMessage(status, cause) => {
                assert_eq!(*status, Status::BadRequest);
                assert_eq!(cause.headline(), "parsing session cookie");
            }
            other => panic!("{:?}", other),
        }
        assert_eq!(e.reply().class, Class::Rejected(Status::BadRequest));
        assert_eq!(e.describe(), "bad request: parsing session cookie");
    }
    assert_eq!(f.sessions.len(), 1);
}

#[test]
fn an_unknown_token_is_unauthorized() {
    let mut f = fixture();
    f.store.create_with_nonce(&nonce(), "admin", 0).unwrap();
    let forged = base64::encode(key_of("root"));
    let result = f.store.validate_and_use(&forged, 0);
    assert!(is_unauthorized(&result));
    assert_eq!(result.unwrap_err().reply().body, None);
    assert!(is_unauthorized(&f.store.validate_and_use("", 0)));
    assert_eq!(f.sessions.len(), 1);
}

#[test]
fn a_corrupt_entry_is_an_unexpected_failure() {
    let mut f = fixture();
    f.sessions.insert(key_of("admin"), &[1u8, 2, 3][..]).unwrap();
    let token = base64::encode(key_of("admin"));
    assert!(matches!(f.store.validate_and_use(&token, 0), Err(Failure::Unexpected(_))));
    f.sessions.insert(b"short", &encode(100)[..]).unwrap();
    assert!(matches!(f.store.validate_and_use("c2hvcnQ=", 0), Err(Failure::Unexpected(_))));
    let mut key = nonce();
    key.extend_from_slice(&[0xff, 0xfe]);
    f.sessions.insert(&key, &encode(100)[..]).unwrap();
    let bad_name = f.store.validate_and_use("AAECAwQFBgcICQoLDA0OD//+", 0);
    assert!(matches!(bad_name, Err(Failure::Unexpected(_))));
    assert_eq!(f.sessions.len(), 3);
}

#[test]
fn revoke_ends_the_session_and_is_idempotent() {
    let mut f = fixture();
    let token = f.store.create_with_nonce(&nonce(), "admin", 0).unwrap();
    let other = f.store.create_with_nonce(&[7u8; 16], "admin", 0).unwrap();
    assert!(f.store.revoke(&token).is_ok());
    assert!(is_unauthorized(&f.store.validate_and_use(&token, 0)));
    assert!(f.store.revoke(&token).is_ok());
    assert!(f.store.revoke("c2hvcnQ=").is_ok());
    assert_eq!(f.store.validate_and_use(&other, 0).unwrap(), "admin");
    assert_eq!(f.sessions.len(), 1);
}

#[test]
fn revoke_rejects_a_malformed_token() {
    let mut f = fixture();
    f.store.create_with_nonce(&nonce(), "admin", 0).unwrap();
    let e = f.store.revoke("not base64!").unwrap_err();
    assert!(matches!(e, Failure::StatusWithMessage(Status::BadRequest, _)));
    assert_eq!(f.sessions.len(), 1);
}

#[test]
fn decode_token_reads_the_key() {
    assert_eq!(decode_token("AAECAwQFBgcICQoLDA0OD2FkbWlu").unwrap(), key_of("admin"));
    assert_eq!(decode_token("c2hvcnQ=").unwrap(), b"short");
    assert_eq!(decode_token("").unwrap(), Vec::<u8>::new());
    assert!(decode_token("c2hvcn=").is_err());
    assert!(decode_token("c2 hvcnQ=").is_err());
}

#[test]
fn judge_decides_from_the_stored_entry() {
    let key = key_of("admin");
    assert!(matches!(judge(&key, None, 0), Judgement::Unknown));
    match judge(&key, Some(encode(100)), 100) {
        Judgement::Granted(name) => assert_eq!(name, "admin"),
        other => panic!("{:?}", other),
    }
    assert!(matches!(judge(&key, Some(encode(100)), 101), Judgement::Expired));
    assert!(matches!(judge(&key, Some(vec![0; 7]), 0), Judgement::Corrupt(_)));
    assert!(matches!(judge(b"short", Some(encode(100)), 0), Judgement::Corrupt(_)));
    assert!(matches!(judge(b"short", Some(encode(100)), 101), Judgement::Expired));
    let mut bad = nonce();
    bad.push(0xc3);
    assert!(matches!(judge(&bad, Some(encode(100)), 0), Judgement::Corrupt(_)));
    match judge(&nonce(), Some(encode(100)), 0) {
        Judgement::Granted(name) => assert_eq!(name, ""),
        other => panic!("{:?}", other),
    }
}

#[test]
fn open_makes_the_keyspace_of_the_sessions() {
    let db = sled::Config::new().temporary(true).open().unwrap();
    assert!(!db.tree_names().contains(&sled::IVec::from("sessions")));
    let mut store = SessionStore::open(&db).unwrap();
    assert!(db.tree_names().contains(&sled::IVec::from("sessions")));
    store.create_with_nonce(&nonce(), "admin", 0).unwrap();
    assert_eq!(db.open_tree("sessions").unwrap().len(), 1);
}

#[test]
fn only_an_ended_session_is_expired() {
    assert!(Judgement::Expired.is_expired());
    assert!(!Judgement::Unknown.is_expired());
    assert!(!Judgement::Granted("admin".to_string()).is_expired());
    assert!(!Judgement::Corrupt("why".to_string()).is_expired());
}

#[test]
fn answer_to_each_judgement() {
    assert_eq!(answer(Judgement::Granted("admin".to_string()), None).unwrap(), "admin");
    let lost = Some(Failure::unexpected("ignored".to_string()));
    assert_eq!(answer(Judgement::Granted("admin".to_string()), lost).unwrap(), "admin");
    assert!(is_unauthorized(&answer(Judgement::Unknown, None)));
    let expired = answer(Judgement::Expired, None).unwrap_err();
    assert!(matches!(expired, Failure::StatusWithMessage(Status::Unauthorized, _)));
    assert_eq!(expired.describe(), "unauthorized: session expired");
    let failed = Some(Failure::unexpected("disk gone".to_string()));
    let unremoved = answer(Judgement::Expired, failed).unwrap_err();
    assert!(matches!(unremoved, Failure::Unexpected(_)));
    assert_eq!(unremoved.describe(), "disk gone");
    let corrupt = answer(Judgement::Corrupt("session key is too short".to_string()), None);
    let corrupt = corrupt.unwrap_err();
    assert!(matches!(corrupt, Failure::Unexpected(_)));
    assert_eq!(corrupt.describe(), "session key is too short");
}

#[test]
fn sweep_removes_ended_sessions() {
    let mut f = fixture();
    let old = f.store.create_with_nonce(&[1u8; 16], "admin", 0).unwrap();
    let edge = f.store.create_with_nonce(&[2u8; 16], "admin", 1_000).unwrap();
    let young = f.store.create_with_nonce(&[3u8; 16], "admin", 2_000).unwrap();
    let report = f.store.sweep(1_000 + SESSION_TTL);
    assert_eq!(report.deleted, 1);
    assert!(report.failures.is_empty());
    assert!(report.cut_short.is_none());
    assert_eq!(f.sessions.len(), 2);
    assert!(is_unauthorized(&f.store.validate_and_use(&old, 0)));
    assert_eq!(f.store.validate_and_use(&edge, 1_000 + SESSION_TTL).unwrap(), "admin");
    assert_eq!(f.store.validate_and_use(&young, 0).unwrap(), "admin");
    let report = f.store.sweep(u64::MAX);
    assert_eq!(report.deleted, 2);
    assert_eq!(f.sessions.len(), 0);
}

#[test]
fn evict_counts_and_skips() {
    let mut f = fixture();
    f.store.create_with_nonce(&[1u8; 16], "a", 0).unwrap();
    f.store.create_with_nonce(&[2u8; 16], "b", 0).unwrap();
    let mut first = vec![1u8; 16];
    first.push(b'a');
    let mut second = vec![2u8; 16];
    second.push(b'b');
    let items: Vec<Entry> = vec![
        (first.clone(), encode(5)),
        (second.clone(), encode(50)),
        (b"absent".to_vec(), encode(1)),
        (b"odd".to_vec(), vec![0; 9]),
    ];
    let report = f.store.evict(&items, 10);
    assert_eq!(report.deleted, 2);
    assert!(report.failures.is_empty());
    assert!(report.cut_short.is_none());
    assert!(f.sessions.get(&first).unwrap().is_none());
    assert!(f.sessions.get(&second).unwrap().is_some());
}

#[test]
fn a_value_lapses_only_as_a_timestamp_in_the_past() {
    assert!(lapsed(&encode(10), 11));
    assert!(!lapsed(&encode(10), 10));
    assert!(!lapsed(&encode(10), 9));
    assert!(!lapsed(&[0; 7], u64::MAX));
    assert!(!lapsed(&[], u64::MAX));
}
