use burn_after_reading::timestamp::{
    decode, default_expiration, encode, expiration_or_default, has_lapsed, is_live,
    session_expiration, DAY, HOUR, SESSION_TTL, TIMESTAMP_LEN,
};

#[test]
fn constants_are_seconds() {
    assert_eq!(HOUR, 60 * 60);
    assert_eq!(DAY, 60 * 60 * 24);
    assert_eq!(SESSION_TTL, 60 * 60 * 24 * 7);
    assert_eq!(TIMESTAMP_LEN, 8);
}

#[test]
fn encode_is_big_endian() {
    assert_eq!(encode(0), vec![0, 0, 0, 0, 0, 0, 0, 0]);
    assert_eq!(encode(1), vec![0, 0, 0, 0, 0, 0, 0, 1]);
    assert_eq!(encode(256), vec![0, 0, 0, 0, 0, 0, 1, 0]);
    assert_eq!(encode(0x0102030405060708), vec![1, 2, 3, 4, 5, 6, 7, 8]);
    assert_eq!(encode(1_700_000_000), vec![0, 0, 0, 0, 101, 83, 241, 0]);
    assert_eq!(encode(u64::MAX), vec![255; 8]);
}

#[test]
fn encode_agrees_with_std() {
    let samples: [u64; 9] = [
        0,
        1,
        255,
        256,
        65_535,
        1_700_000_000,
        0x00ff_00ff_00ff_00ff,
        0x8000_0000_0000_0000,
        u64::MAX,
    ];
    for t in samples {
        assert_eq!(encode(t), t.to_be_bytes().to_vec());
        assert_eq!(decode(&t.to_be_bytes()), Some(t));
    }
}

#[test]
fn decode_reads_back_what_encode_wrote() {
    for t in [0u64, 7, 86_400, 1 << 40, u64::MAX - 1, u64::MAX] {
        assert_eq!(decode(&encode(t)), Some(t));
    }
    assert_eq!(decode(&[1, 2, 3, 4, 5, 6, 7, 8]), Some(0x0102030405060708));
}

#[test]
fn decode_refuses_other_lengths() {
    assert_eq!(decode(&[]), None);
    assert_eq!(decode(&[1]), None);
    assert_eq!(decode(&[0; 7]), None);
    assert_eq!(decode(&[0; 9]), None);
    assert_eq!(decode(&[0; 16]), None);
}

#[test]
fn an_object_is_live_strictly_before_its_expiration() {
    assert!(is_live(100, 99));
    assert!(!is_live(100, 100));
    assert!(!is_live(100, 101));
    assert!(!is_live(0, 0));
}

#[test]
fn a_timestamp_lapses_strictly_after_it() {
    assert!(!has_lapsed(100, 99));
    assert!(!has_lapsed(100, 100));
    assert!(has_lapsed(100, 101));
    assert!(!has_lapsed(u64::MAX, u64::MAX));
}

#[test]
fn default_expiration_is_one_day_later() {
    assert_eq!(default_expiration(0), 86_400);
    assert_eq!(default_expiration(1_700_000_000), 1_700_086_400);
    assert_eq!(default_expiration(u64::MAX - DAY), u64::MAX);
}

#[test]
fn session_expiration_is_seven_days_later() {
    assert_eq!(session_expiration(0), 604_800);
    assert_eq!(session_expiration(1_700_000_000), 1_700_604_800);
}

#[test]
fn requested_expiration_wins_over_the_default() {
    assert_eq!(expiration_or_default(Some(5), 1_000), 5);
    assert_eq!(expiration_or_default(Some(u64::MAX), u64::MAX), u64::MAX);
    assert_eq!(expiration_or_default(None, 1_000), 87_400);
}
