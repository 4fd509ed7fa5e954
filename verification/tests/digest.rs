use burn_after_reading::digest::{content_key, key_of_digest, HashWriter, DIGEST_LEN, KEY_LEN};
use sha2::Digest;

fn reference_key(content: &[u8]) -> String {
    base64::encode_config(sha2::Sha256::digest(content), base64::URL_SAFE_NO_PAD)
}

#[test]
fn key_of_hello() {
    let key = content_key(b"hello");
    assert_eq!(key, "LPJNul-wow4m6DsqxbninhsWHlwfp0JecwQzYpOLmCQ");
    assert_eq!(key.len(), 43);
    assert_eq!(key.chars().count(), KEY_LEN);
}

#[test]
fn keys_of_other_contents() {
    assert_eq!(content_key(b"hello world"), "uU0nuZNNPgilLlLX2n2r-sSE7-N6U4DukIj3rOLvzek");
    assert_eq!(content_key(b"a"), "ypeBEsobvcr6wjGzmiPcTaeG7_gUfE5yuYB3ha_uSLs");
}

#[test]
fn key_is_url_safe_and_unpadded() {
    for content in [&b"hello"[..], b"a", b"hello world", &[0u8; 1000], &[0xffu8; 3]] {
        let key = content_key(content);
        assert_eq!(key.len(), 43);
        assert!(key.chars().all(|c| c.is_ascii_alphanumeric() || c == '-' || c == '_'));
    }
}

#[test]
fn key_is_a_function_of_the_content() {
    assert_eq!(content_key(b"same bytes"), content_key(b"same bytes"));
    assert_ne!(content_key(b"same bytes"), content_key(b"other bytes"));
    assert_ne!(content_key(b"hello"), "hello");
}

#[test]
fn key_agrees_with_the_crates() {
    for content in [&b"x"[..], b"hello", &[7u8; 70_000]] {
        assert_eq!(content_key(content), reference_key(content));
    }
}

#[test]
fn digest_has_thirty_two_bytes() {
    let writer = HashWriter::new();
    let digest = writer.finish();
    assert_eq!(digest.len(), DIGEST_LEN);
    assert_eq!(digest, sha2::Sha256::digest(b"").to_vec());
}

#[test]
fn writer_hashes_what_the_sink_took() {
    let mut writer = HashWriter::new();
    writer.record(b"hello, world", 5);
    let digest = writer.finish();
    assert_eq!(digest, sha2::Sha256::digest(b"hello").to_vec());
    assert_eq!(key_of_digest(&digest), "LPJNul-wow4m6DsqxbninhsWHlwfp0JecwQzYpOLmCQ");
}

#[test]
fn writer_in_pieces_equals_writer_at_once() {
    let mut pieces = HashWriter::new();
    pieces.record(b"hel", 3);
    pieces.record(b"", 0);
    pieces.record(b"lo wor", 2);
    let mut whole = HashWriter::new();
    whole.record(b"hello", 5);
    assert_eq!(pieces.finish(), whole.finish());
}

#[test]
fn writer_that_took_nothing_of_a_buffer_is_unchanged() {
    let mut writer = HashWriter::new();
    writer.record(b"ignored", 0);
    assert_eq!(writer.finish(), sha2::Sha256::digest(b"").to_vec());
}

#[test]
fn key_of_a_digest_is_its_unpadded_text() {
    let digest = [0u8; 32];
    assert_eq!(key_of_digest(&digest), "AAAAAAAAAAAAAAAAAAAAAAAAAAAAAAAAAAAAAAAAAAA");
    let digest = [0xffu8; 32];
    assert_eq!(key_of_digest(&digest), "__________________________________________8");
}
