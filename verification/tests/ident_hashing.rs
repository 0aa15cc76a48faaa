use boxpeer::CoreError;
use boxpeer::hashing::{chunk_digest, decode_chunk_payload};
use boxpeer::ident::{chunk_id, is_valid_content_hash, u64_to_dec_string};

#[test]
fn decimal_formatting() {
    assert_eq!(u64_to_dec_string(0), "0");
    assert_eq!(u64_to_dec_string(7), "7");
    assert_eq!(u64_to_dec_string(10), "10");
    assert_eq!(u64_to_dec_string(1234567890), "1234567890");
    assert_eq!(u64_to_dec_string(u64::MAX), "18446744073709551615");
}

#[test]
fn chunk_identifier_format() {
    let hash = "d".repeat(64);
    assert_eq!(chunk_id(&hash, 0), format!("{}_chunk_0", hash));
    assert_eq!(chunk_id(&hash, 17), format!("{}_chunk_17", hash));
}

#[test]
fn content_hash_validation() {
    assert!(is_valid_content_hash(&"0123456789abcdef".repeat(4)));
    assert!(!is_valid_content_hash(&"a".repeat(63)));
    assert!(!is_valid_content_hash(&"a".repeat(65)));
    assert!(!is_valid_content_hash(&"A".repeat(64)));
    assert!(!is_valid_content_hash(&"g".repeat(64)));
    assert!(!is_valid_content_hash(&format!("{}/..", "a".repeat(60))));
    assert!(!is_valid_content_hash(""));
}

#[test]
fn chunk_digest_is_sha256_hex() {
    // SHA-256 of "abc", the classic reference value.
    let digest = chunk_digest(&b"abc".to_vec());
    assert_eq!(
        digest,
        "ba7816bf8f01cfea414140de5dae2223b00361a396177a9cb410ff61f20015ad"
    );
    assert!(is_valid_content_hash(&digest));
}

#[test]
fn chunk_digest_of_empty_input() {
    let digest = chunk_digest(&Vec::new());
    assert_eq!(
        digest,
        "e3b0c44298fc1c149afbf4c8996fb92427ae41e4649b934ca495991b7852b855"
    );
}

#[test]
fn decode_chunk_payload_round() {
    let bytes = decode_chunk_payload("aGVsbG8=").unwrap();
    assert_eq!(bytes, b"hello".to_vec());
    let empty = decode_chunk_payload("").unwrap();
    assert_eq!(empty.len(), 0);
}

#[test]
fn decode_chunk_payload_rejects_malformed_input() {
    let outcome = decode_chunk_payload("!!!not base64!!!");
    assert!(matches!(outcome, Err(CoreError::Storage { .. })));
}

#[test]
fn error_kind_labels() {
    assert_eq!(
        CoreError::Transport { cause: "x".to_string() }.kind_label(),
        "transport error"
    );
    assert_eq!(CoreError::NotFound.kind_label(), "not found");
    assert_eq!(
        CoreError::Storage { cause: "x".to_string() }.kind_label(),
        "storage error"
    );
    assert_eq!(CoreError::ProtocolViolation.kind_label(), "protocol violation");
    assert_eq!(CoreError::NoPeers.kind_label(), "no available peers");
}
