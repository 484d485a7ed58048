use mls_core::crypto::CipherSuite;
use mls_core::transcript::{ConfirmationTag, ConfirmedTranscriptHash};

#[test]
fn test_confirmation_tag_matching() {
    let cipher_suite_provider = CipherSuite::Curve25519Aes128;

    let confirmed_hash_a = ConfirmedTranscriptHash::from(b"foo_a".to_vec());

    let confirmation_key_a = b"bar_a".to_vec();

    let confirmed_hash_b = ConfirmedTranscriptHash::from(b"foo_b".to_vec());

    let confirmation_key_b = b"bar_b".to_vec();

    let confirmation_tag = ConfirmationTag::create(
        &confirmation_key_a,
        &confirmed_hash_a,
        cipher_suite_provider,
    )
    .unwrap();

    assert!(confirmation_tag
        .matches(
            &confirmation_key_a,
            &confirmed_hash_a,
            cipher_suite_provider
        )
        .unwrap());

    assert!(!confirmation_tag
        .matches(
            &confirmation_key_b,
            &confirmed_hash_a,
            cipher_suite_provider
        )
        .unwrap());

    assert!(!confirmation_tag
        .matches(
            &confirmation_key_a,
            &confirmed_hash_b,
            cipher_suite_provider
        )
        .unwrap());
}

// Flipping any single byte of the carried confirmation tag, or of the
// confirmed transcript hash it covers, makes verification fail.
#[test]
fn tag_flip_any_byte_fails() {
    let cs = CipherSuite::Curve25519Aes128;
    let key = b"some confirmation key".to_vec();
    let confirmed = ConfirmedTranscriptHash::from(b"a transcript hash".to_vec());
    let tag = ConfirmationTag::create(&key, &confirmed, cs).unwrap();

    for i in 0..tag.bytes.len() {
        let mut tampered = tag.clone();
        tampered.bytes[i] ^= 0x01;
        assert!(!tampered.matches(&key, &confirmed, cs).unwrap());
    }

    for i in 0..confirmed.bytes.len() {
        let mut flipped = confirmed.clone();
        flipped.bytes[i] ^= 0x80;
        assert!(!tag.matches(&key, &flipped, cs).unwrap());
    }
}

#[test]
fn empty_tag_is_deterministic() {
    let cs = CipherSuite::Curve25519Aes128;
    let a = ConfirmationTag::empty(cs);
    let b = ConfirmationTag::empty(cs);
    assert_eq!(a, b);
    assert_eq!(a.bytes.len(), 32);
    assert_eq!(a.to_hex_string().len(), 64);
}
