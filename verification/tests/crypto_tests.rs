use hkdf::Hkdf;
use mls_core::crypto::{
    self, aes128_gcm_open, aes128_gcm_seal, ed25519_public, ed25519_sign, ed25519_verify,
    CipherSuite,
};
use mls_core::hash_reference::HashReference;
use sha2::Sha256;

// The empty input's SHA-256 digest, as every implementation must produce it.
#[test]
fn sha256_empty_vector() {
    let d = crypto::sha256(&[]);
    let expected = [
        0xe3u8, 0xb0, 0xc4, 0x42, 0x98, 0xfc, 0x1c, 0x14, 0x9a, 0xfb, 0xf4, 0xc8, 0x99, 0x6f,
        0xb9, 0x24, 0x27, 0xae, 0x41, 0xe4, 0x64, 0x9b, 0x93, 0x4c, 0xa4, 0x95, 0x99, 0x1b, 0x78,
        0x52, 0xb8, 0x55,
    ];
    assert_eq!(d.as_slice(), expected.as_slice());
}

#[test]
fn hash_differs_from_input() {
    let input = vec![1u8; 32];
    assert_ne!(crypto::sha256(&input), input);
    assert_ne!(crypto::hmac_sha256(&[2u8; 32], &input), input);
}

// The reference derivation is the standard extract-then-expand over the
// value, with the empty salt and the reference label.
#[test]
fn test_hash_reference_construction() {
    let cs = CipherSuite::Curve25519Aes128;
    let input = b"some encoded object".to_vec();
    let r = HashReference::from_value(&input, cs);
    assert_eq!(r.bytes.len(), 16);

    let (prk, _) = Hkdf::<Sha256>::extract(Some(&[]), &input);
    let h = Hkdf::<Sha256>::from_prk(&prk).unwrap();
    let mut expected = [0u8; 16];
    h.expand(b"MLS 1.0 ref", &mut expected).unwrap();
    assert_eq!(r.bytes.as_slice(), expected.as_slice());

    // Deterministic, and sensitive to the input.
    assert_eq!(HashReference::from_value(&input, cs), r);
    assert_ne!(HashReference::from_value(&b"other".to_vec(), cs), r);
}

#[test]
fn aead_round_trip_and_tamper() {
    let key = vec![7u8; 16];
    let nonce = vec![0u8; 12];
    let pt = b"a path secret".to_vec();
    let ct = aes128_gcm_seal(&key, &nonce, &pt);
    assert_eq!(ct.len(), pt.len() + 16);
    assert_eq!(aes128_gcm_open(&key, &nonce, &ct).unwrap(), pt);

    let mut bad = ct.clone();
    bad[0] ^= 1;
    assert!(aes128_gcm_open(&key, &nonce, &bad).is_none());

    let wrong_key = vec![8u8; 16];
    assert!(aes128_gcm_open(&wrong_key, &nonce, &ct).is_none());
}

#[test]
fn signature_round_trip_and_tamper() {
    let sk = vec![42u8; 32];
    let pk = ed25519_public(&sk);
    let msg = b"signable content".to_vec();
    let sig = ed25519_sign(&sk, &msg);
    assert!(ed25519_verify(&pk, &sig, &msg));

    let mut bad_sig = sig.clone();
    bad_sig[3] ^= 1;
    assert!(!ed25519_verify(&pk, &bad_sig, &msg));

    let other_pk = ed25519_public(&vec![43u8; 32]);
    assert!(!ed25519_verify(&other_pk, &sig, &msg));

    let mut bad_msg = msg.clone();
    bad_msg[0] ^= 1;
    assert!(!ed25519_verify(&pk, &sig, &bad_msg));
}

#[test]
fn hex_encodes_two_digits_per_byte() {
    let s = crypto::to_hex(&[0x00, 0xff, 0x10]);
    assert_eq!(s, "00ff10");
}

#[test]
fn suite_raw_round_trip() {
    let cs = CipherSuite::Curve25519Aes128;
    assert_eq!(CipherSuite::from_raw(cs.raw()), Some(cs));
    assert_eq!(CipherSuite::from_raw(999), None);
}
