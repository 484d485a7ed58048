use mls_core::ec_signer::{Curve, EcSigner, EcSignerError};
use mls_core::group::generate_member;
use mls_core::key_package::{InMemoryKeyPackageRepository, KeyPackageGeneration};

#[test]
fn repository_insert_and_get() {
    let mut repo = InMemoryKeyPackageRepository::new();
    let (kp1, sk1, _) = generate_member(b"one".to_vec()).unwrap();
    let (kp2, sk2, _) = generate_member(b"two".to_vec()).unwrap();
    let r1 = kp1.to_reference();
    let r2 = kp2.to_reference();

    assert!(repo.get(&r1).is_none());

    repo.insert(KeyPackageGeneration { key_package: kp1.clone(), secret_key: sk1.clone() })
        .unwrap();
    repo.insert(KeyPackageGeneration { key_package: kp2.clone(), secret_key: sk2 }).unwrap();

    let got = repo.get(&r1).unwrap();
    assert_eq!(got.key_package, kp1);
    assert_eq!(got.secret_key, sk1);
    assert!(repo.get(&r2).is_some());

    // Re-inserting under the same reference replaces the stored generation.
    let fresh_secret = vec![9u8; 32];
    repo.insert(KeyPackageGeneration { key_package: kp1.clone(), secret_key: fresh_secret.clone() })
        .unwrap();
    assert_eq!(repo.get(&r1).unwrap().secret_key, fresh_secret);
}

#[test]
fn key_package_self_signature() {
    let (kp, _, _) = generate_member(b"signer".to_vec()).unwrap();
    assert!(kp.has_valid_signature());

    let mut tampered = kp.clone();
    tampered.hpke_init_key[0] ^= 1;
    assert!(!tampered.has_valid_signature());
}

#[test]
fn credential_verify_binds_key() {
    let (kp, _, ss) = generate_member(b"verifier".to_vec()).unwrap();
    let data = b"a leaf statement".to_vec();
    let sig = mls_core::crypto::ed25519_sign(&ss, &data);
    assert!(kp.credential.verify(&sig, &data).unwrap());

    let other = b"another statement".to_vec();
    assert!(!kp.credential.verify(&sig, &other).unwrap());
}

#[test]
fn ec_signer_curve_selection() {
    assert_eq!(EcSigner::new(1).unwrap().curve, Curve::Ed25519);
    assert_eq!(EcSigner::new(2).unwrap().curve, Curve::P256);
    assert_eq!(EcSigner::new(5).unwrap().curve, Curve::P521);
    assert_eq!(EcSigner::new(7).unwrap().curve, Curve::P384);
    assert_eq!(EcSigner::new(0).unwrap_err(), EcSignerError::UnsupportedCipherSuite);

    let signer = EcSigner::new(1).unwrap();
    assert_eq!(signer.secret_key_size(), 32);

    let secret = mls_core::crypto::random_bytes(32);
    let public = signer.signature_key_derive_public(&secret).unwrap();
    let data = b"Hello World!".to_vec();
    let sig = signer.sign(&secret, &data).unwrap();
    signer.verify(&public, &sig, &data).unwrap();

    let other_public = signer
        .signature_key_derive_public(&mls_core::crypto::random_bytes(32))
        .unwrap();
    assert_eq!(
        signer.verify(&other_public, &sig, &data).unwrap_err(),
        EcSignerError::InvalidSignature
    );

    let mut longer = data.clone();
    longer.push(0);
    assert_eq!(
        signer.verify(&public, &sig, &longer).unwrap_err(),
        EcSignerError::InvalidSignature
    );

    let p256 = EcSigner::new(2).unwrap();
    assert_eq!(
        p256.sign(&secret, &data).unwrap_err(),
        EcSignerError::CurveNotCarried
    );

    let short = vec![0u8; 16];
    assert_eq!(
        signer.sign(&short, &data).unwrap_err(),
        EcSignerError::InvalidKeyBytes
    );
}
