use mls_core::credential::{BasicCredential, Credential, CredentialError, SignatureScheme};
use mls_core::crypto::{ed25519_public, ed25519_sign, random_bytes};

struct TestCredentialData {
    public: Vec<u8>,
    secret: Vec<u8>,
    credential: Credential,
}

fn get_test_basic_credential(identity: Vec<u8>, scheme: SignatureScheme) -> TestCredentialData {
    let secret = random_bytes(32);
    let public = ed25519_public(&secret);
    let credential =
        Credential::Basic(BasicCredential::new(identity, scheme, public.clone()).unwrap());

    TestCredentialData { public, secret, credential }
}

#[test]
fn test_new_basic_credential() {
    let one_scheme = SignatureScheme::Ed25519;
    let identity = random_bytes(32);
    let secret = random_bytes(32);
    let public = ed25519_public(&secret);
    let cred = BasicCredential::new(identity.clone(), one_scheme, public.clone()).unwrap();
    assert_eq!(cred.identity, identity);
    assert_eq!(cred.signature_scheme, one_scheme);
    assert_eq!(cred.signature_key, public);
}

#[test]
fn basic_credential_rejects_short_key() {
    let err =
        BasicCredential::new(vec![1, 2, 3], SignatureScheme::Ed25519, vec![0; 16]).unwrap_err();
    assert_eq!(err, CredentialError::InvalidKeyBytes);
}

#[test]
fn test_basic_credential_signature_data() {
    let test_id = random_bytes(32);
    let test_data = get_test_basic_credential(test_id, SignatureScheme::Ed25519);

    let cred_sig_key = test_data.credential.public_key().unwrap();
    assert_eq!(cred_sig_key, &test_data.public);
}

#[test]
fn test_basic_credential_verify() {
    let test_data = get_test_basic_credential(Vec::new(), SignatureScheme::Ed25519);

    let test_signature_input = b"Don't Panic".to_vec();
    let valid_signature = ed25519_sign(&test_data.secret, &test_signature_input);
    let invalid_signature_data = ed25519_sign(&test_data.secret, &b"foo".to_vec());

    let other_secret = random_bytes(32);
    let invalid_signature_key = ed25519_sign(&other_secret, &test_signature_input);

    assert!(test_data
        .credential
        .verify(&valid_signature, &test_signature_input)
        .unwrap());
    assert!(!test_data
        .credential
        .verify(&invalid_signature_data, &test_signature_input)
        .unwrap());
    assert!(!test_data
        .credential
        .verify(&invalid_signature_key, &test_signature_input)
        .unwrap());
}

#[test]
fn certificate_credential_key_is_outside() {
    let chain = mls_core::credential::CertificateChain { certs: vec![vec![1, 2, 3]] };
    let credential = chain.into_credential();
    assert_eq!(credential.public_key().unwrap_err(), CredentialError::CertificateError);
}
