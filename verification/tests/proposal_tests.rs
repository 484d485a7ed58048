use mls_core::codec::WireCode;
use mls_core::crypto::CipherSuite;
use mls_core::group::generate_member;
use mls_core::hash_reference::HashReference;
use mls_core::key_package::KeyPackage;
use mls_core::proposal::{AddProposal, Proposal, RemoveProposal, UpdateProposal};
use mls_core::psk::{
    AlwaysFoundPskStorage, ExternalPskId, JustPreSharedKeyID, PSKLabel, PreSharedKeyID,
    PreSharedKeyStorage, PskNonce,
};

fn test_key_package(identity: &[u8]) -> KeyPackage {
    let (kp, _, _) = generate_member(identity.to_vec()).unwrap();
    kp
}

#[test]
fn test_add() {
    let add_proposal = AddProposal {
        key_package: test_key_package(b"foo"),
    };

    let proposal = Proposal::Add(add_proposal.clone());

    assert!(proposal.is_add());
    assert!(!proposal.is_update());
    assert!(!proposal.is_remove());
    assert_eq!(proposal.as_add(), Some(&add_proposal));
    assert_eq!(proposal.as_update(), None);
    assert_eq!(proposal.as_remove(), None);
}

#[test]
fn test_update() {
    let update_proposal = UpdateProposal {
        key_package: test_key_package(b"foo"),
    };

    let proposal = Proposal::Update(update_proposal.clone());

    assert!(proposal.is_update());
    assert!(!proposal.is_add());
    assert!(!proposal.is_remove());
    assert_eq!(proposal.as_update(), Some(&update_proposal));
    assert_eq!(proposal.as_add(), None);
    assert_eq!(proposal.as_remove(), None);
}

#[test]
fn test_remove() {
    let remove_proposal = RemoveProposal { to_remove: 42 };

    let proposal = Proposal::Remove(remove_proposal.clone());

    assert!(proposal.is_remove());
    assert!(!proposal.is_add());
    assert!(!proposal.is_update());
    assert_eq!(proposal.as_remove(), Some(&remove_proposal));
    assert_eq!(proposal.as_add(), None);
    assert_eq!(proposal.as_update(), None);
}

#[test]
fn test_proposal_ref() {
    let cs = CipherSuite::Curve25519Aes128;

    let proposal = Proposal::Remove(RemoveProposal { to_remove: 7 });
    let r1 = proposal.to_reference(cs);
    let r2 = proposal.to_reference(cs);

    // A reference is 16 bytes and a pure function of the proposal's encoding.
    assert_eq!(r1.hash_reference.bytes.len(), 16);
    assert_eq!(r1, r2);

    let mut encoded: Vec<u8> = Vec::new();
    proposal.encode(&mut encoded);
    let direct = HashReference::from_value(&encoded, cs);
    assert_eq!(r1.hash_reference, direct);

    let other = Proposal::Remove(RemoveProposal { to_remove: 8 });
    assert_ne!(other.to_reference(cs), r1);
}

#[test]
fn random_generation_of_nonces_is_random() {
    let cipher_suite = CipherSuite::Curve25519Aes128;
    let nonce = PskNonce::random(cipher_suite);
    let good = (0..1000).all(|_| PskNonce::random(cipher_suite) != nonce);
    assert!(good);
}

#[test]
fn psk_id_binds_fresh_nonce() {
    let cs = CipherSuite::Curve25519Aes128;
    let id = JustPreSharedKeyID::External(ExternalPskId { bytes: vec![1, 2, 3] });
    let a = PreSharedKeyID::new(id.clone(), cs);
    let b = PreSharedKeyID::new(id, cs);
    assert_eq!(a.psk_nonce.bytes.len(), 32);
    assert_ne!(a.psk_nonce, b.psk_nonce);

    let label = PSKLabel { id: a.clone(), index: 0, count: 2 };
    let other = PSKLabel { id: a, index: 1, count: 2 };
    assert_ne!(label.to_bytes(), other.to_bytes());

    let store = AlwaysFoundPskStorage;
    let found = store.get(&ExternalPskId { bytes: vec![9] }).unwrap();
    assert_eq!(found, Some(Vec::new()));
}
