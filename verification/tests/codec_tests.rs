use mls_core::codec::WireCode;
use mls_core::extension::{Extension, ExtensionList};
use mls_core::framing::{
    Commit, EncryptedGroupSecrets, GroupContext, GroupInfo, GroupSecrets, Welcome,
};
use mls_core::group::generate_member;
use mls_core::hash_reference::HashReference;
use mls_core::key_package::KeyPackage;
use mls_core::message::{Content, ContentType, MLSMessage, MLSMessagePayload, PrivateMessage, PublicMessage};
use mls_core::proposal::{
    AddProposal, ExternalInitProposal, PreSharedKeyProposal, Proposal, ProposalOrRef, ProposalRef,
    ReInitProposal, RemoveProposal, UpdateProposal,
};
use mls_core::psk::{
    ExternalPskId, JustPreSharedKeyID, PreSharedKeyID, PskGroupId, PskNonce, ResumptionPSKUsage,
    ResumptionPsk,
};
use mls_core::transcript::ConfirmationTag;
use mls_core::tree::RatchetTree;
use mls_core::treekem::{HpkeCiphertext, UpdatePath, UpdatePathNode};

fn round_trip<T: WireCode + PartialEq + std::fmt::Debug>(v: &T) {
    // decoded values compare by the derived equality
    let mut out: Vec<u8> = Vec::new();
    v.encode(&mut out);
    let (decoded, end) = T::decode(&out, 0).expect("decoding an encoding must succeed");
    assert_eq!(&decoded, v);
    assert_eq!(end, out.len());
}

fn test_kp(id: &[u8]) -> KeyPackage {
    generate_member(id.to_vec()).unwrap().0
}

fn sample_extensions() -> ExtensionList {
    ExtensionList {
        extensions: vec![
            Extension { extension_type: 1, extension_data: vec![1, 2, 3] },
            Extension { extension_type: 7, extension_data: vec![] },
        ],
    }
}

fn sample_psk() -> PreSharedKeyID {
    PreSharedKeyID {
        key_id: JustPreSharedKeyID::External(ExternalPskId { bytes: vec![9, 9, 9] }),
        psk_nonce: PskNonce { bytes: vec![1; 32] },
    }
}

fn sample_commit() -> Commit {
    Commit {
        proposals: vec![
            ProposalOrRef::Proposal(Proposal::Remove(RemoveProposal { to_remove: 1 })),
            ProposalOrRef::Reference(ProposalRef {
                hash_reference: HashReference { bytes: vec![3; 16] },
            }),
        ],
        path: Some(UpdatePath {
            leaf_key_package: test_kp(b"committer"),
            nodes: vec![UpdatePathNode {
                public_key: vec![4; 32],
                encrypted_path_secrets: vec![HpkeCiphertext {
                    kem_output: vec![5; 32],
                    ciphertext: vec![6; 48],
                }],
            }],
        }),
    }
}

fn sample_context() -> GroupContext {
    GroupContext {
        group_id: b"group".to_vec(),
        protocol_version: 1,
        cipher_suite: 1,
        epoch: 3,
        tree_hash: vec![7; 32],
        confirmed_transcript_hash: vec![8; 32],
        extensions: sample_extensions(),
    }
}

fn sample_group_info() -> GroupInfo {
    GroupInfo {
        group_context: sample_context(),
        extensions: sample_extensions(),
        confirmation_tag: ConfirmationTag { bytes: vec![9; 32] },
        signer: 2,
        signature: vec![10; 64],
    }
}

#[test]
fn round_trip_proposals() {
    round_trip(&Proposal::Add(AddProposal { key_package: test_kp(b"a") }));
    round_trip(&Proposal::Update(UpdateProposal { key_package: test_kp(b"u") }));
    round_trip(&Proposal::Remove(RemoveProposal { to_remove: 42 }));
    round_trip(&Proposal::Psk(PreSharedKeyProposal { psk: sample_psk() }));
    round_trip(&Proposal::ReInit(ReInitProposal {
        group_id: b"next".to_vec(),
        version: 1,
        cipher_suite: 1,
        extensions: sample_extensions(),
    }));
    round_trip(&Proposal::ExternalInit(ExternalInitProposal { kem_output: vec![1; 32] }));
    round_trip(&Proposal::GroupContextExtensions(sample_extensions()));
    round_trip(&ProposalOrRef::Proposal(Proposal::Remove(RemoveProposal { to_remove: 3 })));
    round_trip(&ProposalOrRef::Reference(ProposalRef {
        hash_reference: HashReference { bytes: vec![1; 16] },
    }));
}

#[test]
fn round_trip_psk_parts() {
    round_trip(&sample_psk());
    round_trip(&JustPreSharedKeyID::Resumption(ResumptionPsk {
        usage: ResumptionPSKUsage::Branch,
        psk_group_id: PskGroupId { bytes: vec![2; 4] },
        psk_epoch: 9,
    }));
    round_trip(&ResumptionPSKUsage::Application);
    round_trip(&ResumptionPSKUsage::Reinit);
}

#[test]
fn round_trip_key_package_and_tree() {
    round_trip(&test_kp(b"kp"));

    let mut tree = RatchetTree::new();
    tree.add(test_kp(b"m0")).unwrap();
    tree.add(test_kp(b"m1")).unwrap();
    tree.add(test_kp(b"m2")).unwrap();
    let bytes = tree.to_bytes();
    let back = RatchetTree::from_bytes(&bytes).unwrap();
    assert_eq!(back, tree);
    assert_eq!(back.tree_hash(), tree.tree_hash());
}

#[test]
fn round_trip_group_artifacts() {
    round_trip(&sample_commit());
    round_trip(&sample_context());
    round_trip(&sample_group_info());
    round_trip(&GroupSecrets {
        joiner_secret: vec![1; 32],
        path_secret: Some(vec![2; 32]),
        psks: vec![sample_psk()],
    });
    round_trip(&GroupSecrets { joiner_secret: vec![1; 32], path_secret: None, psks: vec![] });
    round_trip(&Welcome {
        cipher_suite: 1,
        secrets: vec![EncryptedGroupSecrets {
            new_member: HashReference { bytes: vec![1; 16] },
            encrypted_group_secrets: HpkeCiphertext {
                kem_output: vec![2; 32],
                ciphertext: vec![3; 48],
            },
        }],
        encrypted_group_info: vec![4; 40],
    });
}

#[test]
fn round_trip_messages_of_every_kind() {
    let plain_commit = MLSMessage {
        version: 1,
        payload: MLSMessagePayload::Plain(PublicMessage {
            group_id: b"group".to_vec(),
            epoch: 5,
            sender: 2,
            content: Content::Commit(sample_commit()),
            signature: vec![1; 64],
            confirmation_tag: Some(ConfirmationTag { bytes: vec![2; 32] }),
        }),
    };
    let plain_proposal = MLSMessage {
        version: 1,
        payload: MLSMessagePayload::Plain(PublicMessage {
            group_id: b"group".to_vec(),
            epoch: 5,
            sender: 2,
            content: Content::Proposal(Proposal::Remove(RemoveProposal { to_remove: 0 })),
            signature: vec![1; 64],
            confirmation_tag: None,
        }),
    };
    let plain_app = MLSMessage {
        version: 1,
        payload: MLSMessagePayload::Plain(PublicMessage {
            group_id: b"group".to_vec(),
            epoch: 5,
            sender: 2,
            content: Content::Application(b"hello".to_vec()),
            signature: vec![1; 64],
            confirmation_tag: None,
        }),
    };
    let cipher = MLSMessage {
        version: 1,
        payload: MLSMessagePayload::Cipher(PrivateMessage {
            group_id: b"group".to_vec(),
            epoch: 5,
            content_type: 1,
            ciphertext: vec![9; 60],
        }),
    };
    let welcome = MLSMessage {
        version: 1,
        payload: MLSMessagePayload::Welcome(Welcome {
            cipher_suite: 1,
            secrets: vec![],
            encrypted_group_info: vec![1; 8],
        }),
    };
    let group_info = MLSMessage {
        version: 1,
        payload: MLSMessagePayload::GroupInfo(sample_group_info()),
    };
    let key_package = MLSMessage {
        version: 1,
        payload: MLSMessagePayload::KeyPackage(test_kp(b"kp")),
    };

    for m in [
        &plain_commit,
        &plain_proposal,
        &plain_app,
        &cipher,
        &welcome,
        &group_info,
        &key_package,
    ] {
        let bytes = m.to_bytes();
        let back = MLSMessage::from_bytes(&bytes).unwrap();
        assert_eq!(&back, m);
    }

    // The kind accessors recover the right payloads.
    let bytes = plain_commit.to_bytes();
    let back = MLSMessage::from_bytes(&bytes).unwrap();
    let pm = back.into_plaintext().unwrap();
    assert_eq!(pm.content.content_type(), ContentType::Commit);

    let back = MLSMessage::from_bytes(&plain_proposal.to_bytes()).unwrap();
    assert_eq!(back.into_plaintext().unwrap().content.content_type(), ContentType::Proposal);

    let back = MLSMessage::from_bytes(&plain_app.to_bytes()).unwrap();
    assert_eq!(back.into_plaintext().unwrap().content.content_type(), ContentType::Application);

    let back = MLSMessage::from_bytes(&cipher.to_bytes()).unwrap();
    back.into_ciphertext().unwrap();

    let back = MLSMessage::from_bytes(&welcome.to_bytes()).unwrap();
    back.into_welcome().unwrap();

    let back = MLSMessage::from_bytes(&group_info.to_bytes()).unwrap();
    back.into_group_info().unwrap();

    let back = MLSMessage::from_bytes(&key_package.to_bytes()).unwrap();
    back.into_key_package().unwrap();
}

#[test]
fn malformed_messages_are_rejected() {
    // Truncated, trailing garbage, and an unknown payload kind all fail.
    let m = MLSMessage {
        version: 1,
        payload: MLSMessagePayload::Welcome(Welcome {
            cipher_suite: 1,
            secrets: vec![],
            encrypted_group_info: vec![],
        }),
    };
    let mut bytes = m.to_bytes();
    assert!(MLSMessage::from_bytes(&bytes).is_ok());

    let mut truncated = bytes.clone();
    truncated.pop();
    assert!(MLSMessage::from_bytes(&truncated).is_err());

    bytes.push(0);
    assert!(MLSMessage::from_bytes(&bytes).is_err());

    let unknown_kind = vec![0u8, 1, 99];
    assert!(MLSMessage::from_bytes(&unknown_kind).is_err());

    // The wrong-kind accessors refuse.
    let m2 = MLSMessage {
        version: 1,
        payload: MLSMessagePayload::KeyPackage(test_kp(b"x")),
    };
    assert!(m2.into_welcome().is_err());
}

#[test]
fn direct_path_positions() {
    // A tree with four leaves: leaves sit at 0, 2, 4, 6; leaf 2's way up
    // passes its parent and the root.
    let mut tree = RatchetTree::new();
    for id in [&b"m0"[..], b"m1", b"m2", b"m3"] {
        tree.add(test_kp(id)).unwrap();
    }
    assert_eq!(tree.direct_path(2).unwrap(), vec![5, 3]);
    assert_eq!(tree.direct_path(0).unwrap(), vec![1, 3]);
    assert!(tree.direct_path(4).is_err());

    let res = tree.resolution(0, 2);
    assert_eq!(res, vec![0, 2, 4, 6]);
}
