use mls_core::bundle::{resolve_proposals, validate_bundle};
use mls_core::crypto::CipherSuite;
use mls_core::external_client::{ExternalClient, ExternalGroup};
use mls_core::group::{generate_member, Group, GroupError, GroupState};
use mls_core::message::{MLSMessage, MLSMessagePayload};
use mls_core::proposal::{
    AddProposal, PendingProposal, Proposal, ProposalOrRef, RemoveProposal, UpdateProposal,
};
use mls_core::tree::TreeError;
use mls_core::treekem::open_with;

fn cs() -> CipherSuite {
    CipherSuite::Curve25519Aes128
}

fn group_of(n: usize) -> Vec<Group> {
    let identities: Vec<Vec<u8>> = (0..n).map(|i| vec![b'm', i as u8]).collect();
    Group::bootstrap_group(cs(), b"test group".to_vec(), identities).unwrap()
}

// A commit advances the epoch by exactly one, and the stored tree hash is
// the recomputation over the new tree, for the committer and for every
// receiver alike.
#[test]
fn commit_advances_epoch_by_one_and_tree_hash_matches() {
    let mut groups = group_of(2);
    let epoch_before = groups[0].context.epoch;

    let (kp, ls, _) = generate_member(b"m0-next".to_vec()).unwrap();
    let (commit, tag) = groups[0].create_commit(vec![], kp, ls).unwrap();

    assert_eq!(groups[0].context.epoch, epoch_before + 1);
    assert_eq!(groups[0].context.tree_hash, groups[0].tree.tree_hash());

    groups[1].process_commit(0, &commit, &tag).unwrap();
    assert_eq!(groups[1].context.epoch, epoch_before + 1);
    assert_eq!(groups[1].context.tree_hash, groups[1].tree.tree_hash());

    assert_eq!(groups[0].context, groups[1].context);
    assert_eq!(groups[0].epoch_secrets, groups[1].epoch_secrets);
    assert_eq!(groups[0].interim_transcript_hash, groups[1].interim_transcript_hash);
}

// Member 2 of a group of four updates its own leaf and commits; members 0,
// 1 and 3 each open exactly one sealed path secret and end with the very
// same epoch secrets, context and tree as the committer.  Only leaf 2's
// contents change.
#[test]
fn update_commit_in_group_of_four() {
    let mut groups = group_of(4);
    let leaves_before: Vec<_> =
        (0..4).map(|i| groups[0].tree.leaf(i as u32).cloned().unwrap()).collect();
    let subtree01_before = groups[0].tree.subtree_hash(0, 1);
    let subtree23_before = groups[0].tree.subtree_hash(2, 1);

    let (kp_new, ls_new, _) = generate_member(b"m2-next".to_vec()).unwrap();
    let update = Proposal::Update(UpdateProposal { key_package: kp_new.clone() });
    let (commit, tag) = groups[2]
        .create_commit(vec![ProposalOrRef::Proposal(update)], kp_new, ls_new)
        .unwrap();

    let (left, right) = groups.split_at_mut(2);
    let (g2, g3) = right.split_at_mut(1);
    left[0].process_commit(2, &commit, &tag).unwrap();
    left[1].process_commit(2, &commit, &tag).unwrap();
    g3[0].process_commit(2, &commit, &tag).unwrap();
    let committer = &g2[0];

    for g in [&left[0], &left[1], &g3[0]] {
        assert_eq!(g.context.epoch, 1);
        assert_eq!(g.context, committer.context);
        assert_eq!(g.epoch_secrets, committer.epoch_secrets);
        assert_eq!(g.context.tree_hash, g.tree.tree_hash());
    }

    // Leaves 0, 1 and 3 kept their contents; leaf 2 changed, and with it
    // only the subtree hashes along leaf 2's way to the root.
    for i in [0u32, 1, 3] {
        assert_eq!(left[0].tree.leaf(i).cloned().unwrap(), leaves_before[i as usize]);
    }
    assert_ne!(left[0].tree.leaf(2).cloned().unwrap(), leaves_before[2]);
    assert_eq!(left[0].tree.subtree_hash(0, 1), subtree01_before);
    assert_ne!(left[0].tree.subtree_hash(2, 1), subtree23_before);
}

// A remove of leaf 1 and an add in the same batch: the add reuses the freed
// slot, and exactly the other leaves keep their contents.  Trying to also
// update leaf 1 in the same batch is rejected whole.
#[test]
fn remove_and_add_in_one_commit() {
    let mut groups = group_of(4);

    // A batch that also updates the removed leaf is rejected as invalid.
    let (kp_upd, _, _) = generate_member(b"m1-next".to_vec()).unwrap();
    let update = Proposal::Update(UpdateProposal { key_package: kp_upd });
    groups[0].add_pending_proposal(update.clone(), 1);
    let upd_ref = ProposalOrRef::Reference(update.to_reference(cs()));
    let remove = ProposalOrRef::Proposal(Proposal::Remove(RemoveProposal { to_remove: 1 }));
    let (kp0a, ls0a, _) = generate_member(b"m0-a".to_vec()).unwrap();
    let err = groups[0]
        .create_commit(vec![upd_ref, remove.clone()], kp0a, ls0a)
        .unwrap_err();
    assert_eq!(err, GroupError::InvalidProposal);
    assert_eq!(groups[0].context.epoch, 0);

    // The remove-plus-add batch goes through and reuses leaf 1.
    let (kp_add, _, _) = generate_member(b"newcomer".to_vec()).unwrap();
    let add = ProposalOrRef::Proposal(Proposal::Add(AddProposal { key_package: kp_add.clone() }));
    let (kp0b, ls0b, _) = generate_member(b"m0-b".to_vec()).unwrap();
    let leaves_before: Vec<_> =
        (0..4).map(|i| groups[0].tree.leaf(i as u32).cloned().unwrap()).collect();
    let (commit, tag) = groups[0].create_commit(vec![remove, add], kp0b, ls0b).unwrap();

    groups[2].process_commit(0, &commit, &tag).unwrap();
    assert_eq!(groups[2].context, groups[0].context);

    let new_leaf1 = groups[2].tree.leaf(1).cloned().unwrap();
    assert_eq!(new_leaf1, kp_add);
    assert_ne!(new_leaf1, leaves_before[1]);
    assert_eq!(groups[2].tree.leaf(3).cloned().unwrap(), leaves_before[3]);
    assert!(groups[2].tree.leaf(4).is_none());
}

// Resolution is order independent: two receipt orders of one batch resolve
// to identical category lists, and applying them to copies of one tree
// yields identical trees and tree hashes.
#[test]
fn resolution_is_order_independent() {
    let groups = group_of(4);
    let (kp_add, _, _) = generate_member(b"added".to_vec()).unwrap();
    let (kp_upd, _, _) = generate_member(b"m2-next".to_vec()).unwrap();

    let a = PendingProposal {
        proposal: Proposal::Add(AddProposal { key_package: kp_add }),
        sender: 0,
    };
    let b = PendingProposal {
        proposal: Proposal::Remove(RemoveProposal { to_remove: 1 }),
        sender: 0,
    };
    let c = PendingProposal {
        proposal: Proposal::Update(UpdateProposal { key_package: kp_upd }),
        sender: 2,
    };

    let order1 = vec![a.clone(), b.clone(), c.clone()];
    let order2 = vec![c.clone(), b.clone(), a.clone()];
    assert!(validate_bundle(&order1));
    assert!(validate_bundle(&order2));

    let r1 = resolve_proposals(&order1);
    let r2 = resolve_proposals(&order2);
    assert_eq!(r1.updates, r2.updates);
    assert_eq!(r1.removes, r2.removes);
    assert_eq!(r1.adds, r2.adds);
    assert_eq!(r1.psks, r2.psks);
    assert_eq!(r1.gces, r2.gces);

    // Applying the identical canonical lists deterministically gives
    // identical trees.
    let mut t1 = groups[0].tree.dup();
    let mut t2 = groups[0].tree.dup();
    for (t, r) in [(&mut t1, &r1), (&mut t2, &r2)] {
        for u in &r.updates {
            let kp = match &u.proposal {
                Proposal::Update(u) => u.key_package.clone(),
                _ => unreachable!(),
            };
            t.update(u.sender, kp).unwrap();
        }
        for rm in &r.removes {
            let target = match &rm.proposal {
                Proposal::Remove(rm) => rm.to_remove,
                _ => unreachable!(),
            };
            t.remove(target).unwrap();
        }
        for ad in &r.adds {
            let kp = match &ad.proposal {
                Proposal::Add(a) => a.key_package.clone(),
                _ => unreachable!(),
            };
            t.add(kp).unwrap();
        }
    }
    assert_eq!(t1, t2);
    assert_eq!(t1.tree_hash(), t2.tree_hash());

    // A batch with two updates of the same leaf is invalid in any order.
    let dup = vec![c.clone(), c.clone()];
    assert!(!validate_bundle(&dup));
}

// A removed member is out: its state turns terminal, no ciphertext of any
// later update path opens under its retained secrets, and so it cannot
// derive the new commit secret.
#[test]
fn removed_member_cannot_follow() {
    let mut groups = group_of(4);

    let remove = ProposalOrRef::Proposal(Proposal::Remove(RemoveProposal { to_remove: 1 }));
    let (kp0, ls0, _) = generate_member(b"m0-next".to_vec()).unwrap();
    let (commit, tag) = groups[0].create_commit(vec![remove], kp0, ls0).unwrap();

    let retained_secret = groups[1].my_leaf_secret.clone();
    groups[1].process_commit(0, &commit, &tag).unwrap();
    assert_eq!(groups[1].state, GroupState::Removed);
    assert_eq!(groups[1].context.epoch, 0);
    groups[2].process_commit(0, &commit, &tag).unwrap();
    groups[3].process_commit(0, &commit, &tag).unwrap();
    assert_eq!(groups[2].state, GroupState::Active);

    // The next commit's update path carries nothing the removed member can
    // open with anything it retained.
    let (kp0b, ls0b, _) = generate_member(b"m0-later".to_vec()).unwrap();
    let (commit2, tag2) = groups[0].create_commit(vec![], kp0b, ls0b).unwrap();
    let path = commit2.path.as_ref().unwrap();
    for node in &path.nodes {
        for ct in &node.encrypted_path_secrets {
            assert!(open_with(&retained_secret, ct).is_none());
        }
    }

    // Nor can it process the commit at all: its state is terminal.
    let err = groups[1].process_commit(0, &commit2, &tag2).unwrap_err();
    assert_eq!(err, GroupError::NotActive);

    groups[2].process_commit(0, &commit2, &tag2).unwrap();
    groups[3].process_commit(0, &commit2, &tag2).unwrap();
    assert_eq!(groups[2].epoch_secrets, groups[0].epoch_secrets);
    assert_eq!(groups[3].epoch_secrets, groups[0].epoch_secrets);
    assert_eq!(groups[2].context.epoch, 2);
}

// A tampered confirmation tag rejects the commit and leaves the receiver's
// state exactly as before.
#[test]
fn tampered_tag_rejects_commit() {
    let mut groups = group_of(2);
    let (kp, ls, _) = generate_member(b"m0-next".to_vec()).unwrap();
    let (commit, tag) = groups[0].create_commit(vec![], kp, ls).unwrap();

    let mut bad = tag.clone();
    bad.bytes[5] ^= 1;
    let context_before = groups[1].context.clone();
    let err = groups[1].process_commit(0, &commit, &bad).unwrap_err();
    assert_eq!(err, GroupError::ConfirmationTagMismatch);
    assert_eq!(groups[1].context, context_before);
    assert_eq!(groups[1].context.epoch, 0);

    // The untampered tag still goes through afterwards.
    groups[1].process_commit(0, &commit, &tag).unwrap();
    assert_eq!(groups[1].context.epoch, 1);
}

// A commit whose update path has been tampered with does not open, and a
// member never processes a path commit under its own name.
#[test]
fn tampered_path_rejects_commit() {
    let mut groups = group_of(2);
    let (kp, ls, _) = generate_member(b"m0-next".to_vec()).unwrap();
    let (commit, tag) = groups[0].create_commit(vec![], kp, ls).unwrap();

    let mut bad = commit.clone();
    if let Some(path) = bad.path.as_mut() {
        path.nodes[0].encrypted_path_secrets[0].ciphertext[0] ^= 1;
    }
    let err = groups[1].process_commit(0, &bad, &tag).unwrap_err();
    assert_eq!(err, GroupError::Tree(TreeError::DecryptFailed));
    assert_eq!(groups[1].context.epoch, 0);

    let err = groups[1].process_commit(1, &commit, &tag).unwrap_err();
    assert_eq!(err, GroupError::InvalidSender);

    groups[1].process_commit(0, &commit, &tag).unwrap();
    assert_eq!(groups[1].context.epoch, 1);
}

// An external join validates the exported tree and the signed group info -
// which covers the confirmation tag - before accepting any state; a
// tampered tag is rejected outright.
#[test]
fn external_join_rejects_tampering() {
    let groups = group_of(3);
    let gi = groups[0].group_info();
    let tree_bytes = groups[0].tree.to_bytes();

    let joined = ExternalGroup::join(&gi, Some(&tree_bytes)).unwrap();
    assert_eq!(joined.context, groups[0].context);
    assert_eq!(joined.tree, groups[0].tree);

    // Tampered confirmation tag: the signature over it no longer verifies.
    let mut tampered = gi.clone();
    tampered.confirmation_tag.bytes[0] ^= 1;
    let err = ExternalGroup::join(&tampered, Some(&tree_bytes)).unwrap_err();
    assert_eq!(err, GroupError::InvalidSignature);

    // No tree at all.
    let err = ExternalGroup::join(&gi, None).unwrap_err();
    assert_eq!(err, GroupError::MissingRatchetTree);

    // A tree that does not hash to the advertised tree hash.
    let other = group_of(3);
    let wrong_tree = other[0].tree.to_bytes();
    let err = ExternalGroup::join(&gi, Some(&wrong_tree)).unwrap_err();
    assert_eq!(err, GroupError::TreeHashMismatch);

    // Bytes that are no tree at all.
    let garbage = vec![1u8, 2, 3];
    let err = ExternalGroup::join(&gi, Some(&garbage)).unwrap_err();
    assert_eq!(err, GroupError::Malformed);

    // The external client wraps the same validation.
    let client = ExternalClient::builder().build();
    let msg = MLSMessage { version: 1, payload: MLSMessagePayload::GroupInfo(gi) };
    client.observe_group(msg, Some(&tree_bytes)).unwrap();
}

#[test]
fn tree_errors_name_the_input() {
    let mut groups = group_of(2);
    assert_eq!(groups[0].tree.remove(99).unwrap_err(), TreeError::UnknownLeaf);
    let (kp, _, _) = generate_member(b"x".to_vec()).unwrap();
    assert_eq!(groups[0].tree.update(99, kp).unwrap_err(), TreeError::UnknownLeaf);
}

#[test]
fn load_group_states_builds_pairs() {
    let states = mls_core::group::load_group_states(cs(), 3).unwrap();
    assert_eq!(states.len(), 3);
    for pair in &states {
        assert_eq!(pair.sender.context, pair.receiver.context);
        assert_eq!(pair.sender.context.epoch, 0);
    }
}

// A reinit stands alone in its batch and parks both sides in the pending
// state; group-context extension changes land in the new context.
#[test]
fn reinit_and_extension_commits() {
    let mut groups = group_of(2);

    let new_exts = mls_core::extension::ExtensionList {
        extensions: vec![mls_core::extension::Extension {
            extension_type: 13,
            extension_data: vec![1, 2],
        }],
    };
    let gce = ProposalOrRef::Proposal(Proposal::GroupContextExtensions(new_exts.clone()));
    let (kp0, ls0, _) = generate_member(b"m0-x".to_vec()).unwrap();
    let (commit, tag) = groups[0].create_commit(vec![gce], kp0, ls0).unwrap();
    groups[1].process_commit(0, &commit, &tag).unwrap();
    assert_eq!(groups[0].context.extensions, new_exts);
    assert_eq!(groups[0].context, groups[1].context);

    let reinit = ProposalOrRef::Proposal(Proposal::ReInit(mls_core::proposal::ReInitProposal {
        group_id: b"next group".to_vec(),
        version: 1,
        cipher_suite: 1,
        extensions: mls_core::extension::ExtensionList::new(),
    }));
    let (kp0b, ls0b, _) = generate_member(b"m0-y".to_vec()).unwrap();
    let (commit2, tag2) = groups[0].create_commit(vec![reinit], kp0b, ls0b).unwrap();
    groups[1].process_commit(0, &commit2, &tag2).unwrap();
    assert_eq!(groups[0].state, GroupState::ReInitPending);
    assert_eq!(groups[1].state, GroupState::ReInitPending);
    assert_eq!(groups[1].context.epoch, 2);
}

// An outsider joins by external commit: it validates the signed group info,
// takes the first free leaf, encapsulates against the group's external key,
// and every member derives the identical next epoch from its own init
// secret and the carried encapsulation.
#[test]
fn external_commit_join() {
    let mut groups = group_of(2);
    let gi = groups[0].group_info();
    let tree_bytes = groups[0].tree.to_bytes();

    let ext = ExternalGroup::join(&gi, Some(&tree_bytes)).unwrap();
    let (joiner, commit, tag) = ext.external_commit(b"joiner".to_vec()).unwrap();
    assert_eq!(joiner.context.epoch, 1);
    assert_eq!(joiner.my_leaf, 2);
    assert_eq!(joiner.context.tree_hash, joiner.tree.tree_hash());

    groups[0].process_external_commit(&commit, &tag).unwrap();
    groups[1].process_external_commit(&commit, &tag).unwrap();
    for g in [&groups[0], &groups[1]] {
        assert_eq!(g.context, joiner.context);
        assert_eq!(g.epoch_secrets, joiner.epoch_secrets);
        assert_eq!(g.interim_transcript_hash, joiner.interim_transcript_hash);
    }

    // The joined group keeps working: the joiner commits next and the
    // others follow, sender processing receiver's external commit and all
    // advancing by exactly one epoch each time.
    let (kp, ls, _) = generate_member(b"joiner-next".to_vec()).unwrap();
    let (c2, t2) = {
        let mut j = joiner;
        let r = j.create_commit(vec![], kp, ls).unwrap();
        assert_eq!(j.context.epoch, 2);
        r
    };
    groups[0].process_commit(2, &c2, &t2).unwrap();
    groups[1].process_commit(2, &c2, &t2).unwrap();
    assert_eq!(groups[0].context.epoch, 2);
    assert_eq!(groups[0].epoch_secrets, groups[1].epoch_secrets);

    // A tampered tag rejects the external commit before anything changes.
    let mut groups2 = group_of(2);
    let gi2 = groups2[0].group_info();
    let tb2 = groups2[0].tree.to_bytes();
    let ext2 = ExternalGroup::join(&gi2, Some(&tb2)).unwrap();
    let (_, commit2, tag2) = ext2.external_commit(b"other".to_vec()).unwrap();
    let mut bad = tag2.clone();
    bad.bytes[0] ^= 1;
    assert_eq!(
        groups2[0].process_external_commit(&commit2, &bad).unwrap_err(),
        GroupError::ConfirmationTagMismatch
    );
    assert_eq!(groups2[0].context.epoch, 0);
    groups2[0].process_external_commit(&commit2, &tag2).unwrap();
    assert_eq!(groups2[0].context.epoch, 1);
}

// A group info that advertises no external key admits observation but not
// an external commit.
#[test]
fn external_commit_needs_external_key() {
    let groups = group_of(2);
    let mut gi = groups[0].group_info();
    gi.extensions = mls_core::extension::ExtensionList::new();
    let tbs = gi.signable_content();
    let sig = mls_core::crypto::ed25519_sign(&groups[0].my_signature_secret, &tbs);
    gi.write_signature(sig);

    let tree_bytes = groups[0].tree.to_bytes();
    let ext = ExternalGroup::join(&gi, Some(&tree_bytes)).unwrap();
    assert!(ext.external_pub.is_none());
    assert_eq!(
        ext.external_commit(b"joiner".to_vec()).unwrap_err(),
        GroupError::MissingExternalKey
    );
}
