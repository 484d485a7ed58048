use vstd::prelude::*;

use crate::codec::{bytes_eq, copy_bytes, WireCode};
use crate::extension::ExtensionV;
use crate::framing::Commit;
use crate::group::{
    derive_epoch_secrets, wf_group, Group, GroupState, EXTERNAL_PUB_EXTENSION_TYPE,
};
use crate::proposal::{Proposal, ProposalOrRef};
use crate::transcript::{
    confirmed_next, interim_next, spec_confirmation_tag, spec_confirmed_next, spec_interim_next,
    ConfirmationTag,
};
use crate::treekem::create_update_path;
use crate::credential::{Credential, CredentialV};
use crate::crypto::{ed25519_verify, ed25519_verify_of};
use crate::framing::{GroupContext, GroupInfo};
use crate::group::GroupError;
use crate::message::MLSMessage;
use crate::tree::{spec_tree_hash, wf_tree, NodeSlotV, RatchetTree};

verus! {

// An external observer joins from a group info message and an exported
// ratchet tree, trusting neither until both validate: the tree must hash to
// the advertised tree hash, and the group info's signature - which covers
// the confirmation tag - must verify under the signer's own leaf
// credential.

/// Why an external client could not observe a group.
#[derive(Clone, Copy, Debug, PartialEq, Eq, Structural)]
pub enum ExternalClientError {
    GroupError(GroupError),
}

/// The first advertised value of an extension type, if any.
pub open spec fn spec_find_extension(exts: Seq<ExtensionV>, t: u16) -> Option<Seq<u8>>
    decreases exts.len(),
{
    if exts.len() == 0 {
        None
    } else if exts[0].extension_type == t {
        Some(exts[0].extension_data)
    } else {
        spec_find_extension(exts.drop_first(), t)
    }
}

/// What an external joiner holds once a group info and tree have validated:
/// the context, the exported tree, the group's latest confirmation tag and
/// its advertised external key.
#[derive(Debug)]
pub struct ExternalGroup {
    pub context: GroupContext,
    pub tree: RatchetTree,
    pub confirmation_tag: ConfirmationTag,
    pub external_pub: Option<Vec<u8>>,
}

/// The first advertised value of an extension type, executably.
#[verifier::loop_isolation(false)]
fn find_extension(exts: &crate::extension::ExtensionList, t: u16) -> (r: Option<Vec<u8>>)
    ensures
        match r {
            Some(d) => spec_find_extension(exts@, t) == Some(d@),
            None => spec_find_extension(exts@, t) is None,
        },
{
    let ghost ev = exts@;
    proof {
        assert(ev.skip(0) =~= ev);
    }
    let n = exts.extensions.len();
    let mut j: usize = 0;
    loop
        invariant
            j <= n,
            ev.len() == n,
            spec_find_extension(ev, t) == spec_find_extension(ev.skip(j as int), t),
        decreases n - j,
    {
        if j == n {
            proof {
                assert(ev.skip(n as int) =~= Seq::<ExtensionV>::empty());
            }
            return None;
        }
        proof {
            assert(ev.skip(j as int)[0] == ev[j as int]);
            assert(ev[j as int] == exts.extensions@[j as int]@);
            assert(ev.skip(j as int).drop_first() =~= ev.skip(j as int + 1));
        }
        if exts.extensions[j].extension_type == t {
            return Some(copy_bytes(&exts.extensions[j].extension_data));
        }
        j = j + 1;
    }
}

impl ExternalGroup {
    /// Validates a group info against an exported tree before accepting any
    /// of it: the tree must be well shaped, its recomputed hash must equal
    /// the advertised tree hash, the signer must be an occupied leaf with a
    /// bare identity, and the signature - covering the confirmation tag -
    /// must verify under that leaf's own key.  Only then does any tree
    /// state come back, and each refusal names exactly its cause.
    pub fn join(group_info: &GroupInfo, tree_data: Option<&Vec<u8>>) -> (r: Result<
        ExternalGroup,
        GroupError,
    >)
        ensures
            match r {
                Ok(g) => {
                    &&& wf_tree(g.tree@)
                    &&& spec_tree_hash(g.tree@) == group_info@.group_context.tree_hash
                    &&& g.context@ == group_info@.group_context
                    &&& 2 * group_info@.signer < g.tree@.nodes.len()
                    &&& (g.tree@.nodes[2 * group_info@.signer as int] matches NodeSlotV::Leaf(kp)
                        && (kp.credential matches CredentialV::Basic(b) && ed25519_verify_of(
                        b.signature_key,
                        group_info@.signature,
                        crate::framing::spec_group_info_tbs(group_info@),
                    )))
                    &&& (tree_data matches Some(bytes) && crate::codec::spec_dec_list::<
                        crate::tree::NodeSlot,
                    >(bytes@, 0) matches Some((m, end)) && m == g.tree@.nodes && end
                        == bytes@.len())
                    &&& g.confirmation_tag@ == group_info@.confirmation_tag
                    &&& (match g.external_pub {
                        Some(p) => spec_find_extension(
                            group_info@.extensions,
                            EXTERNAL_PUB_EXTENSION_TYPE,
                        ) == Some(p@),
                        None => spec_find_extension(
                            group_info@.extensions,
                            EXTERNAL_PUB_EXTENSION_TYPE,
                        ) is None,
                    })
                },
                Err(e) => {
                    &&& (e == GroupError::MissingRatchetTree <==> tree_data is None)
                    &&& e == GroupError::MissingRatchetTree || e == GroupError::Malformed || e
                        == GroupError::TreeHashMismatch || e == GroupError::InvalidSignature
                    &&& (e == GroupError::TreeHashMismatch ==> (tree_data matches Some(bytes)
                        && crate::tree::spec_decoded_tree_hash_differs(
                        bytes@,
                        group_info@.group_context.tree_hash,
                    )))
                    &&& (e == GroupError::InvalidSignature ==> (tree_data matches Some(bytes)
                        && crate::tree::spec_signer_rejects(bytes@, group_info@)))
                },
            },
    {
        let bytes = match tree_data {
            Some(b) => b,
            None => {
                return Err(GroupError::MissingRatchetTree);
            },
        };
        let tree = match RatchetTree::from_bytes(bytes) {
            Ok(t) => t,
            Err(_) => {
                return Err(GroupError::Malformed);
            },
        };
        let recomputed = tree.tree_hash();
        if !bytes_eq(&recomputed, &group_info.group_context.tree_hash) {
            return Err(GroupError::TreeHashMismatch);
        }
        let signer_key: Vec<u8> = match tree.leaf(group_info.signer) {
            Some(kp) => match &kp.credential {
                Credential::Basic(b) => crate::codec::copy_bytes(&b.signature_key),
                _ => {
                    return Err(GroupError::InvalidSignature);
                },
            },
            None => {
                return Err(GroupError::InvalidSignature);
            },
        };
        let tbs = group_info.signable_content();
        if !ed25519_verify(signer_key.as_slice(), group_info.signature.as_slice(), tbs.as_slice())
        {
            return Err(GroupError::InvalidSignature);
        }
        let external_pub = find_extension(&group_info.extensions, EXTERNAL_PUB_EXTENSION_TYPE);
        Ok(
            ExternalGroup {
                context: group_info.group_context.dup(),
                tree,
                confirmation_tag: ConfirmationTag {
                    bytes: copy_bytes(&group_info.confirmation_tag.bytes),
                },
                external_pub,
            },
        )
    }

    /// The restricted commit by which an outsider joins: it takes the first
    /// free leaf, carries exactly one external-init proposal holding the
    /// encapsulation against the group's external key, and an update path
    /// from the new leaf.  The joiner's next-epoch state comes back with
    /// the commit and its confirmation tag; on success the epoch is exactly
    /// one past the advertised one, the stored tree hash is the
    /// recomputation over the new tree, and the tag is the one derived for
    /// the new transcript.
    pub fn external_commit(&self, identity: Vec<u8>) -> (r: Result<
        (Group, Commit, ConfirmationTag),
        crate::group::GroupError,
    >)
        requires
            wf_tree(self.tree@),
        ensures
            match r {
                Ok((g, commit, tag)) => {
                    &&& self.external_pub is Some
                    &&& g@.state == GroupState::Active
                    &&& g@.context.epoch == self.context@.epoch + 1
                    &&& g@.context.tree_hash == spec_tree_hash(g@.tree)
                    &&& wf_group(g@)
                    &&& commit@.proposals.len() == 1
                    &&& (commit@.proposals[0]
                        matches crate::proposal::ProposalOrRefV::Proposal(p) && p is ExternalInit)
                    &&& commit@.path is Some
                    &&& g@.context.confirmed_transcript_hash == spec_confirmed_next(
                        spec_interim_next(self.context@.confirmed_transcript_hash,
                        self.confirmation_tag@),
                        crate::group::spec_commit_content(g@.my_leaf, commit@),
                    )
                    &&& tag@ == spec_confirmation_tag(
                        g@.epoch_secrets.confirmation_key,
                        g@.context.confirmed_transcript_hash,
                    )
                    &&& g@.interim_transcript_hash == spec_interim_next(
                        g@.context.confirmed_transcript_hash,
                        tag@,
                    )
                    &&& g@.context.group_id == self.context@.group_id
                },
                Err(_) => true,
            },
    {
        let external_pub = match &self.external_pub {
            Some(p) => p,
            None => {
                return Err(crate::group::GroupError::MissingExternalKey);
            },
        };
        if external_pub.len() != 32 {
            return Err(crate::group::GroupError::Malformed);
        }
        let (kp, leaf_secret, sig_secret) = match crate::group::generate_member(identity) {
            Ok(t) => t,
            Err(e) => {
                return Err(e);
            },
        };
        let mut staged = self.tree.dup();
        let joiner_leaf = match staged.add(kp.dup()) {
            Ok(i) => i,
            Err(e) => {
                return Err(crate::group::GroupError::Tree(e));
            },
        };
        let (path, commit_secret) = match create_update_path(
            &staged,
            joiner_leaf,
            &kp,
            &leaf_secret,
        ) {
            Ok(p) => p,
            Err(e) => {
                return Err(crate::group::GroupError::Tree(e));
            },
        };
        match staged.merge_update_path(joiner_leaf, &path) {
            Ok(()) => {},
            Err(e) => {
                return Err(crate::group::GroupError::Tree(e));
            },
        }
        let new_epoch = match self.context.epoch.checked_add(1) {
            Some(e) => e,
            None => {
                return Err(crate::group::GroupError::EpochOverflow);
            },
        };
        let eph = crate::crypto::random_bytes(32);
        let kem_output = crate::crypto::x25519_public(eph.as_slice());
        let shared = crate::crypto::x25519_dh(eph.as_slice(), external_pub.as_slice());
        let commit = Commit {
            proposals: vec![
                ProposalOrRef::Proposal(
                    Proposal::ExternalInit(
                        crate::proposal::ExternalInitProposal { kem_output },
                    ),
                ),
            ],
            path: Some(path),
        };
        let interim_prev = interim_next(
            &self.context.confirmed_transcript_hash,
            &self.confirmation_tag.bytes,
        );
        let content = Group::commit_content_bytes(joiner_leaf, &commit);
        let confirmed_new = confirmed_next(&interim_prev, &content);
        let tree_hash_new = staged.tree_hash();
        let secrets_new = derive_epoch_secrets(&shared, &commit_secret);
        let tag_bytes = crate::crypto::hmac_sha256(
            secrets_new.confirmation_key.as_slice(),
            confirmed_new.as_slice(),
        );
        let tag = ConfirmationTag { bytes: tag_bytes };
        let interim_new = interim_next(&confirmed_new, &tag.bytes);
        let g = Group {
            state: GroupState::Active,
            context: GroupContext {
                group_id: copy_bytes(&self.context.group_id),
                protocol_version: self.context.protocol_version,
                cipher_suite: self.context.cipher_suite,
                epoch: new_epoch,
                tree_hash: tree_hash_new,
                confirmed_transcript_hash: confirmed_new,
                extensions: self.context.extensions.dup(),
            },
            tree: staged,
            interim_transcript_hash: interim_new,
            epoch_secrets: secrets_new,
            my_leaf: joiner_leaf,
            my_leaf_secret: leaf_secret,
            my_signature_secret: sig_secret,
            pending_proposals: Vec::new(),
        };
        proof {
            assert(commit@.proposals =~= seq![
                crate::proposal::ProposalOrRefV::Proposal(
                    crate::proposal::ProposalV::ExternalInit(commit.proposals@[0]@->Proposal_0->ExternalInit_0),
                ),
            ]);
        }
        Ok((g, commit, tag))
    }
}

/// Builds external clients; configuration hooks may grow here without
/// touching the client itself.
#[derive(Clone, Copy, Debug, PartialEq, Eq, Structural)]
pub struct ExternalClientBuilder {
    pub ready: bool,
}

impl ExternalClientBuilder {
    pub fn new() -> (r: ExternalClientBuilder)
        ensures
            r.ready,
    {
        ExternalClientBuilder { ready: true }
    }

    pub fn build(self) -> (r: ExternalClient)
        ensures
            r.ready == self.ready,
    {
        ExternalClient { ready: self.ready }
    }
}

/// A client that observes groups from the outside, validating what it is
/// shown before trusting it.
#[derive(Clone, Copy, Debug, PartialEq, Eq, Structural)]
pub struct ExternalClient {
    pub ready: bool,
}

impl ExternalClient {
    pub fn builder() -> (r: ExternalClientBuilder)
        ensures
            r.ready,
    {
        ExternalClientBuilder::new()
    }

    pub(crate) fn new() -> (r: ExternalClient)
        ensures
            r.ready,
    {
        ExternalClient { ready: true }
    }

    /// Observes a group from a group info message and an exported tree:
    /// the message must frame a group info, and the same validation as an
    /// external join - the tree hash recomputation and the signature over
    /// content including the confirmation tag - decides acceptance, with
    /// each refusal naming its cause.
    pub fn observe_group(&self, group_info: MLSMessage, tree_data: Option<&Vec<u8>>) -> (r:
        Result<ExternalGroup, ExternalClientError>)
        ensures
            match r {
                Ok(g) => group_info@.payload matches crate::message::MLSMessagePayloadV::GroupInfo(
                    gi,
                ) && {
                    &&& wf_tree(g.tree@)
                    &&& spec_tree_hash(g.tree@) == gi.group_context.tree_hash
                    &&& g.context@ == gi.group_context
                    &&& 2 * gi.signer < g.tree@.nodes.len()
                    &&& (g.tree@.nodes[2 * gi.signer as int] matches NodeSlotV::Leaf(kp)
                        && (kp.credential matches CredentialV::Basic(b) && ed25519_verify_of(
                        b.signature_key,
                        gi.signature,
                        crate::framing::spec_group_info_tbs(gi),
                    )))
                },
                Err(ExternalClientError::GroupError(e)) => {
                    &&& (!(group_info@.payload is GroupInfo) ==> e == GroupError::Malformed)
                    &&& (group_info@.payload
                        matches crate::message::MLSMessagePayloadV::GroupInfo(gi) ==> {
                        &&& (e == GroupError::MissingRatchetTree <==> tree_data is None)
                        &&& e == GroupError::MissingRatchetTree || e == GroupError::Malformed || e
                            == GroupError::TreeHashMismatch || e == GroupError::InvalidSignature
                        &&& (e == GroupError::TreeHashMismatch ==> (tree_data
                            matches Some(bytes) && crate::tree::spec_decoded_tree_hash_differs(
                            bytes@,
                            gi.group_context.tree_hash,
                        )))
                        &&& (e == GroupError::InvalidSignature ==> (tree_data matches Some(bytes)
                            && crate::tree::spec_signer_rejects(bytes@, gi)))
                    })
                },
            },
    {
        let gi = match group_info.into_group_info() {
            Ok(g) => g,
            Err(_) => {
                return Err(ExternalClientError::GroupError(GroupError::Malformed));
            },
        };
        match ExternalGroup::join(&gi, tree_data) {
            Ok(g) => Ok(g),
            Err(e) => Err(ExternalClientError::GroupError(e)),
        }
    }
}

} // verus!
