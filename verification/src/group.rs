use vstd::prelude::*;

use crate::bundle::{resolve_proposals, spec_bundle_valid, validate_bundle, ResolvedProposals};
use crate::codec::{bytes_eq, copy_bytes, enc_u32, spec_enc_u32, views_of, WireCode};
use crate::crypto::{hkdf_extract, hkdf_extract_of, hkdf_expand, hkdf_expand_of, hmac_sha256, CipherSuite};
use crate::framing::{Commit, CommitV, GroupContext, GroupContextV};
use crate::proposal::{
    LeafIndex, PendingProposal, PendingProposalV, Proposal, ProposalOrRef, ProposalRef, ProposalV,
};
use vstd::arithmetic::power2::pow2;
use crate::transcript::{
    spec_confirmation_tag, spec_confirmed_next, spec_interim_next, confirmed_next, interim_next,
    ConfirmationTag,
};
use crate::tree::{
    spec_add_unmerged, spec_blank_ancestors, spec_first_blank, spec_leaf_basic_identity,
    spec_set_slot, spec_tree_hash, wf_tree, NodeSlotV, RatchetTree, RatchetTreeV, TreeError,
};
use crate::treekem::{create_update_path, process_update_path};

verus! {

broadcast use {vstd::seq_lib::group_to_multiset_ensures, vstd::multiset::group_multiset_axioms};

// The epoch state machine: a commit turns the pending proposals into a new,
// globally agreed epoch, all-or-nothing.

/// Why a group operation failed.
#[derive(Clone, Copy, Debug, PartialEq, Eq, Structural)]
pub enum GroupError {
    /// A proposal in the batch is unknown, conflicting or out of place.
    InvalidProposal,
    /// The carried confirmation tag is not the one a correct committer
    /// computes; the commit is rejected and the state untouched.
    ConfirmationTagMismatch,
    /// The exported tree does not hash to the advertised tree hash.
    TreeHashMismatch,
    /// A signature did not verify.
    InvalidSignature,
    /// A tree operation refused the mutation.
    Tree(TreeError),
    /// The group is not in its active state.
    NotActive,
    /// A join needs the group's ratchet tree, and none was given.
    MissingRatchetTree,
    /// The epoch counter cannot grow any further.
    EpochOverflow,
    /// The commit names a sender that cannot have sent it.
    InvalidSender,
    /// Bytes that should decode to a message or tree did not.
    Malformed,
    /// A join needs the group's external key, and none was advertised.
    MissingExternalKey,
}

// ---------------------------------------------------------------------------
// The epoch secret chain.
// ---------------------------------------------------------------------------

pub open spec fn welcome_label() -> Seq<u8> {
    seq![119u8, 101, 108, 99, 111, 109, 101]
}

pub open spec fn epoch_label() -> Seq<u8> {
    seq![101u8, 112, 111, 99, 104]
}

pub open spec fn init_label() -> Seq<u8> {
    seq![105u8, 110, 105, 116]
}

pub open spec fn sender_data_label() -> Seq<u8> {
    seq![115u8, 101, 110, 100, 101, 114]
}

pub open spec fn encryption_label() -> Seq<u8> {
    seq![101u8, 110, 99, 114, 121, 112, 116]
}

pub open spec fn exporter_label() -> Seq<u8> {
    seq![101u8, 120, 112, 111, 114, 116]
}

pub open spec fn confirm_label() -> Seq<u8> {
    seq![99u8, 111, 110, 102, 105, 114, 109]
}

pub open spec fn membership_label() -> Seq<u8> {
    seq![109u8, 101, 109, 98, 101, 114]
}

pub open spec fn resumption_label() -> Seq<u8> {
    seq![114u8, 101, 115, 117, 109, 101]
}

/// The joiner secret: the prior epoch's init secret extracted with the new
/// commit secret.
pub open spec fn spec_joiner_secret(init_prev: Seq<u8>, commit_secret: Seq<u8>) -> Seq<u8> {
    hkdf_extract_of(init_prev, commit_secret)
}

/// The epoch secret, from which every per-purpose secret expands.
pub open spec fn spec_epoch_secret(init_prev: Seq<u8>, commit_secret: Seq<u8>) -> Seq<u8> {
    hkdf_expand_of(spec_joiner_secret(init_prev, commit_secret), epoch_label(), 32)
}

pub open spec fn spec_epoch_sub_secret(
    init_prev: Seq<u8>,
    commit_secret: Seq<u8>,
    label: Seq<u8>,
) -> Seq<u8> {
    hkdf_expand_of(spec_epoch_secret(init_prev, commit_secret), label, 32)
}

/// The per-epoch secrets, one per purpose, all expanded from the epoch
/// secret, which is derived from the commit secret and the prior epoch's
/// init secret.
#[derive(Clone, Debug, PartialEq, Eq)]
pub struct EpochSecrets {
    pub joiner_secret: Vec<u8>,
    pub welcome_secret: Vec<u8>,
    pub epoch_secret: Vec<u8>,
    pub sender_data_secret: Vec<u8>,
    pub encryption_secret: Vec<u8>,
    pub exporter_secret: Vec<u8>,
    pub confirmation_key: Vec<u8>,
    pub membership_key: Vec<u8>,
    pub resumption_secret: Vec<u8>,
    pub init_secret: Vec<u8>,
}

pub struct EpochSecretsV {
    pub joiner_secret: Seq<u8>,
    pub welcome_secret: Seq<u8>,
    pub epoch_secret: Seq<u8>,
    pub sender_data_secret: Seq<u8>,
    pub encryption_secret: Seq<u8>,
    pub exporter_secret: Seq<u8>,
    pub confirmation_key: Seq<u8>,
    pub membership_key: Seq<u8>,
    pub resumption_secret: Seq<u8>,
    pub init_secret: Seq<u8>,
}

impl View for EpochSecrets {
    type V = EpochSecretsV;

    open spec fn view(&self) -> EpochSecretsV {
        EpochSecretsV {
            joiner_secret: self.joiner_secret@,
            welcome_secret: self.welcome_secret@,
            epoch_secret: self.epoch_secret@,
            sender_data_secret: self.sender_data_secret@,
            encryption_secret: self.encryption_secret@,
            exporter_secret: self.exporter_secret@,
            confirmation_key: self.confirmation_key@,
            membership_key: self.membership_key@,
            resumption_secret: self.resumption_secret@,
            init_secret: self.init_secret@,
        }
    }
}

/// What every correctly derived set of epoch secrets looks like, as a
/// function of the prior init secret and the commit secret.
pub open spec fn spec_epoch_secrets(init_prev: Seq<u8>, commit_secret: Seq<u8>) -> EpochSecretsV {
    EpochSecretsV {
        joiner_secret: spec_joiner_secret(init_prev, commit_secret),
        welcome_secret: hkdf_expand_of(
            spec_joiner_secret(init_prev, commit_secret),
            welcome_label(),
            32,
        ),
        epoch_secret: spec_epoch_secret(init_prev, commit_secret),
        sender_data_secret: spec_epoch_sub_secret(init_prev, commit_secret, sender_data_label()),
        encryption_secret: spec_epoch_sub_secret(init_prev, commit_secret, encryption_label()),
        exporter_secret: spec_epoch_sub_secret(init_prev, commit_secret, exporter_label()),
        confirmation_key: spec_epoch_sub_secret(init_prev, commit_secret, confirm_label()),
        membership_key: spec_epoch_sub_secret(init_prev, commit_secret, membership_label()),
        resumption_secret: spec_epoch_sub_secret(init_prev, commit_secret, resumption_label()),
        init_secret: spec_epoch_sub_secret(init_prev, commit_secret, init_label()),
    }
}

fn label_vec_7(a: u8, b: u8, c: u8, d: u8, e: u8, f: u8, g: u8) -> (r: Vec<u8>)
    ensures
        r@ == seq![a, b, c, d, e, f, g],
{
    let mut v: Vec<u8> = Vec::new();
    v.push(a);
    v.push(b);
    v.push(c);
    v.push(d);
    v.push(e);
    v.push(f);
    v.push(g);
    proof {
        assert(v@ =~= seq![a, b, c, d, e, f, g]);
    }
    v
}

fn label_vec_6(a: u8, b: u8, c: u8, d: u8, e: u8, f: u8) -> (r: Vec<u8>)
    ensures
        r@ == seq![a, b, c, d, e, f],
{
    let mut v: Vec<u8> = Vec::new();
    v.push(a);
    v.push(b);
    v.push(c);
    v.push(d);
    v.push(e);
    v.push(f);
    proof {
        assert(v@ =~= seq![a, b, c, d, e, f]);
    }
    v
}

fn label_vec_5(a: u8, b: u8, c: u8, d: u8, e: u8) -> (r: Vec<u8>)
    ensures
        r@ == seq![a, b, c, d, e],
{
    let mut v: Vec<u8> = Vec::new();
    v.push(a);
    v.push(b);
    v.push(c);
    v.push(d);
    v.push(e);
    proof {
        assert(v@ =~= seq![a, b, c, d, e]);
    }
    v
}

fn label_vec_4(a: u8, b: u8, c: u8, d: u8) -> (r: Vec<u8>)
    ensures
        r@ == seq![a, b, c, d],
{
    let mut v: Vec<u8> = Vec::new();
    v.push(a);
    v.push(b);
    v.push(c);
    v.push(d);
    proof {
        assert(v@ =~= seq![a, b, c, d]);
    }
    v
}

/// Derives the whole epoch secret chain from the prior init secret and the
/// commit secret.
pub fn derive_epoch_secrets(init_prev: &Vec<u8>, commit_secret: &Vec<u8>) -> (r: EpochSecrets)
    ensures
        r@ == spec_epoch_secrets(init_prev@, commit_secret@),
        r.init_secret@.len() == 32,
        r.confirmation_key@.len() == 32,
{
    let joiner_secret = hkdf_extract(init_prev.as_slice(), commit_secret.as_slice());
    let wl = label_vec_7(119, 101, 108, 99, 111, 109, 101);
    proof {
        assert(wl@ =~= welcome_label());
    }
    let welcome_secret = hkdf_expand(joiner_secret.as_slice(), wl.as_slice(), 32);
    let el = label_vec_5(101, 112, 111, 99, 104);
    proof {
        assert(el@ =~= epoch_label());
    }
    let epoch_secret = hkdf_expand(joiner_secret.as_slice(), el.as_slice(), 32);
    let sdl = label_vec_6(115, 101, 110, 100, 101, 114);
    proof {
        assert(sdl@ =~= sender_data_label());
    }
    let sender_data_secret = hkdf_expand(epoch_secret.as_slice(), sdl.as_slice(), 32);
    let encl = label_vec_7(101, 110, 99, 114, 121, 112, 116);
    proof {
        assert(encl@ =~= encryption_label());
    }
    let encryption_secret = hkdf_expand(epoch_secret.as_slice(), encl.as_slice(), 32);
    let exl = label_vec_6(101, 120, 112, 111, 114, 116);
    proof {
        assert(exl@ =~= exporter_label());
    }
    let exporter_secret = hkdf_expand(epoch_secret.as_slice(), exl.as_slice(), 32);
    let cl = label_vec_7(99, 111, 110, 102, 105, 114, 109);
    proof {
        assert(cl@ =~= confirm_label());
    }
    let confirmation_key = hkdf_expand(epoch_secret.as_slice(), cl.as_slice(), 32);
    let ml = label_vec_6(109, 101, 109, 98, 101, 114);
    proof {
        assert(ml@ =~= membership_label());
    }
    let membership_key = hkdf_expand(epoch_secret.as_slice(), ml.as_slice(), 32);
    let rl = label_vec_6(114, 101, 115, 117, 109, 101);
    proof {
        assert(rl@ =~= resumption_label());
    }
    let resumption_secret = hkdf_expand(epoch_secret.as_slice(), rl.as_slice(), 32);
    let il = label_vec_4(105, 110, 105, 116);
    proof {
        assert(il@ =~= init_label());
    }
    let init_secret = hkdf_expand(epoch_secret.as_slice(), il.as_slice(), 32);
    EpochSecrets {
        joiner_secret,
        welcome_secret,
        epoch_secret,
        sender_data_secret,
        encryption_secret,
        exporter_secret,
        confirmation_key,
        membership_key,
        resumption_secret,
        init_secret,
    }
}

// ---------------------------------------------------------------------------
// The group.
// ---------------------------------------------------------------------------


// ---------------------------------------------------------------------------
// What applying a resolved batch does to a staged tree, as a function of
// its models: updates, then removes, then adds, each step refusing exactly
// what the tree operations refuse.
// ---------------------------------------------------------------------------

/// One update: the target leaf must be occupied; its key package is
/// replaced and its ancestors are blanked.
pub open spec fn spec_tree_update(t: RatchetTreeV, i: LeafIndex, kp: crate::key_package::KeyPackageV) -> Option<
    RatchetTreeV,
> {
    if 2 * i < t.nodes.len() && t.nodes[2 * i as int] is Leaf {
        Some(
            RatchetTreeV {
                nodes: spec_set_slot(
                    spec_blank_ancestors(t.nodes, i as nat, t.height),
                    2 * i as nat,
                    NodeSlotV::Leaf(kp),
                ),
                height: t.height,
            },
        )
    } else {
        None
    }
}

/// One remove: the target leaf must be occupied; it and its ancestors are
/// blanked.
pub open spec fn spec_tree_remove(t: RatchetTreeV, i: LeafIndex) -> Option<RatchetTreeV> {
    if 2 * i < t.nodes.len() && t.nodes[2 * i as int] is Leaf {
        Some(
            RatchetTreeV {
                nodes: spec_set_slot(
                    spec_blank_ancestors(t.nodes, i as nat, t.height),
                    2 * i as nat,
                    NodeSlotV::Blank,
                ),
                height: t.height,
            },
        )
    } else {
        None
    }
}

/// One add: a bare identity already present refuses the batch; otherwise
/// the first blank leaf takes the package, growing the tree by doubling
/// when full, short of the height cap.
pub open spec fn spec_tree_add_kp(t: RatchetTreeV, kp: crate::key_package::KeyPackageV) -> Option<
    RatchetTreeV,
> {
    let duplicate = match kp.credential {
        crate::credential::CredentialV::Basic(b) => exists|p: int|
            0 <= p < t.nodes.len() && #[trigger] spec_leaf_basic_identity(t.nodes[p]) == Some(
                b.identity,
            ),
        _ => false,
    };
    if duplicate {
        None
    } else if spec_first_blank(t.nodes, 0, pow2(t.height)) is None && t.height >= 30 {
        None
    } else {
        let t1 = if spec_first_blank(t.nodes, 0, pow2(t.height)) is Some {
            t
        } else {
            RatchetTreeV {
                nodes: t.nodes + Seq::new(2 * pow2(t.height), |x: int| NodeSlotV::Blank),
                height: t.height + 1,
            }
        };
        match spec_first_blank(t1.nodes, 0, pow2(t1.height)) {
            Some(idx) => Some(
                RatchetTreeV {
                    nodes: spec_add_unmerged(
                        spec_set_slot(t1.nodes, 2 * idx, NodeSlotV::Leaf(kp)),
                        idx,
                        t1.height,
                    ),
                    height: t1.height,
                },
            ),
            None => None,
        }
    }
}

/// Folding the update proposals over a staged tree, in order.
pub open spec fn spec_apply_updates(t: Option<RatchetTreeV>, s: Seq<PendingProposalV>) -> Option<
    RatchetTreeV,
>
    decreases s.len(),
{
    match t {
        None => None,
        Some(t0) => if s.len() == 0 {
            Some(t0)
        } else {
            match s.first().proposal {
                ProposalV::Update(u) => spec_apply_updates(
                    spec_tree_update(t0, s.first().sender, u.key_package),
                    s.drop_first(),
                ),
                _ => None,
            }
        },
    }
}

/// Folding the remove proposals over a staged tree, in order.
pub open spec fn spec_apply_removes(t: Option<RatchetTreeV>, s: Seq<PendingProposalV>) -> Option<
    RatchetTreeV,
>
    decreases s.len(),
{
    match t {
        None => None,
        Some(t0) => if s.len() == 0 {
            Some(t0)
        } else {
            match s.first().proposal {
                ProposalV::Remove(rm) => spec_apply_removes(
                    spec_tree_remove(t0, rm.to_remove),
                    s.drop_first(),
                ),
                _ => None,
            }
        },
    }
}

/// Folding the add proposals over a staged tree, in order.
pub open spec fn spec_apply_adds(t: Option<RatchetTreeV>, s: Seq<PendingProposalV>) -> Option<
    RatchetTreeV,
>
    decreases s.len(),
{
    match t {
        None => None,
        Some(t0) => if s.len() == 0 {
            Some(t0)
        } else {
            match s.first().proposal {
                ProposalV::Add(a) => spec_apply_adds(
                    spec_tree_add_kp(t0, a.key_package),
                    s.drop_first(),
                ),
                _ => None,
            }
        },
    }
}

/// The whole mutation of one commit: updates, then removes, then adds.
pub open spec fn spec_apply_all(
    t: RatchetTreeV,
    updates: Seq<PendingProposalV>,
    removes: Seq<PendingProposalV>,
    adds: Seq<PendingProposalV>,
) -> Option<RatchetTreeV> {
    spec_apply_adds(spec_apply_removes(spec_apply_updates(Some(t), updates), removes), adds)
}

/// The fold of a batch over a tree, each category in its canonical order.
pub open spec fn spec_canon_fold(t: RatchetTreeV, b: Seq<PendingProposalV>) -> Option<
    RatchetTreeV,
> {
    spec_apply_all(
        t,
        crate::bundle::spec_canon_category(
            b,
            |p: PendingProposalV| crate::bundle::is_update_pending(p),
        ),
        crate::bundle::spec_canon_category(
            b,
            |p: PendingProposalV| crate::bundle::is_remove_pending(p),
        ),
        crate::bundle::spec_canon_category(
            b,
            |p: PendingProposalV| crate::bundle::is_add_pending(p),
        ),
    )
}

/// The tree a commit leaves behind: the canonical fold of the batch, with
/// the carried update path merged at the sender's leaf when there is one.
pub open spec fn spec_committed_tree(
    t0: RatchetTreeV,
    b: Seq<PendingProposalV>,
    sender: LeafIndex,
    path: Option<crate::treekem::UpdatePathV>,
    t: RatchetTreeV,
) -> bool {
    spec_canon_fold(t0, b) matches Some(t1) && (match path {
        Some(up) => t.height == t1.height && t.nodes == crate::tree::spec_set_slot(
            crate::treekem::spec_merge_path(
                t1.nodes,
                sender as nat,
                crate::treekem::spec_path_keys(up),
                t1.height,
            ),
            2 * sender as nat,
            crate::tree::NodeSlotV::Leaf(up.leaf_key_package),
        ),
        None => t == t1,
    })
}

/// Order independence, end to end: one batch of proposals, received in any
/// two orders, resolves to the same canonical lists and therefore mutates a
/// staged tree to the same resulting tree - and so to the same tree hash.
pub proof fn lemma_commit_mutations_order_independent(
    a: Seq<PendingProposalV>,
    b: Seq<PendingProposalV>,
    ua: Seq<PendingProposalV>,
    ub: Seq<PendingProposalV>,
    ra: Seq<PendingProposalV>,
    rb: Seq<PendingProposalV>,
    da: Seq<PendingProposalV>,
    db: Seq<PendingProposalV>,
    t: RatchetTreeV,
)
    requires
        a.to_multiset() == b.to_multiset(),
        forall|e: PendingProposalV| a.to_multiset().contains(e) ==> #[trigger] Proposal::wire_wf(
            e.proposal,
        ),
        crate::bundle::resolved_category(ua, a, |p: PendingProposalV| crate::bundle::is_update_pending(p)),
        crate::bundle::resolved_category(ub, b, |p: PendingProposalV| crate::bundle::is_update_pending(p)),
        crate::bundle::resolved_category(ra, a, |p: PendingProposalV| crate::bundle::is_remove_pending(p)),
        crate::bundle::resolved_category(rb, b, |p: PendingProposalV| crate::bundle::is_remove_pending(p)),
        crate::bundle::resolved_category(da, a, |p: PendingProposalV| crate::bundle::is_add_pending(p)),
        crate::bundle::resolved_category(db, b, |p: PendingProposalV| crate::bundle::is_add_pending(p)),
    ensures
        spec_apply_all(t, ua, ra, da) == spec_apply_all(t, ub, rb, db),
{
    crate::bundle::lemma_resolution_order_independent(
        a,
        b,
        ua,
        ub,
        |p: PendingProposalV| crate::bundle::is_update_pending(p),
    );
    crate::bundle::lemma_resolution_order_independent(
        a,
        b,
        ra,
        rb,
        |p: PendingProposalV| crate::bundle::is_remove_pending(p),
    );
    crate::bundle::lemma_resolution_order_independent(
        a,
        b,
        da,
        db,
        |p: PendingProposalV| crate::bundle::is_add_pending(p),
    );
}

/// The lifecycle of one member's view of a group: one steady state and two
/// terminal ones.
#[derive(Clone, Copy, Debug, PartialEq, Eq, Structural)]
pub enum GroupState {
    Active,
    ReInitPending,
    Removed,
}

/// The content bytes a commit contributes to the transcript: who sent it
/// and what it carries.
pub open spec fn spec_commit_content(sender: LeafIndex, m: CommitV) -> Seq<u8> {
    spec_enc_u32(sender) + Commit::spec_enc(m)
}

/// One member's entire state for one group.
#[derive(Debug)]
pub struct Group {
    pub state: GroupState,
    pub context: GroupContext,
    pub tree: RatchetTree,
    pub interim_transcript_hash: Vec<u8>,
    pub epoch_secrets: EpochSecrets,
    pub my_leaf: LeafIndex,
    pub my_leaf_secret: Vec<u8>,
    pub my_signature_secret: Vec<u8>,
    pub pending_proposals: Vec<(ProposalRef, PendingProposal)>,
}

pub struct GroupV {
    pub state: GroupState,
    pub context: GroupContextV,
    pub tree: crate::tree::RatchetTreeV,
    pub interim_transcript_hash: Seq<u8>,
    pub epoch_secrets: EpochSecretsV,
    pub my_leaf: LeafIndex,
    pub my_leaf_secret: Seq<u8>,
    pub my_signature_secret: Seq<u8>,
    pub pending: Seq<(Seq<u8>, PendingProposalV)>,
}

impl View for Group {
    type V = GroupV;

    open spec fn view(&self) -> GroupV {
        GroupV {
            state: self.state,
            context: self.context@,
            tree: self.tree@,
            interim_transcript_hash: self.interim_transcript_hash@,
            epoch_secrets: self.epoch_secrets@,
            my_leaf: self.my_leaf,
            my_leaf_secret: self.my_leaf_secret@,
            my_signature_secret: self.my_signature_secret@,
            pending: self.pending_proposals@.map_values(
                |e: (ProposalRef, PendingProposal)| (e.0@, e.1@),
            ),
        }
    }
}

/// The first remembered proposal under a reference, if any.
pub open spec fn spec_store_find(
    store: Seq<(Seq<u8>, PendingProposalV)>,
    key: Seq<u8>,
) -> Option<PendingProposalV>
    decreases store.len(),
{
    if store.len() == 0 {
        None
    } else if store[0].0 == key {
        Some(store[0].1)
    } else {
        spec_store_find(store.drop_first(), key)
    }
}

/// What a commit's carried proposals resolve to against the store of
/// remembered proposals: a by-value proposal is the committer's own, a
/// reference is the remembered proposal under that reference, and an
/// unknown reference refuses the batch.
pub open spec fn spec_resolve_refs(
    store: Seq<(Seq<u8>, PendingProposalV)>,
    sender: LeafIndex,
    proposals: Seq<crate::proposal::ProposalOrRefV>,
) -> Option<Seq<PendingProposalV>>
    decreases proposals.len(),
{
    if proposals.len() == 0 {
        Some(Seq::empty())
    } else {
        match spec_resolve_refs(store, sender, proposals.drop_last()) {
            Some(pv) => match proposals.last() {
                crate::proposal::ProposalOrRefV::Proposal(p) => Some(
                    pv.push(PendingProposalV { proposal: p, sender }),
                ),
                crate::proposal::ProposalOrRefV::Reference(key) => match spec_store_find(
                    store,
                    key,
                ) {
                    Some(e) => Some(pv.push(e)),
                    None => None,
                },
            },
            None => None,
        }
    }
}

/// A batch whose prefix already fails to resolve fails as a whole.
pub proof fn lemma_resolve_refs_none_extends(
    store: Seq<(Seq<u8>, PendingProposalV)>,
    sender: LeafIndex,
    proposals: Seq<crate::proposal::ProposalOrRefV>,
    k: int,
)
    requires
        0 <= k <= proposals.len(),
        spec_resolve_refs(store, sender, proposals.take(k)) is None,
    ensures
        spec_resolve_refs(store, sender, proposals) is None,
    decreases proposals.len() - k,
{
    if k == proposals.len() {
        assert(proposals.take(k) =~= proposals);
    } else {
        assert(proposals.take(k + 1).drop_last() =~= proposals.take(k));
        lemma_resolve_refs_none_extends(store, sender, proposals, k + 1);
    }
}

/// Whether a resolved batch carries an external-init proposal.
pub open spec fn spec_has_external_init(s: Seq<PendingProposalV>) -> bool {
    exists|i: int| 0 <= i < s.len() && (#[trigger] s[i].proposal) is ExternalInit
}

/// Whether a resolved batch removes the given leaf.
pub open spec fn spec_removes_member(s: Seq<PendingProposalV>, leaf: LeafIndex) -> bool {
    exists|i: int|
        0 <= i < s.len() && ((#[trigger] s[i].proposal) matches ProposalV::Remove(rm)
            && rm.to_remove == leaf)
}

/// The extension type under which a group advertises its external key: the
/// public half of the epoch's init secret, against which an external commit
/// encapsulates.
pub const EXTERNAL_PUB_EXTENSION_TYPE: u16 = 2;

/// The commit secret a path-free commit derives from: all zeroes.
pub open spec fn spec_zero_commit_secret() -> Seq<u8> {
    Seq::new(32, |i: int| 0u8)
}

/// The batch a commit's carried proposals resolve to; empty when a
/// reference is unknown.
pub open spec fn spec_commit_batch(
    store: Seq<(Seq<u8>, PendingProposalV)>,
    sender: LeafIndex,
    proposals: Seq<crate::proposal::ProposalOrRefV>,
) -> Seq<PendingProposalV> {
    match spec_resolve_refs(store, sender, proposals) {
        Some(b) => b,
        None => Seq::empty(),
    }
}

/// Whether a commit's carried proposals resolve to a batch a regular
/// commit accepts: every reference known, the batch mutually consistent,
/// and no external-init (external commits travel through their own entry
/// point).
pub open spec fn spec_commit_batch_ok(
    store: Seq<(Seq<u8>, PendingProposalV)>,
    sender: LeafIndex,
    proposals: Seq<crate::proposal::ProposalOrRefV>,
) -> bool {
    match spec_resolve_refs(store, sender, proposals) {
        Some(b) => spec_bundle_valid(b) && !spec_has_external_init(b),
        None => false,
    }
}

/// A healthy group: its tree is well shaped and its secrets have the
/// suite's sizes.
pub open spec fn wf_group(g: GroupV) -> bool {
    &&& wf_tree(g.tree)
    &&& g.my_leaf_secret.len() == 32
    &&& g.my_signature_secret.len() == 32
    &&& g.epoch_secrets.init_secret.len() == 32
    &&& g.interim_transcript_hash.len() == 32
}

impl Group {
    /// Remembers a proposal under its reference so that a later commit can
    /// cite it: the store gains exactly one entry, the proposal under the
    /// hash-derived reference of its encoding, and the epoch state does not
    /// change.
    pub fn add_pending_proposal(&mut self, proposal: Proposal, sender: LeafIndex)
        ensures
            final(self)@ == (GroupV {
                pending: old(self)@.pending.push(
                    (
                        crate::hash_reference::spec_ref_of(Proposal::spec_enc(proposal@)),
                        PendingProposalV { proposal: proposal@, sender },
                    ),
                ),
                ..old(self)@
            }),
    {
        let cs = CipherSuite::Curve25519Aes128;
        let ghost before = self@.pending;
        let r = proposal.to_reference(cs);
        self.pending_proposals.push((r, PendingProposal { proposal, sender }));
        proof {
            assert(self@.pending =~= before.push(
                (
                    crate::hash_reference::spec_ref_of(
                        Proposal::spec_enc(self.pending_proposals@.last().1.proposal@),
                    ),
                    self.pending_proposals@.last().1@,
                ),
            ));
        }
    }

    /// The remembered proposal under a reference, if any.
    #[verifier::loop_isolation(false)]
    fn find_pending(&self, key: &ProposalRef) -> (r: Option<PendingProposal>)
        ensures
            match r {
                Some(e) => spec_store_find(self@.pending, key@) == Some(e@),
                None => spec_store_find(self@.pending, key@) is None,
            },
    {
        let ghost store = self@.pending;
        let n = self.pending_proposals.len();
        proof {
            assert(store.len() == n);
            assert(store.skip(0) =~= store);
        }
        let mut j: usize = 0;
        loop
            invariant
                j <= n,
                spec_store_find(store, key@) == spec_store_find(store.skip(j as int), key@),
            decreases n - j,
        {
            if j == n {
                proof {
                    assert(store.skip(n as int) =~= Seq::<(Seq<u8>, PendingProposalV)>::empty());
                }
                return None;
            }
            proof {
                assert(store.skip(j as int)[0] == store[j as int]);
                assert(store[j as int] == (self.pending_proposals@[j as int].0@,
                self.pending_proposals@[j as int].1@));
                assert(store.skip(j as int).drop_first() =~= store.skip(j as int + 1));
            }
            if bytes_eq(
                &self.pending_proposals[j].0.hash_reference.bytes,
                &key.hash_reference.bytes,
            ) {
                let e = &self.pending_proposals[j].1;
                return Some(PendingProposal { proposal: e.proposal.dup(), sender: e.sender });
            }
            j = j + 1;
        }
    }

    /// Turns a commit's carried proposals into pending proposals: by-value
    /// ones are the committer's, references are looked up among the
    /// proposals remembered earlier.  The outcome is exactly the resolution
    /// of the carried proposals against the store: it fails exactly when a
    /// reference is unknown.
    #[verifier::loop_isolation(false)]
    fn resolve_refs(&self, sender: LeafIndex, proposals: &Vec<ProposalOrRef>) -> (r: Result<
        Vec<PendingProposal>,
        GroupError,
    >)
        ensures
            match r {
                Ok(out) => spec_resolve_refs(self@.pending, sender, views_of(proposals@)) == Some(
                    views_of(out@),
                ),
                Err(e) => e == GroupError::InvalidProposal && spec_resolve_refs(
                    self@.pending,
                    sender,
                    views_of(proposals@),
                ) is None,
            },
    {
        let ghost pvs = views_of(proposals@);
        let mut out: Vec<PendingProposal> = Vec::new();
        proof {
            assert(pvs.take(0) =~= Seq::<crate::proposal::ProposalOrRefV>::empty());
            assert(views_of(out@) =~= Seq::<PendingProposalV>::empty());
        }
        let mut k: usize = 0;
        while k < proposals.len()
            invariant
                k <= pvs.len(),
                spec_resolve_refs(self@.pending, sender, pvs.take(k as int)) == Some(
                    views_of(out@),
                ),
            decreases pvs.len() - k,
        {
            proof {
                assert(pvs.take(k as int + 1).drop_last() =~= pvs.take(k as int));
                assert(pvs.take(k as int + 1).last() == proposals@[k as int]@);
            }
            let ghost before = out@;
            match &proposals[k] {
                ProposalOrRef::Proposal(p) => {
                    out.push(PendingProposal { proposal: p.dup(), sender });
                    proof {
                        assert(views_of(out@) =~= views_of(before).push(out@.last()@));
                    }
                },
                ProposalOrRef::Reference(r) => {
                    match self.find_pending(r) {
                        Some(e) => {
                            out.push(e);
                            proof {
                                assert(views_of(out@) =~= views_of(before).push(out@.last()@));
                            }
                        },
                        None => {
                            proof {
                                assert(spec_resolve_refs(
                                    self@.pending,
                                    sender,
                                    pvs.take(k as int + 1),
                                ) is None);
                                lemma_resolve_refs_none_extends(
                                    self@.pending,
                                    sender,
                                    pvs,
                                    k as int + 1,
                                );
                            }
                            return Err(GroupError::InvalidProposal);
                        },
                    }
                },
            }
            k = k + 1;
        }
        proof {
            assert(pvs.take(pvs.len() as int) =~= pvs);
        }
        Ok(out)
    }

    /// Applies a resolved batch to a staged tree: updates, then removes,
    /// then adds, the canonical order, refusing an update or remove of an
    /// unoccupied leaf and an add whose bare identity is already present.
    /// The staged tree that comes back is exactly the fold of the batch over
    /// the tree's model, and the batch is refused exactly when that fold
    /// refuses it.
    #[verifier::rlimit(50)]
    #[verifier::loop_isolation(false)]
    fn apply_resolved(staged: &mut RatchetTree, resolved: &ResolvedProposals) -> (r: Result<
        (),
        GroupError,
    >)
        requires
            wf_tree(old(staged)@),
        ensures
            wf_tree(final(staged)@),
            match r {
                Ok(()) => spec_apply_all(
                    old(staged)@,
                    crate::codec::views_of(resolved.updates@),
                    crate::codec::views_of(resolved.removes@),
                    crate::codec::views_of(resolved.adds@),
                ) == Some(final(staged)@),
                Err(e) => e == GroupError::InvalidProposal && spec_apply_all(
                    old(staged)@,
                    crate::codec::views_of(resolved.updates@),
                    crate::codec::views_of(resolved.removes@),
                    crate::codec::views_of(resolved.adds@),
                ) is None,
            },
    {
        let ghost t0 = staged@;
        let ghost uv = crate::codec::views_of(resolved.updates@);
        let ghost rv = crate::codec::views_of(resolved.removes@);
        let ghost av = crate::codec::views_of(resolved.adds@);
        proof {
            assert(uv.skip(0) =~= uv);
        }
        let mut k: usize = 0;
        while k < resolved.updates.len()
            invariant
                k <= uv.len(),
                wf_tree(staged@),
                staged@.height == t0.height,
                spec_apply_updates(Some(t0), uv) == spec_apply_updates(
                    Some(staged@),
                    uv.skip(k as int),
                ),
            decreases uv.len() - k,
        {
            proof {
                assert(uv.skip(k as int).first() == resolved.updates@[k as int]@);
                assert(uv.skip(k as int).drop_first() =~= uv.skip(k as int + 1));
            }
            let kp = match &resolved.updates[k].proposal {
                Proposal::Update(u) => u.key_package.dup(),
                _ => {
                    proof {
                        assert(spec_apply_updates(Some(staged@), uv.skip(k as int)) is None);
                        assert(spec_apply_updates(Some(t0), uv) is None);
                        assert(spec_apply_removes(spec_apply_updates(Some(t0), uv), rv) is None);
                    }
                    return Err(GroupError::InvalidProposal);
                },
            };
            let ghost before = staged@;
            match staged.update(resolved.updates[k].sender, kp) {
                Ok(()) => {
                    proof {
                        assert(spec_tree_update(
                            before,
                            resolved.updates@[k as int].sender,
                            resolved.updates@[k as int]@.proposal->Update_0.key_package,
                        ) == Some(staged@));
                    }
                },
                Err(_) => {
                    proof {
                        assert(spec_tree_update(
                            before,
                            resolved.updates@[k as int].sender,
                            resolved.updates@[k as int]@.proposal->Update_0.key_package,
                        ) is None);
                        assert(spec_apply_updates(None, uv.skip(k as int + 1)) is None);
                        assert(spec_apply_updates(Some(before), uv.skip(k as int)) is None);
                        assert(spec_apply_updates(Some(t0), uv) is None);
                        assert(spec_apply_removes(spec_apply_updates(Some(t0), uv), rv) is None);
                    }
                    return Err(GroupError::InvalidProposal);
                },
            }
            k = k + 1;
        }
        proof {
            assert(uv.skip(uv.len() as int) =~= Seq::<PendingProposalV>::empty());
            assert(spec_apply_updates(Some(t0), uv) == Some(staged@));
            assert(rv.skip(0) =~= rv);
        }
        let ghost t1 = staged@;
        let mut k: usize = 0;
        while k < resolved.removes.len()
            invariant
                k <= rv.len(),
                wf_tree(staged@),
                spec_apply_updates(Some(t0), uv) == Some(t1),
                spec_apply_removes(Some(t1), rv) == spec_apply_removes(
                    Some(staged@),
                    rv.skip(k as int),
                ),
            decreases rv.len() - k,
        {
            proof {
                assert(rv.skip(k as int).first() == resolved.removes@[k as int]@);
                assert(rv.skip(k as int).drop_first() =~= rv.skip(k as int + 1));
            }
            let target = match &resolved.removes[k].proposal {
                Proposal::Remove(rm) => rm.to_remove,
                _ => {
                    proof {
                        assert(spec_apply_removes(Some(staged@), rv.skip(k as int)) is None);
                        assert(spec_apply_removes(Some(t1), rv) is None);
                    }
                    return Err(GroupError::InvalidProposal);
                },
            };
            let ghost before = staged@;
            match staged.remove(target) {
                Ok(()) => {
                    proof {
                        assert(spec_tree_remove(before, target) == Some(staged@));
                    }
                },
                Err(_) => {
                    proof {
                        assert(spec_tree_remove(before, target) is None);
                        assert(spec_apply_removes(None, rv.skip(k as int + 1)) is None);
                        assert(spec_apply_removes(Some(before), rv.skip(k as int)) is None);
                        assert(spec_apply_removes(Some(t1), rv) is None);
                    }
                    return Err(GroupError::InvalidProposal);
                },
            }
            k = k + 1;
        }
        proof {
            assert(rv.skip(rv.len() as int) =~= Seq::<PendingProposalV>::empty());
            assert(spec_apply_removes(Some(t1), rv) == Some(staged@));
            assert(av.skip(0) =~= av);
        }
        let ghost t2 = staged@;
        let mut k: usize = 0;
        while k < resolved.adds.len()
            invariant
                k <= av.len(),
                wf_tree(staged@),
                spec_apply_updates(Some(t0), uv) == Some(t1),
                spec_apply_removes(Some(t1), rv) == Some(t2),
                spec_apply_adds(Some(t2), av) == spec_apply_adds(Some(staged@), av.skip(k as int)),
            decreases av.len() - k,
        {
            proof {
                assert(av.skip(k as int).first() == resolved.adds@[k as int]@);
                assert(av.skip(k as int).drop_first() =~= av.skip(k as int + 1));
            }
            let kp = match &resolved.adds[k].proposal {
                Proposal::Add(a) => a.key_package.dup(),
                _ => {
                    proof {
                        assert(spec_apply_adds(Some(staged@), av.skip(k as int)) is None);
                        assert(spec_apply_adds(Some(t2), av) is None);
                    }
                    return Err(GroupError::InvalidProposal);
                },
            };
            let ghost before = staged@;
            match &kp.credential {
                crate::credential::Credential::Basic(b) => {
                    if staged.has_basic_identity(&b.identity) {
                        proof {
                            assert(spec_tree_add_kp(before, kp@) is None);
                            assert(spec_apply_adds(None, av.skip(k as int + 1)) is None);
                            assert(spec_apply_adds(None, av.skip(k as int + 1)) is None);
                        assert(spec_apply_adds(Some(before), av.skip(k as int)) is None);
                            assert(spec_apply_adds(Some(t2), av) is None);
                        }
                        return Err(GroupError::InvalidProposal);
                    }
                },
                _ => {},
            }
            match staged.add(kp) {
                Ok(_) => {
                    proof {
                        assert(spec_tree_add_kp(
                            before,
                            resolved.adds@[k as int]@.proposal->Add_0.key_package,
                        ) == Some(staged@));
                    }
                },
                Err(_) => {
                    proof {
                        assert(spec_tree_add_kp(
                            before,
                            resolved.adds@[k as int]@.proposal->Add_0.key_package,
                        ) is None);
                        assert(spec_apply_adds(None, av.skip(k as int + 1)) is None);
                        assert(spec_apply_adds(Some(before), av.skip(k as int)) is None);
                        assert(spec_apply_adds(Some(t2), av) is None);
                    }
                    return Err(GroupError::InvalidProposal);
                },
            }
            k = k + 1;
        }
        proof {
            assert(av.skip(av.len() as int) =~= Seq::<PendingProposalV>::empty());
            assert(spec_apply_adds(Some(t2), av) == Some(staged@));
        }
        Ok(())
    }

    /// The commit's contribution to the transcript.
    pub(crate) fn commit_content_bytes(sender: LeafIndex, commit: &Commit) -> (r: Vec<u8>)
        ensures
            r@ == spec_commit_content(sender, commit@),
    {
        let mut out: Vec<u8> = Vec::new();
        enc_u32(&mut out, sender);
        commit.encode(&mut out);
        proof {
            assert(out@ =~= spec_commit_content(sender, commit@));
        }
        out
    }

    /// Processes a received commit for the current epoch: resolves and
    /// validates the batch, applies it to a staged copy of the tree, folds
    /// in the update path, recomputes the transcript, derives the new
    /// epoch's secrets and checks the carried confirmation tag, all before
    /// the staged state replaces the live one.  On any failure the live
    /// state is exactly as before.  On success the epoch has advanced by
    /// exactly one, the stored tree hash is the recomputation over the new
    /// tree, and the carried tag is the one a correct committer computes
    /// over the new transcript under the new confirmation key.
    /// Processes a received commit for the current epoch: resolves and
    /// validates the batch, applies it to a staged copy of the tree, folds
    /// in the update path, recomputes the transcript, derives the new
    /// epoch's secrets and checks the carried confirmation tag, all before
    /// the staged state replaces the live one.  Acceptance implies the
    /// batch was valid; an inactive state or an invalid batch forces
    /// rejection; and a valid path-free commit whose carried tag is the
    /// derived one is owed acceptance.  A batch that removes this member
    /// ends its view of the group instead of advancing it.  On any failure
    /// the live state is exactly as before.
    #[verifier::rlimit(50)]
    pub fn process_commit(
        &mut self,
        sender: LeafIndex,
        commit: &Commit,
        confirmation_tag: &ConfirmationTag,
    ) -> (r: Result<(), GroupError>)
        requires
            wf_group(old(self)@),
        ensures
            ({
                let b = spec_commit_batch(old(self)@.pending, sender, commit@.proposals);
                match r {
                    Ok(()) => old(self)@.state == GroupState::Active && spec_commit_batch_ok(
                        old(self)@.pending,
                        sender,
                        commit@.proposals,
                    ) && if spec_removes_member(b, old(self)@.my_leaf) {
                        final(self)@ == (GroupV {
                            state: GroupState::Removed,
                            pending: Seq::empty(),
                            ..old(self)@
                        })
                    } else {
                        &&& final(self)@.state != GroupState::Removed
                        &&& final(self)@.context.epoch == old(self)@.context.epoch + 1
                        &&& final(self)@.context.tree_hash == spec_tree_hash(final(self)@.tree)
                        &&& wf_group(final(self)@)
                        &&& spec_committed_tree(
                            old(self)@.tree,
                            b,
                            sender,
                            commit@.path,
                            final(self)@.tree,
                        )
                        &&& final(self)@.context.confirmed_transcript_hash == spec_confirmed_next(
                            old(self)@.interim_transcript_hash,
                            spec_commit_content(sender, commit@),
                        )
                        &&& confirmation_tag@ == spec_confirmation_tag(
                            final(self)@.epoch_secrets.confirmation_key,
                            final(self)@.context.confirmed_transcript_hash,
                        )
                        &&& final(self)@.interim_transcript_hash == spec_interim_next(
                            final(self)@.context.confirmed_transcript_hash,
                            confirmation_tag@,
                        )
                        &&& final(self)@.context.group_id == old(self)@.context.group_id
                        &&& final(self)@.context.cipher_suite == old(self)@.context.cipher_suite
                        &&& final(self)@.context.protocol_version == old(
                            self,
                        )@.context.protocol_version
                        &&& final(self)@.my_leaf == old(self)@.my_leaf
                    },
                    Err(_) => final(self)@ == old(self)@,
                }
            }),
            !(old(self)@.state == GroupState::Active && spec_commit_batch_ok(
                old(self)@.pending,
                sender,
                commit@.proposals,
            )) ==> r is Err,
            ({
                let b = spec_commit_batch(old(self)@.pending, sender, commit@.proposals);
                (old(self)@.state == GroupState::Active && spec_commit_batch_ok(
                    old(self)@.pending,
                    sender,
                    commit@.proposals,
                ) && !spec_removes_member(b, old(self)@.my_leaf) && commit@.path is None
                    && spec_canon_fold(old(self)@.tree, b) is Some && old(self)@.context.epoch
                    < u64::MAX && confirmation_tag@
                    == spec_confirmation_tag(
                    spec_epoch_secrets(
                        old(self)@.epoch_secrets.init_secret,
                        spec_zero_commit_secret(),
                    ).confirmation_key,
                    spec_confirmed_next(
                        old(self)@.interim_transcript_hash,
                        spec_commit_content(sender, commit@),
                    ),
                )) ==> r is Ok
            }),
    {
        let ghost b = spec_commit_batch(old(self)@.pending, sender, commit@.proposals);
        if !matches!(self.state, GroupState::Active) {
            return Err(GroupError::NotActive);
        }
        let pendings = match self.resolve_refs(sender, &commit.proposals) {
            Ok(p) => p,
            Err(e) => {
                return Err(e);
            },
        };
        proof {
            assert(b == views_of(pendings@));
            assert forall|i: int| 0 <= i < b.len() implies #[trigger] Proposal::wire_wf(
                b[i].proposal,
            ) by {
                assert(b[i] == pendings@[i]@);
                pendings@[i].proposal.lemma_wf();
            }
        }
        if !validate_bundle(&pendings) {
            return Err(GroupError::InvalidProposal);
        }
        let resolved = resolve_proposals(&pendings);
        if resolved.external_inits.len() > 0 {
            proof {
                let ev = views_of(resolved.external_inits@);
                assert(ev[0] == resolved.external_inits@[0]@);
                assert(ev.contains(ev[0]));
                assert(ev.to_multiset().contains(ev[0]));
                assert(crate::bundle::fms(
                    b,
                    |p: PendingProposalV| crate::bundle::is_external_init_pending(p),
                ).contains(ev[0]));
                crate::bundle::lemma_fms_contains(
                    b,
                    |p: PendingProposalV| crate::bundle::is_external_init_pending(p),
                );
                assert(b.contains(ev[0]));
                let i = choose|i: int| 0 <= i < b.len() && b[i] == ev[0];
                assert(b[i].proposal is ExternalInit);
            }
            return Err(GroupError::InvalidProposal);
        }
        proof {
            // no external-init in the batch: one would have surfaced in the
            // resolved category
            if spec_has_external_init(b) {
                let i = choose|i: int|
                    0 <= i < b.len() && (#[trigger] b[i].proposal) is ExternalInit;
                crate::bundle::lemma_fms_contains_element(
                    b,
                    |p: PendingProposalV| crate::bundle::is_external_init_pending(p),
                    i,
                );
                assert(views_of(resolved.external_inits@).to_multiset().contains(b[i]));
                assert(views_of(resolved.external_inits@).contains(b[i]));
                assert(false);
            }
            // the resolved categories are the canonical ones
            crate::bundle::lemma_canon_category(
                views_of(resolved.updates@),
                b,
                |p: PendingProposalV| crate::bundle::is_update_pending(p),
            );
            crate::bundle::lemma_canon_category(
                views_of(resolved.removes@),
                b,
                |p: PendingProposalV| crate::bundle::is_remove_pending(p),
            );
            crate::bundle::lemma_canon_category(
                views_of(resolved.adds@),
                b,
                |p: PendingProposalV| crate::bundle::is_add_pending(p),
            );
        }
        let mut staged = self.tree.dup();
        match Self::apply_resolved(&mut staged, &resolved) {
            Ok(()) => {},
            Err(e) => {
                return Err(e);
            },
        }
        let mut removed_me = false;
        let ghost rv = views_of(resolved.removes@);
        let mut k: usize = 0;
        while k < resolved.removes.len()
            invariant
                k <= rv.len(),
                rv.len() == resolved.removes@.len(),
                forall|j: int| 0 <= j < rv.len() ==> #[trigger] rv[j] == resolved.removes@[j]@,
                removed_me == exists|j: int|
                    0 <= j < k && ((#[trigger] rv[j].proposal) matches ProposalV::Remove(rm)
                        && rm.to_remove == old(self)@.my_leaf),
            decreases resolved.removes@.len() - k,
        {
            proof {
                assert(rv[k as int] == resolved.removes@[k as int]@);
            }
            match &resolved.removes[k].proposal {
                Proposal::Remove(rm) => {
                    if rm.to_remove == self.my_leaf {
                        removed_me = true;
                        proof {
                            assert((rv[k as int].proposal matches ProposalV::Remove(r2)
                                && r2.to_remove == old(self)@.my_leaf));
                        }
                    } else {
                        proof {
                            assert(!(rv[k as int].proposal matches ProposalV::Remove(r2)
                                && r2.to_remove == old(self)@.my_leaf));
                        }
                    }
                },
                _ => {
                    proof {
                        assert(!(rv[k as int].proposal is Remove));
                    }
                },
            }
            k = k + 1;
        }
        proof {
            // the scan's verdict is exactly whether the batch removes this
            // member
            if removed_me {
                let j = choose|j: int|
                    0 <= j < rv.len() && ((#[trigger] rv[j].proposal) matches ProposalV::Remove(rm)
                        && rm.to_remove == old(self)@.my_leaf);
                assert(rv.contains(rv[j]));
                assert(rv.to_multiset().contains(rv[j]));
                crate::bundle::lemma_fms_contains(
                    b,
                    |p: PendingProposalV| crate::bundle::is_remove_pending(p),
                );
                assert(b.contains(rv[j]));
                let i = choose|i: int| 0 <= i < b.len() && b[i] == rv[j];
                assert(spec_removes_member(b, old(self)@.my_leaf));
            } else {
                if spec_removes_member(b, old(self)@.my_leaf) {
                    let i = choose|i: int|
                        0 <= i < b.len() && ((#[trigger] b[i].proposal)
                            matches ProposalV::Remove(rm) && rm.to_remove == old(self)@.my_leaf);
                    crate::bundle::lemma_fms_contains_element(
                        b,
                        |p: PendingProposalV| crate::bundle::is_remove_pending(p),
                        i,
                    );
                    assert(rv.to_multiset().contains(b[i]));
                    assert(rv.contains(b[i]));
                    let j = choose|j: int| 0 <= j < rv.len() && rv[j] == b[i];
                    assert(false);
                }
            }
        }
        if removed_me {
            // The batch removes this member: the view of the group ends
            // here, without the new epoch's secrets, which a removed member
            // can no longer derive.
            self.state = GroupState::Removed;
            self.pending_proposals = Vec::new();
            proof {
                assert(self@.pending =~= Seq::<(Seq<u8>, PendingProposalV)>::empty());
            }
            return Ok(());
        }
        let commit_secret: Vec<u8> = match &commit.path {
            Some(path) => {
                if sender == self.my_leaf {
                    return Err(GroupError::InvalidSender);
                }
                let cs = match process_update_path(
                    &staged,
                    self.my_leaf,
                    &self.my_leaf_secret,
                    sender,
                    path,
                ) {
                    Ok(c) => c,
                    Err(e) => {
                        return Err(GroupError::Tree(e));
                    },
                };
                match staged.merge_update_path(sender, path) {
                    Ok(()) => {},
                    Err(e) => {
                        return Err(GroupError::Tree(e));
                    },
                }
                cs
            },
            None => {
                let mut z: Vec<u8> = Vec::new();
                let mut k: usize = 0;
                while k < 32
                    invariant
                        k <= 32,
                        z@ == Seq::new(k as nat, |i: int| 0u8),
                    decreases 32 - k,
                {
                    z.push(0);
                    proof {
                        assert(z@ =~= Seq::new((k + 1) as nat, |i: int| 0u8));
                    }
                    k = k + 1;
                }
                z
            },
        };
        let new_epoch = match self.context.epoch.checked_add(1) {
            Some(e) => e,
            None => {
                return Err(GroupError::EpochOverflow);
            },
        };
        let content = Self::commit_content_bytes(sender, commit);
        let confirmed_new = confirmed_next(&self.interim_transcript_hash, &content);
        let tree_hash_new = staged.tree_hash();
        let secrets_new = derive_epoch_secrets(&self.epoch_secrets.init_secret, &commit_secret);
        let recomputed = hmac_sha256(
            secrets_new.confirmation_key.as_slice(),
            confirmed_new.as_slice(),
        );
        if !bytes_eq(&recomputed, &confirmation_tag.bytes) {
            proof {
                if commit@.path is None {
                    assert(commit_secret@ == spec_zero_commit_secret());
                }
            }
            return Err(GroupError::ConfirmationTagMismatch);
        }
        let interim_new = interim_next(&confirmed_new, &confirmation_tag.bytes);
        let new_state = if resolved.reinits.len() > 0 {
            GroupState::ReInitPending
        } else {
            GroupState::Active
        };
        if resolved.gces.len() > 0 {
            match &resolved.gces[0].proposal {
                Proposal::GroupContextExtensions(e) => {
                    self.context.extensions = e.dup();
                },
                _ => {},
            }
        }
        self.state = new_state;
        self.context.epoch = new_epoch;
        self.context.tree_hash = tree_hash_new;
        self.context.confirmed_transcript_hash = confirmed_new;
        self.tree = staged;
        self.interim_transcript_hash = interim_new;
        self.epoch_secrets = secrets_new;
        self.pending_proposals = Vec::new();
        Ok(())
    }

    /// Commits a batch of proposals as the member at `my_leaf`: applies them
    /// to a staged tree, builds a fresh update path, recomputes the
    /// transcript and secrets, computes the confirmation tag and swaps the
    /// staged state in.  Acceptance implies the batch was valid; an
    /// inactive state or an invalid batch forces rejection; and a valid
    /// batch whose staged tree offers well-sized sealing keys is owed
    /// acceptance.  On failure the live state is exactly as before.
    #[verifier::rlimit(50)]
    pub fn create_commit(
        &mut self,
        proposals: Vec<ProposalOrRef>,
        new_leaf_key_package: crate::key_package::KeyPackage,
        new_leaf_secret: Vec<u8>,
    ) -> (r: Result<(Commit, ConfirmationTag), GroupError>)
        requires
            wf_group(old(self)@),
            new_leaf_secret@.len() == 32,
        ensures
            ({
                let b = spec_commit_batch(
                    old(self)@.pending,
                    old(self)@.my_leaf,
                    views_of(proposals@),
                );
                match r {
                    Ok((commit, tag)) => {
                        &&& old(self)@.state == GroupState::Active
                        &&& spec_commit_batch_ok(
                            old(self)@.pending,
                            old(self)@.my_leaf,
                            views_of(proposals@),
                        )
                        &&& commit@.proposals == views_of(proposals@)
                        &&& commit@.path is Some
                        &&& final(self)@.context.epoch == old(self)@.context.epoch + 1
                        &&& final(self)@.context.tree_hash == spec_tree_hash(final(self)@.tree)
                        &&& wf_group(final(self)@)
                        &&& spec_committed_tree(
                            old(self)@.tree,
                            b,
                            old(self)@.my_leaf,
                            commit@.path,
                            final(self)@.tree,
                        )
                        &&& final(self)@.context.confirmed_transcript_hash == spec_confirmed_next(
                            old(self)@.interim_transcript_hash,
                            spec_commit_content(old(self)@.my_leaf, commit@),
                        )
                        &&& tag@ == spec_confirmation_tag(
                            final(self)@.epoch_secrets.confirmation_key,
                            final(self)@.context.confirmed_transcript_hash,
                        )
                        &&& final(self)@.interim_transcript_hash == spec_interim_next(
                            final(self)@.context.confirmed_transcript_hash,
                            tag@,
                        )
                        &&& final(self)@.context.group_id == old(self)@.context.group_id
                        &&& final(self)@.context.cipher_suite == old(self)@.context.cipher_suite
                        &&& final(self)@.my_leaf == old(self)@.my_leaf
                    },
                    Err(_) => final(self)@ == old(self)@,
                }
            }),
            !(old(self)@.state == GroupState::Active && spec_commit_batch_ok(
                old(self)@.pending,
                old(self)@.my_leaf,
                views_of(proposals@),
            )) ==> r is Err,
            ({
                let b = spec_commit_batch(
                    old(self)@.pending,
                    old(self)@.my_leaf,
                    views_of(proposals@),
                );
                let folded = spec_canon_fold(old(self)@.tree, b);
                (old(self)@.state == GroupState::Active && spec_commit_batch_ok(
                    old(self)@.pending,
                    old(self)@.my_leaf,
                    views_of(proposals@),
                ) && (folded matches Some(t1) && (old(self)@.my_leaf as nat) < pow2(t1.height)
                    && crate::treekem::spec_sealing_keys_ok(
                    t1.nodes,
                    t1.height,
                    old(self)@.my_leaf as nat,
                )) && old(self)@.context.epoch < u64::MAX) ==> r is Ok
            }),
    {
        let ghost b = spec_commit_batch(old(self)@.pending, old(self)@.my_leaf, views_of(proposals@));
        if !matches!(self.state, GroupState::Active) {
            return Err(GroupError::NotActive);
        }
        let sender = self.my_leaf;
        let pendings = match self.resolve_refs(sender, &proposals) {
            Ok(p) => p,
            Err(e) => {
                return Err(e);
            },
        };
        proof {
            assert(b == views_of(pendings@));
            assert forall|i: int| 0 <= i < b.len() implies #[trigger] Proposal::wire_wf(
                b[i].proposal,
            ) by {
                assert(b[i] == pendings@[i]@);
                pendings@[i].proposal.lemma_wf();
            }
        }
        if !validate_bundle(&pendings) {
            return Err(GroupError::InvalidProposal);
        }
        let resolved = resolve_proposals(&pendings);
        if resolved.external_inits.len() > 0 {
            proof {
                let ev = views_of(resolved.external_inits@);
                assert(ev[0] == resolved.external_inits@[0]@);
                assert(ev.contains(ev[0]));
                assert(crate::bundle::fms(
                    b,
                    |p: PendingProposalV| crate::bundle::is_external_init_pending(p),
                ).contains(ev[0]));
                crate::bundle::lemma_fms_contains(
                    b,
                    |p: PendingProposalV| crate::bundle::is_external_init_pending(p),
                );
                assert(b.contains(ev[0]));
                let i = choose|i: int| 0 <= i < b.len() && b[i] == ev[0];
                assert(b[i].proposal is ExternalInit);
            }
            return Err(GroupError::InvalidProposal);
        }
        proof {
            if spec_has_external_init(b) {
                let i = choose|i: int|
                    0 <= i < b.len() && (#[trigger] b[i].proposal) is ExternalInit;
                crate::bundle::lemma_fms_contains_element(
                    b,
                    |p: PendingProposalV| crate::bundle::is_external_init_pending(p),
                    i,
                );
                assert(views_of(resolved.external_inits@).to_multiset().contains(b[i]));
                assert(views_of(resolved.external_inits@).contains(b[i]));
                assert(false);
            }
            crate::bundle::lemma_canon_category(
                views_of(resolved.updates@),
                b,
                |p: PendingProposalV| crate::bundle::is_update_pending(p),
            );
            crate::bundle::lemma_canon_category(
                views_of(resolved.removes@),
                b,
                |p: PendingProposalV| crate::bundle::is_remove_pending(p),
            );
            crate::bundle::lemma_canon_category(
                views_of(resolved.adds@),
                b,
                |p: PendingProposalV| crate::bundle::is_add_pending(p),
            );
        }
        let mut staged = self.tree.dup();
        match Self::apply_resolved(&mut staged, &resolved) {
            Ok(()) => {},
            Err(e) => {
                return Err(e);
            },
        }
        let (path, commit_secret) = match create_update_path(
            &staged,
            sender,
            &new_leaf_key_package,
            &new_leaf_secret,
        ) {
            Ok(p) => p,
            Err(e) => {
                return Err(GroupError::Tree(e));
            },
        };
        match staged.merge_update_path(sender, &path) {
            Ok(()) => {},
            Err(e) => {
                return Err(GroupError::Tree(e));
            },
        }
        let new_epoch = match self.context.epoch.checked_add(1) {
            Some(e) => e,
            None => {
                return Err(GroupError::EpochOverflow);
            },
        };
        let commit = Commit { proposals, path: Some(path) };
        let content = Self::commit_content_bytes(sender, &commit);
        let confirmed_new = confirmed_next(&self.interim_transcript_hash, &content);
        let tree_hash_new = staged.tree_hash();
        let secrets_new = derive_epoch_secrets(&self.epoch_secrets.init_secret, &commit_secret);
        let tag_bytes = hmac_sha256(
            secrets_new.confirmation_key.as_slice(),
            confirmed_new.as_slice(),
        );
        let tag = ConfirmationTag { bytes: tag_bytes };
        let interim_new = interim_next(&confirmed_new, &tag.bytes);
        if resolved.gces.len() > 0 {
            match &resolved.gces[0].proposal {
                Proposal::GroupContextExtensions(e) => {
                    self.context.extensions = e.dup();
                },
                _ => {},
            }
        }
        self.state = if resolved.reinits.len() > 0 {
            GroupState::ReInitPending
        } else {
            GroupState::Active
        };
        self.context.epoch = new_epoch;
        self.context.tree_hash = tree_hash_new;
        self.context.confirmed_transcript_hash = confirmed_new;
        self.tree = staged;
        self.interim_transcript_hash = interim_new;
        self.epoch_secrets = secrets_new;
        self.my_leaf_secret = new_leaf_secret;
        self.pending_proposals = Vec::new();
        Ok((commit, tag))
    }
}

impl Group {
    /// Exports what an external joiner needs: the group's context, the
    /// current confirmation tag, the external key - the public half of this
    /// epoch's init secret - and the member's signature over all of it.
    pub fn group_info(&self) -> (r: crate::framing::GroupInfo)
        requires
            wf_group(self@),
        ensures
            r@.group_context == self@.context,
            r@.signer == self@.my_leaf,
            r@.confirmation_tag == spec_confirmation_tag(
                self@.epoch_secrets.confirmation_key,
                self@.context.confirmed_transcript_hash,
            ),
            r@.extensions.len() == 1 && r@.extensions[0].extension_type
                == EXTERNAL_PUB_EXTENSION_TYPE && r@.extensions[0].extension_data
                == crate::crypto::x25519_public_of(self@.epoch_secrets.init_secret),
            crate::crypto::ed25519_verify_of(
                crate::crypto::ed25519_public_of(self.my_signature_secret@),
                r@.signature,
                crate::framing::spec_group_info_tbs(r@),
            ),
    {
        let external_pub = crate::crypto::x25519_public(self.epoch_secrets.init_secret.as_slice());
        let mut extensions = crate::extension::ExtensionList::new();
        extensions.extensions.push(
            crate::extension::Extension {
                extension_type: EXTERNAL_PUB_EXTENSION_TYPE,
                extension_data: external_pub,
            },
        );
        let tag_bytes = hmac_sha256(
            self.epoch_secrets.confirmation_key.as_slice(),
            self.context.confirmed_transcript_hash.as_slice(),
        );
        let mut gi = crate::framing::GroupInfo {
            group_context: self.context.dup(),
            extensions,
            confirmation_tag: ConfirmationTag { bytes: tag_bytes },
            signer: self.my_leaf,
            signature: Vec::new(),
        };
        let tbs = gi.signable_content();
        let sig = crate::crypto::ed25519_sign(self.my_signature_secret.as_slice(), tbs.as_slice());
        gi.write_signature(sig);
        proof {
            assert(gi@.extensions =~= seq![
                crate::extension::ExtensionV {
                    extension_type: EXTERNAL_PUB_EXTENSION_TYPE,
                    extension_data: crate::crypto::x25519_public_of(
                        self@.epoch_secrets.init_secret,
                    ),
                },
            ]);
        }
        gi
    }

    /// Processes an external commit: an outsider's restricted commit that
    /// carries exactly one external-init proposal and an update path from
    /// the leaf the outsider takes.  The member derives the join's shared
    /// secret from its own init secret and the carried encapsulation, so
    /// both ends feed the same secret into the new epoch.  On success the
    /// epoch advances by exactly one and the carried tag is the derived
    /// one; on any failure the live state is exactly as before.
    pub fn process_external_commit(
        &mut self,
        commit: &Commit,
        confirmation_tag: &ConfirmationTag,
    ) -> (r: Result<(), GroupError>)
        requires
            wf_group(old(self)@),
        ensures
            match r {
                Ok(()) => {
                    &&& old(self)@.state == GroupState::Active
                    &&& commit@.proposals.len() == 1
                    &&& commit@.proposals[0] matches crate::proposal::ProposalOrRefV::Proposal(
                        p,
                    ) && p is ExternalInit
                    &&& commit@.path is Some
                    &&& final(self)@.context.epoch == old(self)@.context.epoch + 1
                    &&& final(self)@.context.tree_hash == spec_tree_hash(final(self)@.tree)
                    &&& wf_group(final(self)@)
                    &&& confirmation_tag@ == spec_confirmation_tag(
                        final(self)@.epoch_secrets.confirmation_key,
                        final(self)@.context.confirmed_transcript_hash,
                    )
                    &&& final(self)@.interim_transcript_hash == spec_interim_next(
                        final(self)@.context.confirmed_transcript_hash,
                        confirmation_tag@,
                    )
                    &&& final(self)@.context.group_id == old(self)@.context.group_id
                    &&& final(self)@.my_leaf == old(self)@.my_leaf
                },
                Err(_) => final(self)@ == old(self)@,
            },
            old(self)@.state != GroupState::Active ==> r is Err,
            !(commit@.proposals.len() == 1 && (commit@.proposals[0]
                matches crate::proposal::ProposalOrRefV::Proposal(p) && p is ExternalInit)
                && commit@.path is Some) ==> r is Err,
    {
        if !matches!(self.state, GroupState::Active) {
            return Err(GroupError::NotActive);
        }
        if commit.proposals.len() != 1 {
            return Err(GroupError::InvalidProposal);
        }
        let kem_output: &Vec<u8> = match &commit.proposals[0] {
            ProposalOrRef::Proposal(Proposal::ExternalInit(e)) => &e.kem_output,
            _ => {
                return Err(GroupError::InvalidProposal);
            },
        };
        if kem_output.len() != 32 {
            return Err(GroupError::Malformed);
        }
        let path = match &commit.path {
            Some(p) => p,
            None => {
                return Err(GroupError::InvalidProposal);
            },
        };
        let mut staged = self.tree.dup();
        let joiner_leaf = match staged.add(path.leaf_key_package.dup()) {
            Ok(i) => i,
            Err(e) => {
                return Err(GroupError::Tree(e));
            },
        };
        let cs = match process_update_path(
            &staged,
            self.my_leaf,
            &self.my_leaf_secret,
            joiner_leaf,
            path,
        ) {
            Ok(c) => c,
            Err(e) => {
                return Err(GroupError::Tree(e));
            },
        };
        match staged.merge_update_path(joiner_leaf, path) {
            Ok(()) => {},
            Err(e) => {
                return Err(GroupError::Tree(e));
            },
        }
        let new_epoch = match self.context.epoch.checked_add(1) {
            Some(e) => e,
            None => {
                return Err(GroupError::EpochOverflow);
            },
        };
        let shared = crate::crypto::x25519_dh(
            self.epoch_secrets.init_secret.as_slice(),
            kem_output.as_slice(),
        );
        let content = Self::commit_content_bytes(joiner_leaf, commit);
        let confirmed_new = confirmed_next(&self.interim_transcript_hash, &content);
        let tree_hash_new = staged.tree_hash();
        let secrets_new = derive_epoch_secrets(&shared, &cs);
        let recomputed = hmac_sha256(
            secrets_new.confirmation_key.as_slice(),
            confirmed_new.as_slice(),
        );
        if !bytes_eq(&recomputed, &confirmation_tag.bytes) {
            return Err(GroupError::ConfirmationTagMismatch);
        }
        let interim_new = interim_next(&confirmed_new, &confirmation_tag.bytes);
        self.context.epoch = new_epoch;
        self.context.tree_hash = tree_hash_new;
        self.context.confirmed_transcript_hash = confirmed_new;
        self.tree = staged;
        self.interim_transcript_hash = interim_new;
        self.epoch_secrets = secrets_new;
        self.pending_proposals = Vec::new();
        Ok(())
    }
}

// ---------------------------------------------------------------------------
// Group creation.
// ---------------------------------------------------------------------------

fn zeros(n: usize) -> (r: Vec<u8>)
    ensures
        r@ == Seq::new(n as nat, |i: int| 0u8),
{
    let mut v: Vec<u8> = Vec::new();
    let mut k: usize = 0;
    while k < n
        invariant
            k <= n,
            v@ == Seq::new(k as nat, |i: int| 0u8),
        decreases n - k,
    {
        v.push(0);
        proof {
            assert(v@ =~= Seq::new((k + 1) as nat, |i: int| 0u8));
        }
        k = k + 1;
    }
    v
}

/// Builds a fresh key package for one member: fresh random encryption and
/// signing keys, a bare identity, and the self-signature over the content.
pub fn generate_member(identity: Vec<u8>) -> (r: Result<
    (crate::key_package::KeyPackage, Vec<u8>, Vec<u8>),
    GroupError,
>)
    ensures
        match r {
            Ok((kp, leaf_secret, sig_secret)) => leaf_secret@.len() == 32 && sig_secret@.len()
                == 32 && kp@.hpke_init_key == crate::crypto::x25519_public_of(leaf_secret@),
            Err(_) => false,
        },
{
    let leaf_secret = crate::crypto::random_bytes(32);
    let sig_secret = crate::crypto::random_bytes(32);
    let hpke_init_key = crate::crypto::x25519_public(leaf_secret.as_slice());
    let sig_public = crate::crypto::ed25519_public(sig_secret.as_slice());
    let credential = match crate::credential::BasicCredential::new(
        identity,
        crate::credential::SignatureScheme::Ed25519,
        sig_public,
    ) {
        Ok(c) => c.into_credential(),
        Err(_) => {
            proof {
                assert(false);
            }
            return Err(GroupError::InvalidProposal);
        },
    };
    let mut kp = crate::key_package::KeyPackage {
        version: 1,
        cipher_suite: 1,
        hpke_init_key,
        credential,
        lifetime: crate::lifetime::Lifetime::new(0, u64::MAX),
        extensions: crate::extension::ExtensionList::new(),
        signature: Vec::new(),
    };
    kp.sign(&sig_secret);
    Ok((kp, leaf_secret, sig_secret))
}

impl Group {
    /// Builds a fresh group of `identities.len()` members out of band: one
    /// shared tree and context, and one state per member holding that
    /// member's own secrets.  Every member starts at epoch zero with the
    /// same context.  Succeeds exactly when the member count is within the
    /// bootstrap cap.
    #[verifier::loop_isolation(false)]
    pub fn bootstrap_group(cipher_suite: CipherSuite, group_id: Vec<u8>, identities: Vec<Vec<u8>>)
        -> (r: Result<Vec<Group>, GroupError>)
        ensures
            match r {
                Ok(groups) => {
                    &&& identities@.len() <= 1024
                    &&& groups@.len() == identities@.len()
                    &&& forall|i: int|
                        0 <= i < groups@.len() ==> wf_group(#[trigger] groups@[i]@) && groups@[i]@.context.epoch
                            == 0 && groups@[i]@.my_leaf == i && groups@[i]@.state
                            == GroupState::Active
                    &&& forall|i: int|
                        0 <= i < groups@.len() ==> (#[trigger] groups@[i]@).context == groups@[0]@.context
                            && groups@[i]@.tree == groups@[0]@.tree
                            && groups@[i]@.interim_transcript_hash
                            == groups@[0]@.interim_transcript_hash && groups@[i]@.epoch_secrets
                            == groups@[0]@.epoch_secrets
                },
                Err(e) => e == GroupError::Tree(TreeError::Capacity) && identities@.len() > 1024,
            },
    {
        let _ = cipher_suite;
        if identities.len() > 1024 {
            return Err(GroupError::Tree(TreeError::Capacity));
        }
        let n = identities.len();
        let mut key_packages: Vec<crate::key_package::KeyPackage> = Vec::new();
        let mut leaf_secrets: Vec<Vec<u8>> = Vec::new();
        let mut sig_secrets: Vec<Vec<u8>> = Vec::new();
        let mut k: usize = 0;
        while k < n
            invariant
                k <= n,
                key_packages@.len() == k,
                leaf_secrets@.len() == k,
                sig_secrets@.len() == k,
                forall|i: int| 0 <= i < k ==> (#[trigger] leaf_secrets@[i])@.len() == 32,
                forall|i: int| 0 <= i < k ==> (#[trigger] sig_secrets@[i])@.len() == 32,
            decreases n - k,
        {
            let (kp, ls, ss) = match generate_member(copy_bytes(&identities[k])) {
                Ok(t) => t,
                Err(_) => {
                    proof {
                        assert(false);
                    }
                    return Err(GroupError::Tree(TreeError::Capacity));
                },
            };
            key_packages.push(kp);
            leaf_secrets.push(ls);
            sig_secrets.push(ss);
            k = k + 1;
        }
        // The smallest height whose leaf row holds every member.
        let mut height: usize = 0;
        let mut cap: u64 = 1;
        proof {
            vstd::arithmetic::power2::lemma2_to64();
        }
        while (cap as usize) < n
            invariant
                height <= 10,
                cap as nat == pow2(height as nat),
                cap as nat >= 1,
                height > 0 ==> pow2((height - 1) as nat) < n,
                n <= 1024,
            decreases 11 - height,
        {
            proof {
                vstd::arithmetic::power2::lemma_pow2_adds(height as nat, 1);
                vstd::arithmetic::power2::lemma2_to64();
                if height >= 10 {
                    vstd::arithmetic::power2::lemma_pow2_strictly_increases(10, height as nat);
                    assert(false);
                }
            }
            cap = 2 * cap;
            height = height + 1;
        }
        let width = 2 * (cap as usize) - 1;
        let mut nodes: Vec<crate::tree::NodeSlot> = Vec::new();
        let mut filled: usize = 0;
        let mut p: usize = 0;
        while p < width
            invariant
                p <= width,
                width == 2 * pow2(height as nat) - 1,
                nodes@.len() == p,
                filled == if p >= 2 * n {
                    n as int
                } else {
                    ((p + 1) / 2) as int
                },
                key_packages@.len() + filled == n,
                forall|q: int|
                    0 <= q < p && q % 2 == 0 && q / 2 < n ==> (#[trigger] views_of(nodes@)[q])
                        is Leaf,
                forall|q: int|
                    0 <= q < p && (q % 2 == 1 || q / 2 >= n) ==> (#[trigger] views_of(nodes@)[q])
                        is Blank,
            decreases width - p,
        {
            let ghost before = nodes@;
            if p % 2 == 0 && p / 2 < n {
                let kp = key_packages.remove(0);
                nodes.push(crate::tree::NodeSlot::Leaf(kp));
                filled = filled + 1;
            } else {
                nodes.push(crate::tree::NodeSlot::Blank);
            }
            proof {
                assert forall|q: int| 0 <= q < p + 1 && q % 2 == 0 && q / 2 < n implies (
                #[trigger] views_of(nodes@)[q]) is Leaf by {
                    if q < p {
                        assert(views_of(nodes@)[q] == views_of(before)[q]);
                    }
                }
                assert forall|q: int| 0 <= q < p + 1 && (q % 2 == 1 || q / 2 >= n) implies (
                #[trigger] views_of(nodes@)[q]) is Blank by {
                    if q < p {
                        assert(views_of(nodes@)[q] == views_of(before)[q]);
                    }
                }
            }
            p = p + 1;
        }
        let tree = RatchetTree { nodes, height };
        proof {
            assert(n <= pow2(height as nat));
            assert forall|q: int|
                0 <= q < tree@.nodes.len() && q % 2 == 0 implies !crate::tree::is_parent_slot(
                #[trigger] tree@.nodes[q],
            ) by {}
            assert forall|q: int|
                0 <= q < tree@.nodes.len() && q % 2 == 1 implies !crate::tree::is_leaf_slot(
                #[trigger] tree@.nodes[q],
            ) by {}
            assert(wf_tree(tree@));
        }
        let tree_hash = tree.tree_hash();
        let confirmed = zeros(32);
        let z = zeros(32);
        let secrets = derive_epoch_secrets(&z, &z);
        let tag0 = hmac_sha256(secrets.confirmation_key.as_slice(), confirmed.as_slice());
        let interim = interim_next(&confirmed, &tag0);
        let context = GroupContext {
            group_id,
            protocol_version: 1,
            cipher_suite: 1,
            epoch: 0,
            tree_hash,
            confirmed_transcript_hash: confirmed,
            extensions: crate::extension::ExtensionList::new(),
        };
        let mut groups: Vec<Group> = Vec::new();
        let mut k: usize = 0;
        while k < n
            invariant
                k <= n,
                n <= 1024,
                leaf_secrets@.len() == n,
                sig_secrets@.len() == n,
                forall|i: int| 0 <= i < n ==> (#[trigger] leaf_secrets@[i])@.len() == 32,
                forall|i: int| 0 <= i < n ==> (#[trigger] sig_secrets@[i])@.len() == 32,
                wf_tree(tree@),
                interim@.len() == 32,
                secrets.init_secret@.len() == 32,
                groups@.len() == k,
                forall|i: int|
                    0 <= i < k ==> wf_group(#[trigger] groups@[i]@) && groups@[i]@.context.epoch == 0
                        && groups@[i]@.my_leaf == i && groups@[i]@.state == GroupState::Active,
                forall|i: int|
                    0 <= i < k ==> (#[trigger] groups@[i]@).context == context@ && groups@[i]@.tree
                        == tree@ && groups@[i]@.interim_transcript_hash == interim@
                        && groups@[i]@.epoch_secrets == secrets@,
            decreases n - k,
        {
            let g = Group {
                state: GroupState::Active,
                context: context.dup(),
                tree: tree.dup(),
                interim_transcript_hash: copy_bytes(&interim),
                epoch_secrets: EpochSecrets {
                    joiner_secret: copy_bytes(&secrets.joiner_secret),
                    welcome_secret: copy_bytes(&secrets.welcome_secret),
                    epoch_secret: copy_bytes(&secrets.epoch_secret),
                    sender_data_secret: copy_bytes(&secrets.sender_data_secret),
                    encryption_secret: copy_bytes(&secrets.encryption_secret),
                    exporter_secret: copy_bytes(&secrets.exporter_secret),
                    confirmation_key: copy_bytes(&secrets.confirmation_key),
                    membership_key: copy_bytes(&secrets.membership_key),
                    resumption_secret: copy_bytes(&secrets.resumption_secret),
                    init_secret: copy_bytes(&secrets.init_secret),
                },
                my_leaf: k as LeafIndex,
                my_leaf_secret: copy_bytes(&leaf_secrets[k]),
                my_signature_secret: copy_bytes(&sig_secrets[k]),
                pending_proposals: Vec::new(),
            };
            groups.push(g);
            k = k + 1;
        }
        Ok(groups)
    }
}

/// A pair of member states of one group: the member that commits and the
/// member that receives, as used when exercising a group end to end.
#[derive(Debug)]
pub struct GroupStates {
    pub sender: Group,
    pub receiver: Group,
}

/// Builds `count` fresh two-member groups, each pair sharing one group
/// state: the first member as the committing side, the second as the
/// receiving side.  It always succeeds.
#[verifier::loop_isolation(false)]
pub fn load_group_states(cipher_suite: CipherSuite, count: usize) -> (r: Result<
    Vec<GroupStates>,
    GroupError,
>)
    ensures
        r matches Ok(v) && v@.len() == count && forall|i: int|
            0 <= i < v@.len() ==> wf_group((#[trigger] v@[i]).sender@) && wf_group(
                v@[i].receiver@,
            ) && v@[i].sender@.context == v@[i].receiver@.context,
{
    let mut out: Vec<GroupStates> = Vec::new();
    let mut k: usize = 0;
    while k < count
        invariant
            k <= count,
            out@.len() == k,
            forall|i: int|
                0 <= i < k ==> wf_group((#[trigger] out@[i]).sender@) && wf_group(
                    out@[i].receiver@,
                ) && out@[i].sender@.context == out@[i].receiver@.context,
        decreases count - k,
    {
        let mut ids: Vec<Vec<u8>> = Vec::new();
        let mut a: Vec<u8> = Vec::new();
        a.push(115);
        a.push(k as u8);
        ids.push(a);
        let mut b: Vec<u8> = Vec::new();
        b.push(114);
        b.push(k as u8);
        ids.push(b);
        let mut gid: Vec<u8> = Vec::new();
        gid.push(103);
        gid.push(k as u8);
        let mut groups = match Group::bootstrap_group(cipher_suite, gid, ids) {
            Ok(g) => g,
            Err(_) => {
                proof {
                    assert(false);
                }
                return Err(GroupError::Tree(TreeError::Capacity));
            },
        };
        let receiver = match groups.pop() {
            Some(g) => g,
            None => {
                proof {
                    assert(false);
                }
                return Err(GroupError::Tree(TreeError::Capacity));
            },
        };
        let sender = match groups.pop() {
            Some(g) => g,
            None => {
                proof {
                    assert(false);
                }
                return Err(GroupError::Tree(TreeError::Capacity));
            },
        };
        out.push(GroupStates { sender, receiver });
        k = k + 1;
    }
    Ok(out)
}

} // verus!
