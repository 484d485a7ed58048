use vstd::prelude::*;

use vstd::arithmetic::power2::{lemma2_to64, lemma_pow2_pos, lemma_pow2_strictly_increases, pow2};

use crate::codec::{
    copy_bytes, dec_bytes, decode_list, dup_list, enc_bytes, encode_list, fits_wire_len,
    lemma_rt_bytes, lemma_rt_list, lemma_split2, lemma_views_update, spec_dec_bytes, spec_dec_list,
    spec_enc_bytes, spec_enc_list, views_of, wire_wf_items, WireCode,
};
use crate::crypto::{
    aes128_gcm_open, aes128_gcm_open_of, aes128_gcm_seal, aes128_gcm_seal_of, hkdf_expand,
    hkdf_expand_of, random_bytes, x25519_dh, x25519_public, x25519_public_of, x25519_shared_of,
};
use crate::key_package::{KeyPackage, KeyPackageV};
use crate::proposal::LeafIndex;
use crate::tree::{
    lemma_resolution_nonblank, spec_resolution_at, spec_set_slot, wf_tree, NodeSlot, NodeSlotV,
    ParentNode, ParentNodeV, RatchetTree, TreeError,
};
use crate::tree_math::{
    ancestor, lemma_ancestor_in_width, lemma_level_base_fits, level_base, pow2_u64, spec_ancestor,
    spec_copath_base, spec_level_base, spec_width,
};

verus! {

// The TreeKEM secret schedule: a committer samples a fresh path secret,
// derives one secret per level of its direct path by a one-way step, and
// seals each level's secret to the resolution of the co-path subtree at
// that level.  Every other member opens exactly one ciphertext and derives
// the same chain from there up; the secret one step past the root is the
// commit secret.

/// The bytes of the derivation label for the next path secret.
pub open spec fn path_label() -> Seq<u8> {
    seq![112u8, 97, 116, 104]
}

/// The bytes of the derivation label for a node's key-pair secret.
pub open spec fn node_label() -> Seq<u8> {
    seq![110u8, 111, 100, 101]
}

/// The bytes of the derivation label for a sealing key.
pub open spec fn key_label() -> Seq<u8> {
    seq![107u8, 101, 121]
}

/// The all-zero nonce; every sealing key is used once.
pub open spec fn zero_nonce() -> Seq<u8> {
    Seq::new(12, |i: int| 0u8)
}

/// One one-way step of the path-secret chain.
pub open spec fn spec_path_step(secret: Seq<u8>) -> Seq<u8> {
    hkdf_expand_of(secret, path_label(), 32)
}

/// The chain after `n` steps from `start`.
pub open spec fn spec_path_chain(start: Seq<u8>, n: nat) -> Seq<u8>
    decreases n,
{
    if n == 0 {
        start
    } else {
        spec_path_step(spec_path_chain(start, (n - 1) as nat))
    }
}

/// The secret a node's key pair is derived from.
pub open spec fn spec_node_secret(path_secret: Seq<u8>) -> Seq<u8> {
    hkdf_expand_of(path_secret, node_label(), 32)
}

/// The public key of the node whose path secret is given.
pub open spec fn spec_node_public(path_secret: Seq<u8>) -> Seq<u8> {
    x25519_public_of(spec_node_secret(path_secret))
}

/// The sealing key derived from a shared secret.
pub open spec fn spec_seal_key(shared: Seq<u8>) -> Seq<u8> {
    hkdf_expand_of(shared, key_label(), 16)
}

/// Chains compose: deriving `b` more steps after `a` steps is deriving
/// `a + b` steps.  This is why a member that recovers the committer's path
/// secret at any level derives the identical commit secret: both ends run
/// the same one-way chain from there.
pub proof fn lemma_path_chain_compose(start: Seq<u8>, a: nat, b: nat)
    ensures
        spec_path_chain(spec_path_chain(start, a), b) == spec_path_chain(start, (a + b) as nat),
    decreases b,
{
    if b == 0 {
    } else {
        lemma_path_chain_compose(start, a, (b - 1) as nat);
    }
}

pub fn path_label_vec() -> (r: Vec<u8>)
    ensures
        r@ == path_label(),
{
    let mut v: Vec<u8> = Vec::new();
    v.push(112);
    v.push(97);
    v.push(116);
    v.push(104);
    proof {
        assert(v@ =~= path_label());
    }
    v
}

pub fn node_label_vec() -> (r: Vec<u8>)
    ensures
        r@ == node_label(),
{
    let mut v: Vec<u8> = Vec::new();
    v.push(110);
    v.push(111);
    v.push(100);
    v.push(101);
    proof {
        assert(v@ =~= node_label());
    }
    v
}

pub fn key_label_vec() -> (r: Vec<u8>)
    ensures
        r@ == key_label(),
{
    let mut v: Vec<u8> = Vec::new();
    v.push(107);
    v.push(101);
    v.push(121);
    proof {
        assert(v@ =~= key_label());
    }
    v
}

pub fn zero_nonce_vec() -> (r: Vec<u8>)
    ensures
        r@ == zero_nonce(),
{
    let mut v: Vec<u8> = Vec::new();
    let mut k: usize = 0;
    while k < 12
        invariant
            k <= 12,
            v@ == Seq::new(k as nat, |i: int| 0u8),
        decreases 12 - k,
    {
        v.push(0);
        proof {
            assert(v@ =~= Seq::new((k + 1) as nat, |i: int| 0u8));
        }
        k = k + 1;
    }
    v
}

/// One step of the path-secret chain, executably.
pub fn path_step(secret: &Vec<u8>) -> (r: Vec<u8>)
    requires
        secret@.len() == 32,
    ensures
        r@ == spec_path_step(secret@),
        r@.len() == 32,
{
    let label = path_label_vec();
    hkdf_expand(secret.as_slice(), label.as_slice(), 32)
}

/// The chain after `n` steps, executably.
pub fn path_chain(start: &Vec<u8>, n: usize) -> (r: Vec<u8>)
    requires
        start@.len() == 32,
    ensures
        r@ == spec_path_chain(start@, n as nat),
        r@.len() == 32,
{
    let mut r = copy_bytes(start);
    let mut k: usize = 0;
    while k < n
        invariant
            k <= n,
            r@ == spec_path_chain(start@, k as nat),
            r@.len() == 32,
        decreases n - k,
    {
        r = path_step(&r);
        k = k + 1;
    }
    r
}

/// The node secret of a path secret, executably.
pub fn node_secret(path_secret: &Vec<u8>) -> (r: Vec<u8>)
    requires
        path_secret@.len() == 32,
    ensures
        r@ == spec_node_secret(path_secret@),
        r@.len() == 32,
{
    let label = node_label_vec();
    hkdf_expand(path_secret.as_slice(), label.as_slice(), 32)
}

/// The node public key of a path secret, executably.
pub fn node_public(path_secret: &Vec<u8>) -> (r: Vec<u8>)
    requires
        path_secret@.len() == 32,
    ensures
        r@ == spec_node_public(path_secret@),
        r@.len() == 32,
{
    let ns = node_secret(path_secret);
    x25519_public(ns.as_slice())
}

/// One sealed path secret: the sender's ephemeral public key and the
/// ciphertext.
#[derive(Clone, Debug, PartialEq, Eq)]
pub struct HpkeCiphertext {
    pub kem_output: Vec<u8>,
    pub ciphertext: Vec<u8>,
}

pub struct HpkeCiphertextV {
    pub kem_output: Seq<u8>,
    pub ciphertext: Seq<u8>,
}

impl View for HpkeCiphertext {
    type V = HpkeCiphertextV;

    open spec fn view(&self) -> HpkeCiphertextV {
        HpkeCiphertextV { kem_output: self.kem_output@, ciphertext: self.ciphertext@ }
    }
}

impl WireCode for HpkeCiphertext {
    open spec fn spec_enc(m: HpkeCiphertextV) -> Seq<u8> {
        spec_enc_bytes(m.kem_output) + spec_enc_bytes(m.ciphertext)
    }

    open spec fn spec_dec(s: Seq<u8>, i: int) -> Option<(HpkeCiphertextV, int)> {
        match spec_dec_bytes(s, i) {
            Some((ko, j)) => match spec_dec_bytes(s, j) {
                Some((ct, k)) => Some((HpkeCiphertextV { kem_output: ko, ciphertext: ct }, k)),
                None => None,
            },
            None => None,
        }
    }

    open spec fn wire_wf(m: HpkeCiphertextV) -> bool {
        fits_wire_len(m.kem_output.len()) && fits_wire_len(m.ciphertext.len())
    }

    proof fn lemma_rt(pre: Seq<u8>, m: HpkeCiphertextV, suf: Seq<u8>) {
        let e1 = spec_enc_bytes(m.kem_output);
        let e2 = spec_enc_bytes(m.ciphertext);
        lemma_split2(pre, e1, e2, suf);
        lemma_rt_bytes(pre, m.kem_output, e2 + suf);
        lemma_rt_bytes(pre + e1, m.ciphertext, suf);
    }

    proof fn lemma_wf(&self) {
        crate::codec::lemma_vec_fits(&self.kem_output);
        crate::codec::lemma_vec_fits(&self.ciphertext);
    }

    fn dup(&self) -> (r: Self) {
        HpkeCiphertext {
            kem_output: copy_bytes(&self.kem_output),
            ciphertext: copy_bytes(&self.ciphertext),
        }
    }

    fn encode(&self, out: &mut Vec<u8>) {
        enc_bytes(out, &self.kem_output);
        enc_bytes(out, &self.ciphertext);
        proof {
            assert(out@ =~= old(out)@ + Self::spec_enc(self@));
        }
    }

    fn decode(s: &Vec<u8>, i: usize) -> (r: Option<(Self, usize)>) {
        match dec_bytes(s, i) {
            Some((kem_output, j)) => match dec_bytes(s, j) {
                Some((ciphertext, k)) => Some((HpkeCiphertext { kem_output, ciphertext }, k)),
                None => None,
            },
            None => None,
        }
    }
}

/// Seals `pt` to `public_key` under a given ephemeral secret: the shared
/// secret of the ephemeral pair and the recipient's key derives the sealing
/// key.  Deterministic in its arguments; opening the result under the same
/// shared secret gives `pt` back.
pub fn seal_with(eph_secret: &Vec<u8>, public_key: &Vec<u8>, pt: &Vec<u8>) -> (r: HpkeCiphertext)
    requires
        eph_secret@.len() == 32,
        public_key@.len() == 32,
        pt@.len() <= 0x10000000,
    ensures
        r.kem_output@ == x25519_public_of(eph_secret@),
        r.ciphertext@ == aes128_gcm_seal_of(
            spec_seal_key(x25519_shared_of(x25519_public_of(eph_secret@), public_key@)),
            zero_nonce(),
            pt@,
        ),
        aes128_gcm_open_of(
            spec_seal_key(x25519_shared_of(x25519_public_of(eph_secret@), public_key@)),
            zero_nonce(),
            r.ciphertext@,
        ) == Some(pt@),
        aes128_gcm_open_of(
            spec_seal_key(x25519_shared_of(public_key@, x25519_public_of(eph_secret@))),
            zero_nonce(),
            r.ciphertext@,
        ) == Some(pt@),
        r.kem_output@.len() == 32,
        r.ciphertext@.len() == pt@.len() + 16,
{
    let kem_output = x25519_public(eph_secret.as_slice());
    let shared = x25519_dh(eph_secret.as_slice(), public_key.as_slice());
    let label = key_label_vec();
    let key = hkdf_expand(shared.as_slice(), label.as_slice(), 16);
    let nonce = zero_nonce_vec();
    let ciphertext = aes128_gcm_seal(key.as_slice(), nonce.as_slice(), pt.as_slice());
    HpkeCiphertext { kem_output, ciphertext }
}

/// Opens a sealed secret with the recipient's private key.  The verdict and
/// the plaintext are functions of the key and the ciphertext alone.
pub fn open_with(secret_key: &Vec<u8>, ct: &HpkeCiphertext) -> (r: Option<Vec<u8>>)
    requires
        secret_key@.len() == 32,
    ensures
        match r {
            Some(pt) => ct.kem_output@.len() == 32 && aes128_gcm_open_of(
                spec_seal_key(x25519_shared_of(x25519_public_of(secret_key@), ct.kem_output@)),
                zero_nonce(),
                ct.ciphertext@,
            ) == Some(pt@),
            None => ct.kem_output@.len() != 32 || aes128_gcm_open_of(
                spec_seal_key(x25519_shared_of(x25519_public_of(secret_key@), ct.kem_output@)),
                zero_nonce(),
                ct.ciphertext@,
            ) is None,
        },
{
    if ct.kem_output.len() != 32 {
        return None;
    }
    let shared = x25519_dh(secret_key.as_slice(), ct.kem_output.as_slice());
    let label = key_label_vec();
    let key = hkdf_expand(shared.as_slice(), label.as_slice(), 16);
    let nonce = zero_nonce_vec();
    aes128_gcm_open(key.as_slice(), nonce.as_slice(), ct.ciphertext.as_slice())
}

/// One level of an update path: the new public key at that node and the
/// level's path secret sealed to each member of the co-path resolution.
#[derive(Clone, Debug, PartialEq, Eq)]
pub struct UpdatePathNode {
    pub public_key: Vec<u8>,
    pub encrypted_path_secrets: Vec<HpkeCiphertext>,
}

pub struct UpdatePathNodeV {
    pub public_key: Seq<u8>,
    pub encrypted_path_secrets: Seq<HpkeCiphertextV>,
}

impl View for UpdatePathNode {
    type V = UpdatePathNodeV;

    open spec fn view(&self) -> UpdatePathNodeV {
        UpdatePathNodeV {
            public_key: self.public_key@,
            encrypted_path_secrets: views_of(self.encrypted_path_secrets@),
        }
    }
}

impl WireCode for UpdatePathNode {
    open spec fn spec_enc(m: UpdatePathNodeV) -> Seq<u8> {
        spec_enc_bytes(m.public_key) + spec_enc_list::<HpkeCiphertext>(m.encrypted_path_secrets)
    }

    open spec fn spec_dec(s: Seq<u8>, i: int) -> Option<(UpdatePathNodeV, int)> {
        match spec_dec_bytes(s, i) {
            Some((pk, j)) => match spec_dec_list::<HpkeCiphertext>(s, j) {
                Some((cts, k)) => Some(
                    (UpdatePathNodeV { public_key: pk, encrypted_path_secrets: cts }, k),
                ),
                None => None,
            },
            None => None,
        }
    }

    open spec fn wire_wf(m: UpdatePathNodeV) -> bool {
        fits_wire_len(m.public_key.len()) && wire_wf_items::<HpkeCiphertext>(
            m.encrypted_path_secrets,
        )
    }

    proof fn lemma_rt(pre: Seq<u8>, m: UpdatePathNodeV, suf: Seq<u8>) {
        let e1 = spec_enc_bytes(m.public_key);
        let e2 = spec_enc_list::<HpkeCiphertext>(m.encrypted_path_secrets);
        lemma_split2(pre, e1, e2, suf);
        lemma_rt_bytes(pre, m.public_key, e2 + suf);
        lemma_rt_list::<HpkeCiphertext>(pre + e1, m.encrypted_path_secrets, suf);
    }

    proof fn lemma_wf(&self) {
        crate::codec::lemma_vec_fits(&self.public_key);
        assert(self.encrypted_path_secrets.len() == self.encrypted_path_secrets@.len());
        assert forall|k: int|
            0 <= k < self@.encrypted_path_secrets.len() implies HpkeCiphertext::wire_wf(
            #[trigger] self@.encrypted_path_secrets[k],
        ) by {
            self.encrypted_path_secrets@[k].lemma_wf();
        }
    }

    fn dup(&self) -> (r: Self) {
        UpdatePathNode {
            public_key: copy_bytes(&self.public_key),
            encrypted_path_secrets: dup_list::<HpkeCiphertext>(&self.encrypted_path_secrets),
        }
    }

    fn encode(&self, out: &mut Vec<u8>) {
        enc_bytes(out, &self.public_key);
        encode_list::<HpkeCiphertext>(&self.encrypted_path_secrets, out);
        proof {
            assert(out@ =~= old(out)@ + Self::spec_enc(self@));
        }
    }

    fn decode(s: &Vec<u8>, i: usize) -> (r: Option<(Self, usize)>) {
        match dec_bytes(s, i) {
            Some((public_key, j)) => match decode_list::<HpkeCiphertext>(s, j) {
                Some((encrypted_path_secrets, k)) => Some(
                    (UpdatePathNode { public_key, encrypted_path_secrets }, k),
                ),
                None => None,
            },
            None => None,
        }
    }
}

/// A committer's whole update path: its fresh leaf and one node per level.
#[derive(Clone, Debug, PartialEq, Eq)]
pub struct UpdatePath {
    pub leaf_key_package: KeyPackage,
    pub nodes: Vec<UpdatePathNode>,
}

pub struct UpdatePathV {
    pub leaf_key_package: KeyPackageV,
    pub nodes: Seq<UpdatePathNodeV>,
}

impl View for UpdatePath {
    type V = UpdatePathV;

    open spec fn view(&self) -> UpdatePathV {
        UpdatePathV { leaf_key_package: self.leaf_key_package@, nodes: views_of(self.nodes@) }
    }
}

impl WireCode for UpdatePath {
    open spec fn spec_enc(m: UpdatePathV) -> Seq<u8> {
        KeyPackage::spec_enc(m.leaf_key_package) + spec_enc_list::<UpdatePathNode>(m.nodes)
    }

    open spec fn spec_dec(s: Seq<u8>, i: int) -> Option<(UpdatePathV, int)> {
        match KeyPackage::spec_dec(s, i) {
            Some((kp, j)) => match spec_dec_list::<UpdatePathNode>(s, j) {
                Some((ns, k)) => Some((UpdatePathV { leaf_key_package: kp, nodes: ns }, k)),
                None => None,
            },
            None => None,
        }
    }

    open spec fn wire_wf(m: UpdatePathV) -> bool {
        KeyPackage::wire_wf(m.leaf_key_package) && wire_wf_items::<UpdatePathNode>(m.nodes)
    }

    proof fn lemma_rt(pre: Seq<u8>, m: UpdatePathV, suf: Seq<u8>) {
        let e1 = KeyPackage::spec_enc(m.leaf_key_package);
        let e2 = spec_enc_list::<UpdatePathNode>(m.nodes);
        lemma_split2(pre, e1, e2, suf);
        KeyPackage::lemma_rt(pre, m.leaf_key_package, e2 + suf);
        lemma_rt_list::<UpdatePathNode>(pre + e1, m.nodes, suf);
    }

    proof fn lemma_wf(&self) {
        self.leaf_key_package.lemma_wf();
        assert(self.nodes.len() == self.nodes@.len());
        assert forall|k: int| 0 <= k < self@.nodes.len() implies UpdatePathNode::wire_wf(
            #[trigger] self@.nodes[k],
        ) by {
            self.nodes@[k].lemma_wf();
        }
    }

    fn dup(&self) -> (r: Self) {
        UpdatePath {
            leaf_key_package: self.leaf_key_package.dup(),
            nodes: dup_list::<UpdatePathNode>(&self.nodes),
        }
    }

    fn encode(&self, out: &mut Vec<u8>) {
        self.leaf_key_package.encode(out);
        encode_list::<UpdatePathNode>(&self.nodes, out);
        proof {
            assert(out@ =~= old(out)@ + Self::spec_enc(self@));
        }
    }

    fn decode(s: &Vec<u8>, i: usize) -> (r: Option<(Self, usize)>) {
        match KeyPackage::decode(s, i) {
            Some((leaf_key_package, j)) => match decode_list::<UpdatePathNode>(s, j) {
                Some((nodes, k)) => Some((UpdatePath { leaf_key_package, nodes }, k)),
                None => None,
            },
            None => None,
        }
    }
}

/// The new public keys of an update path, one per level.
pub open spec fn spec_path_keys(m: UpdatePathV) -> Seq<Seq<u8>> {
    m.nodes.map_values(|n: UpdatePathNodeV| n.public_key)
}

/// The node array with the path keys written at the sender's ancestors up
/// to level `l`, each as a fresh internal node with no unmerged leaves.
pub open spec fn spec_merge_path(
    nodes: Seq<NodeSlotV>,
    i: nat,
    keys: Seq<Seq<u8>>,
    l: nat,
) -> Seq<NodeSlotV>
    decreases l,
{
    if l == 0 {
        nodes
    } else {
        let prev = spec_merge_path(nodes, i, keys, (l - 1) as nat);
        let p = spec_ancestor(i, l);
        if p < prev.len() && l - 1 < keys.len() {
            prev.update(
                p as int,
                NodeSlotV::Parent(
                    ParentNodeV { public_key: keys[l - 1], unmerged_leaves: Seq::empty() },
                ),
            )
        } else {
            prev
        }
    }
}

/// An ancestor position is odd: it is an internal slot.
pub proof fn lemma_ancestor_odd(i: nat, l: nat)
    requires
        l >= 1,
    ensures
        spec_ancestor(i, l) % 2 == 1,
{
    lemma_pow2_pos((l - 1) as nat);
    vstd::arithmetic::power2::lemma_pow2_adds((l - 1) as nat, 1);
    lemma2_to64();
    let b = spec_level_base(i, l);
    let p = pow2((l - 1) as nat);
    assert(spec_ancestor(i, l) == 2 * b + 2 * p - 1);
    assert((2 * b + 2 * p - 1) % 2 == 1) by (nonlinear_arith)
        requires
            b >= 0,
            p >= 1,
    ;
}

/// Merging keeps the length and touches only internal slots.
pub proof fn lemma_merge_path_shape(nodes: Seq<NodeSlotV>, i: nat, keys: Seq<Seq<u8>>, l: nat)
    ensures
        spec_merge_path(nodes, i, keys, l).len() == nodes.len(),
        forall|p: int|
            0 <= p < nodes.len() ==> #[trigger] spec_merge_path(nodes, i, keys, l)[p] == nodes[p]
                || (p % 2 == 1 && spec_merge_path(nodes, i, keys, l)[p] is Parent),
    decreases l,
{
    if l == 0 {
    } else {
        lemma_merge_path_shape(nodes, i, keys, (l - 1) as nat);
        lemma_ancestor_odd(i, l);
    }
}

impl RatchetTree {
    /// Writes an update path into the tree: the sender's leaf is replaced by
    /// the path's fresh leaf and each ancestor becomes a fresh internal node
    /// holding the level's new public key.  Fails exactly when the sender is
    /// out of range or the path does not have one node per level.
    #[verifier::loop_isolation(false)]
    pub fn merge_update_path(&mut self, sender: LeafIndex, path: &UpdatePath) -> (r: Result<
        (),
        TreeError,
    >)
        requires
            wf_tree(old(self)@),
        ensures
            match r {
                Ok(()) => (sender as nat) < pow2(old(self)@.height) && path@.nodes.len()
                    == old(self)@.height && final(self)@.height == old(self)@.height
                    && final(self)@.nodes == spec_set_slot(
                    spec_merge_path(
                        old(self)@.nodes,
                        sender as nat,
                        spec_path_keys(path@),
                        old(self)@.height,
                    ),
                    2 * sender as nat,
                    NodeSlotV::Leaf(path@.leaf_key_package),
                ) && wf_tree(final(self)@),
                Err(e) => e == TreeError::BadTreeData && ((sender as nat) >= pow2(
                    old(self)@.height,
                ) || path@.nodes.len() != old(self)@.height) && final(self)@ == old(self)@,
            },
    {
        let cap = pow2_u64(self.height as u64);
        if (sender as u64) >= cap || path.nodes.len() != self.height {
            return Err(TreeError::BadTreeData);
        }
        let h = self.height;
        let mut l: usize = 0;
        while l < h
            invariant
                l <= h,
                h == self.height,
                wf_tree(old(self)@),
                (sender as nat) < pow2(old(self)@.height),
                path@.nodes.len() == old(self)@.height,
                self@.height == old(self)@.height,
                self@.nodes == spec_merge_path(
                    old(self)@.nodes,
                    sender as nat,
                    spec_path_keys(path@),
                    l as nat,
                ),
            decreases h - l,
        {
            proof {
                lemma_merge_path_shape(
                    old(self)@.nodes,
                    sender as nat,
                    spec_path_keys(path@),
                    l as nat,
                );
                lemma_ancestor_in_width(sender as nat, (l + 1) as nat, old(self)@.height);
                lemma2_to64();
                lemma2_to64_rest_treekem();
                assert(pow2(old(self)@.height) <= pow2(30)) by {
                    if old(self)@.height < 30 {
                        lemma_pow2_strictly_increases(old(self)@.height, 30);
                    }
                }
                lemma_pow2_strictly_increases(30, 62);
            }
            let pos_u = ancestor(sender as u64, (l + 1) as u64);
            proof {
                assert((pos_u as nat) < spec_width(old(self)@.height));
            }
            let pos = pos_u as usize;
            let np = ParentNode {
                public_key: copy_bytes(&path.nodes[l].public_key),
                unmerged_leaves: Vec::new(),
            };
            let ghost before_vec = self.nodes@;
            let ghost before = self@.nodes;
            self.nodes.set(pos, NodeSlot::Parent(np));
            proof {
                lemma_views_update(before_vec, pos as int, self.nodes@[pos as int]);
                assert(spec_path_keys(path@)[l as int] == path@.nodes[l as int].public_key);
                assert(self@.nodes =~= spec_merge_path(
                    old(self)@.nodes,
                    sender as nat,
                    spec_path_keys(path@),
                    (l + 1) as nat,
                ));
            }
            l = l + 1;
        }
        proof {
            lemma_merge_path_shape(
                old(self)@.nodes,
                sender as nat,
                spec_path_keys(path@),
                old(self)@.height,
            );
            lemma_pow2_pos(old(self)@.height);
        }
        proof {
            lemma2_to64();
            lemma2_to64_rest_treekem();
            assert(pow2(old(self)@.height) <= pow2(30)) by {
                if old(self)@.height < 30 {
                    lemma_pow2_strictly_increases(old(self)@.height, 30);
                }
            }
            assert((sender as nat) < 0x40000000);
        }
        let p = 2 * (sender as usize);
        let ghost before_vec = self.nodes@;
        let ghost before = self@.nodes;
        self.nodes.set(p, NodeSlot::Leaf(path.leaf_key_package.dup()));
        proof {
            lemma_views_update(before_vec, p as int, self.nodes@[p as int]);
            assert(self@.nodes =~= spec_set_slot(
                before,
                2 * sender as nat,
                NodeSlotV::Leaf(path@.leaf_key_package),
            ));
        }
        Ok(())
    }
}

/// The base of the co-path subtree at level `l`, executably.
pub fn copath_base(i: u64, l: u64) -> (r: u64)
    requires
        1 <= l <= 30,
        i < pow2(30),
    ensures
        r as nat == spec_copath_base(i as nat, l as nat),
{
    proof {
        lemma2_to64();
        lemma2_to64_rest_treekem();
        lemma_pow2_strictly_increases(30, 62);
    }
    let half = pow2_u64(l - 1);
    let b = level_base(i, l);
    let q = i / half;
    proof {
        lemma_pow2_pos((l - 1) as nat);
        lemma_level_base_fits(i as nat, l as nat, 30);
        lemma_pow2_strictly_increases((l - 1) as nat, 31);
        lemma2_to64();
        lemma2_to64_rest_treekem();
    }
    if q % 2 == 0 {
        b + half
    } else {
        b
    }
}

/// Creating an update path: one fresh chain of path secrets from the
/// committer's leaf secret, the derived public key per level, and the
/// level's secret sealed to every member of the level's co-path resolution.
/// The commit secret is the chain one step past the root.
/// The sealing key a slot offers: a leaf's initial encryption key or an
/// internal node's public key.
pub open spec fn spec_slot_key(n: NodeSlotV) -> Seq<u8> {
    match n {
        NodeSlotV::Leaf(kp) => kp.hpke_init_key,
        NodeSlotV::Parent(p) => p.public_key,
        NodeSlotV::Blank => Seq::empty(),
    }
}

/// Whether every co-path resolution node on the sender's path offers a
/// sealing key of the suite's size.
pub open spec fn spec_sealing_keys_ok(nodes: Seq<NodeSlotV>, height: nat, sender: nat) -> bool {
    forall|l: int, j: int|
        #![trigger spec_resolution_at(nodes, spec_copath_base(sender, l as nat), (l - 1) as nat)[j]]
        1 <= l <= height && 0 <= j < spec_resolution_at(
            nodes,
            spec_copath_base(sender, l as nat),
            (l - 1) as nat,
        ).len() ==> spec_slot_key(
            nodes[spec_resolution_at(nodes, spec_copath_base(sender, l as nat), (l - 1) as nat)[j]],
        ).len() == 32
}

/// What one level of a freshly created update path promises: one sealed
/// secret per co-path resolution member, and each ciphertext opens, under
/// the sealing key of that member's own public key and the carried
/// encapsulation, to the level's path secret.
pub open spec fn spec_level_sealed(
    nodes: Seq<NodeSlotV>,
    sender: nat,
    leaf_secret: Seq<u8>,
    lv: UpdatePathNodeV,
    l: int,
) -> bool {
    let res = spec_resolution_at(nodes, spec_copath_base(sender, (l + 1) as nat), l as nat);
    lv.encrypted_path_secrets.len() == res.len() && forall|j: int|
        0 <= j < res.len() ==> aes128_gcm_open_of(
            spec_seal_key(
                x25519_shared_of(
                    spec_slot_key(nodes[res[j]]),
                    (#[trigger] lv.encrypted_path_secrets[j]).kem_output,
                ),
            ),
            zero_nonce(),
            lv.encrypted_path_secrets[j].ciphertext,
        ) == Some(spec_path_chain(leaf_secret, (l + 1) as nat))
}

/// Creating an update path: one fresh chain of path secrets from the
/// committer's leaf secret, the derived public key per level, and the
/// level's secret sealed to every member of the level's co-path resolution.
/// The commit secret is the chain one step past the root.  It succeeds
/// whenever the sender is a leaf slot and every co-path resolution node
/// offers a key of the suite's size, and each refusal names its cause.
/// Every sealed secret opens, under the key shared between its recipient
/// and the carried encapsulation, to exactly the level's path secret.
#[verifier::loop_isolation(false)]
pub fn create_update_path(
    tree: &RatchetTree,
    sender: LeafIndex,
    leaf_key_package: &KeyPackage,
    leaf_secret: &Vec<u8>,
) -> (r: Result<(UpdatePath, Vec<u8>), TreeError>)
    requires
        wf_tree(tree@),
        leaf_secret@.len() == 32,
    ensures
        match r {
            Ok((path, cs)) => (sender as nat) < pow2(tree@.height) && cs@
                == spec_path_chain(leaf_secret@, (tree@.height + 1) as nat) && ({
                let up = path@;
                up.leaf_key_package == leaf_key_package@ && up.nodes.len() == tree@.height
                    && (forall|l: int|
                    0 <= l < up.nodes.len() ==> #[trigger] up.nodes[l].public_key
                        == spec_node_public(spec_path_chain(leaf_secret@, (l + 1) as nat)))
                    && (forall|l: int|
                    0 <= l < up.nodes.len() ==> spec_level_sealed(
                        tree@.nodes,
                        sender as nat,
                        leaf_secret@,
                        #[trigger] up.nodes[l],
                        l,
                    ))
            }),
            Err(e) => e == TreeError::UnknownLeaf && (sender as nat) >= pow2(tree@.height) || e
                == TreeError::BadTreeData && (sender as nat) < pow2(tree@.height)
                && !spec_sealing_keys_ok(tree@.nodes, tree@.height, sender as nat),
        },
        ((sender as nat) < pow2(tree@.height) && spec_sealing_keys_ok(
            tree@.nodes,
            tree@.height,
            sender as nat,
        )) ==> r is Ok,
{
    proof {
        lemma2_to64();
        lemma2_to64_rest_treekem();
        assert(pow2(tree@.height) <= pow2(30)) by {
            if tree@.height < 30 {
                lemma_pow2_strictly_increases(tree@.height, 30);
            }
        }
    }
    let cap = pow2_u64(tree.height as u64);
    if (sender as u64) >= cap {
        return Err(TreeError::UnknownLeaf);
    }
    let h = tree.height;
    let mut nodes: Vec<UpdatePathNode> = Vec::new();
    let mut secret = copy_bytes(leaf_secret);
    let mut l: usize = 0;
    while l < h
        invariant
            l <= h,
            secret@ == spec_path_chain(leaf_secret@, l as nat),
            secret@.len() == 32,
            nodes@.len() == l,
            forall|x: int|
                0 <= x < nodes@.len() ==> #[trigger] views_of(nodes@)[x].public_key
                    == spec_node_public(spec_path_chain(leaf_secret@, (x + 1) as nat)),
            forall|x: int|
                0 <= x < nodes@.len() ==> spec_level_sealed(
                    tree@.nodes,
                    sender as nat,
                    leaf_secret@,
                    #[trigger] views_of(nodes@)[x],
                    x,
                ),
        decreases h - l,
    {
        secret = path_step(&secret);
        let pk = node_public(&secret);
        proof {
            lemma_level_base_fits(sender as nat, (l + 1) as nat, tree@.height);
            lemma_pow2_pos(l as nat);
            vstd::arithmetic::power2::lemma_pow2_adds(l as nat, 1);
        }
        let cb = copath_base(sender as u64, (l + 1) as u64);
        let ghost sres = spec_resolution_at(
            tree@.nodes,
            spec_copath_base(sender as nat, (l + 1) as nat),
            l as nat,
        );
        proof {
            assert(spec_copath_base(sender as nat, (l + 1) as nat) + pow2(l as nat) <= pow2(
                tree@.height,
            ));
            lemma_resolution_nonblank(
                tree@.nodes,
                spec_copath_base(sender as nat, (l + 1) as nat),
                l as nat,
            );
        }
        let res = tree.resolution(cb, l as u64);
        let mut cts: Vec<HpkeCiphertext> = Vec::new();
        let mut j: usize = 0;
        while j < res.len()
            invariant
                j <= res@.len(),
                res@.len() == sres.len(),
                forall|x: int| 0 <= x < res@.len() ==> #[trigger] res@[x] as int == sres[x],
                secret@ == spec_path_chain(leaf_secret@, (l + 1) as nat),
                secret@.len() == 32,
                cts@.len() == j,
                forall|x: int|
                    0 <= x < cts@.len() ==> aes128_gcm_open_of(
                        spec_seal_key(
                            x25519_shared_of(
                                spec_slot_key(tree@.nodes[sres[x]]),
                                (#[trigger] views_of(cts@)[x]).kem_output,
                            ),
                        ),
                        zero_nonce(),
                        views_of(cts@)[x].ciphertext,
                    ) == Some(spec_path_chain(leaf_secret@, (l + 1) as nat)),
            decreases res@.len() - j,
        {
            let pos = res[j];
            proof {
                assert(res@[j as int] as int == sres[j as int]);
                assert(0 <= sres[j as int] < tree@.nodes.len());
                assert(!(tree@.nodes[sres[j as int]] is Blank));
                assert(tree@.nodes[pos as int] == tree.nodes@[pos as int]@);
            }
            let ghost before_cts = cts@;
            match &tree.nodes[pos] {
                NodeSlot::Leaf(kp) => {
                    proof {
                        assert(spec_slot_key(tree@.nodes[sres[j as int]]) == kp@.hpke_init_key);
                    }
                    if kp.hpke_init_key.len() != 32 {
                        proof {
                            assert(!spec_sealing_keys_ok(
                                tree@.nodes,
                                tree@.height,
                                sender as nat,
                            ));
                        }
                        return Err(TreeError::BadTreeData);
                    }
                    let eph = random_bytes(32);
                    cts.push(seal_with(&eph, &kp.hpke_init_key, &secret));
                },
                NodeSlot::Parent(p) => {
                    proof {
                        assert(spec_slot_key(tree@.nodes[sres[j as int]]) == p@.public_key);
                    }
                    if p.public_key.len() != 32 {
                        proof {
                            assert(!spec_sealing_keys_ok(
                                tree@.nodes,
                                tree@.height,
                                sender as nat,
                            ));
                        }
                        return Err(TreeError::BadTreeData);
                    }
                    let eph = random_bytes(32);
                    cts.push(seal_with(&eph, &p.public_key, &secret));
                },
                NodeSlot::Blank => {
                    // a resolution holds no blank slots
                    proof {
                        assert(false);
                    }
                    return Err(TreeError::BadTreeData);
                },
            }
            proof {
                assert(views_of(cts@) =~= views_of(before_cts).push(cts@.last()@));
            }
            j = j + 1;
        }
        let ghost before_nodes = nodes@;
        nodes.push(UpdatePathNode { public_key: pk, encrypted_path_secrets: cts });
        proof {
            assert(views_of(nodes@) =~= views_of(before_nodes).push(nodes@[nodes@.len() - 1]@));
            assert(spec_level_sealed(
                tree@.nodes,
                sender as nat,
                leaf_secret@,
                views_of(nodes@)[l as int],
                l as int,
            ));
        }
        l = l + 1;
    }
    let commit_secret = path_step(&secret);
    let path = UpdatePath { leaf_key_package: leaf_key_package.dup(), nodes };
    Ok((path, commit_secret))
}

/// The lowest level at or past `l` where two leaves share a subtree; past
/// the root it stops at one above it.
pub open spec fn spec_lca_from(a: nat, b: nat, l: nat, h: nat) -> nat
    decreases h + 1 - l,
    when l <= h + 1
{
    if l > h {
        l
    } else if spec_level_base(a, l) == spec_level_base(b, l) {
        l
    } else {
        spec_lca_from(a, b, (l + 1) as nat, h)
    }
}

/// The first index of a position in a resolution, if it appears.
pub open spec fn spec_index_of_pos(res: Seq<int>, pos: int) -> Option<nat>
    decreases res.len(),
{
    if res.len() == 0 {
        None
    } else if res[0] == pos {
        Some(0)
    } else {
        match spec_index_of_pos(res.drop_first(), pos) {
            Some(i) => Some((i + 1) as nat),
            None => None,
        }
    }
}

/// A scan that stopped at the position after passing only others has found
/// the first index.
proof fn lemma_index_of_found(res: Seq<int>, j: nat, pos: int)
    requires
        j < res.len(),
        forall|x: int| 0 <= x < j ==> res[x] != pos,
        res[j as int] == pos,
    ensures
        spec_index_of_pos(res, pos) == Some(j),
    decreases j,
{
    if j == 0 {
    } else {
        assert forall|x: int| 0 <= x < j - 1 implies res.drop_first()[x] != pos by {
            assert(res.drop_first()[x] == res[x + 1]);
        }
        assert(res.drop_first()[j - 1] == res[j as int]);
        lemma_index_of_found(res.drop_first(), (j - 1) as nat, pos);
    }
}

/// A scan that passed every entry has found no index.
proof fn lemma_index_of_none(res: Seq<int>, pos: int)
    requires
        forall|x: int| 0 <= x < res.len() ==> res[x] != pos,
    ensures
        spec_index_of_pos(res, pos) is None,
    decreases res.len(),
{
    if res.len() == 0 {
    } else {
        assert forall|x: int| 0 <= x < res.drop_first().len() implies res.drop_first()[x]
            != pos by {
            assert(res.drop_first()[x] == res[x + 1]);
        }
        lemma_index_of_none(res.drop_first(), pos);
    }
}

/// Processing an update path as the member at `receiver`: open the one
/// ciphertext addressed to the receiver's own leaf in the co-path
/// resolution at the lowest level shared with the sender, then derive the
/// rest of the chain.  Whatever the opened bytes were, the returned commit
/// secret is exactly the chain derived from them; and when the sender and
/// receiver are distinct leaves, the path has one node per level, the
/// receiver's leaf is addressed, and the addressed ciphertext opens to a
/// suite-sized secret, success is owed.
#[verifier::loop_isolation(false)]
pub fn process_update_path(
    tree: &RatchetTree,
    receiver: LeafIndex,
    receiver_leaf_secret: &Vec<u8>,
    sender: LeafIndex,
    path: &UpdatePath,
) -> (r: Result<Vec<u8>, TreeError>)
    requires
        wf_tree(tree@),
        receiver_leaf_secret@.len() == 32,
    ensures
        match r {
            Ok(cs) => exists|l: int, j: int, ps: Seq<u8>|
                #![trigger path@.nodes[l - 1].encrypted_path_secrets[j], spec_path_chain(ps, (tree@.height + 1 - l) as nat)]
                1 <= l <= tree@.height && 0 <= j && ps.len() == 32 && 0 <= l - 1
                    < path@.nodes.len() && j < path@.nodes[l - 1].encrypted_path_secrets.len()
                    && aes128_gcm_open_of(
                    spec_seal_key(
                        x25519_shared_of(
                            x25519_public_of(receiver_leaf_secret@),
                            path@.nodes[l - 1].encrypted_path_secrets[j].kem_output,
                        ),
                    ),
                    zero_nonce(),
                    path@.nodes[l - 1].encrypted_path_secrets[j].ciphertext,
                ) == Some(ps) && cs@ == spec_path_chain(ps, (tree@.height + 1 - l) as nat),
            Err(_) => true,
        },
        ({
            let h = tree@.height;
            let lca = spec_lca_from(receiver as nat, sender as nat, 1, h);
            let res = spec_resolution_at(
                tree@.nodes,
                spec_copath_base(sender as nat, lca),
                (lca - 1) as nat,
            );
            ((receiver as nat) < pow2(h) && (sender as nat) < pow2(h) && sender != receiver
                && path@.nodes.len() == h && 1 <= lca <= h && (spec_index_of_pos(
                res,
                2 * receiver as int,
            ) matches Some(idx) && idx < path@.nodes[lca - 1].encrypted_path_secrets.len() && path@.nodes[
                lca - 1].encrypted_path_secrets[idx as int].kem_output.len() == 32
                && (aes128_gcm_open_of(
                spec_seal_key(
                    x25519_shared_of(
                        x25519_public_of(receiver_leaf_secret@),
                        path@.nodes[lca - 1].encrypted_path_secrets[idx as int].kem_output,
                    ),
                ),
                zero_nonce(),
                path@.nodes[lca - 1].encrypted_path_secrets[idx as int].ciphertext,
            ) matches Some(pt) && pt.len() == 32))) ==> r is Ok
        }),
{
    proof {
        lemma2_to64();
        lemma2_to64_rest_treekem();
        assert(pow2(tree@.height) <= pow2(30)) by {
            if tree@.height < 30 {
                lemma_pow2_strictly_increases(tree@.height, 30);
            }
        }
    }
    let cap = pow2_u64(tree.height as u64);
    if (sender as u64) >= cap || (receiver as u64) >= cap || sender == receiver {
        return Err(TreeError::UnknownLeaf);
    }
    if path.nodes.len() != tree.height {
        return Err(TreeError::BadTreeData);
    }
    let h = tree.height;
    let mut lca: usize = 0;
    let mut l: usize = 1;
    while lca == 0 && l <= h
        invariant
            1 <= l <= h + 1,
            lca <= h,
            lca == 0 ==> spec_lca_from(receiver as nat, sender as nat, 1, tree@.height)
                == spec_lca_from(receiver as nat, sender as nat, l as nat, tree@.height),
            lca > 0 ==> lca as nat == spec_lca_from(receiver as nat, sender as nat, 1, tree@.height),
        decreases (h + 1 - l) + (if lca == 0 { 1int } else { 0 }),
    {
        let br = level_base(receiver as u64, l as u64);
        let bs = level_base(sender as u64, l as u64);
        if br == bs {
            lca = l;
        } else {
            l = l + 1;
        }
    }
    if lca == 0 {
        proof {
            assert(spec_lca_from(receiver as nat, sender as nat, 1, tree@.height) > tree@.height);
        }
        return Err(TreeError::BadTreeData);
    }
    proof {
        lemma_level_base_fits(sender as nat, lca as nat, tree@.height);
        lemma_pow2_pos((lca - 1) as nat);
        vstd::arithmetic::power2::lemma_pow2_adds((lca - 1) as nat, 1);
    }
    let cb = copath_base(sender as u64, lca as u64);
    let ghost sres = spec_resolution_at(
        tree@.nodes,
        spec_copath_base(sender as nat, lca as nat),
        (lca - 1) as nat,
    );
    proof {
        assert(spec_copath_base(sender as nat, lca as nat) + pow2((lca - 1) as nat) <= pow2(
            tree@.height,
        ));
    }
    let res = tree.resolution(cb, (lca - 1) as u64);
    let mut found: Option<usize> = None;
    let mut j: usize = 0;
    proof {
        assert(2 * (receiver as nat) < 0x80000000);
    }
    let target: usize = 2 * (receiver as usize);
    while j < res.len()
        invariant
            j <= res@.len(),
            res@.len() == sres.len(),
            forall|x: int| 0 <= x < res@.len() ==> #[trigger] res@[x] as int == sres[x],
            found is None,
            forall|x: int| 0 <= x < j ==> sres[x] != 2 * receiver as int,
        decreases res@.len() - j,
    {
        if res[j] == target {
            found = Some(j);
            proof {
                lemma_index_of_found(sres, j as nat, 2 * receiver as int);
            }
            break;
        }
        j = j + 1;
    }
    proof {
        assert(lca as nat == spec_lca_from(receiver as nat, sender as nat, 1, tree@.height));
        assert(sres == spec_resolution_at(
            tree@.nodes,
            spec_copath_base(
                sender as nat,
                spec_lca_from(receiver as nat, sender as nat, 1, tree@.height),
            ),
            (spec_lca_from(receiver as nat, sender as nat, 1, tree@.height) - 1) as nat,
        ));
    }
    let idx = match found {
        Some(x) => x,
        None => {
            proof {
                lemma_index_of_none(sres, 2 * receiver as int);
                assert(spec_index_of_pos(sres, 2 * receiver as int) is None);
            }
            return Err(TreeError::BadTreeData);
        },
    };
    proof {
        assert(spec_index_of_pos(sres, 2 * receiver as int) == Some(idx as nat));
    }
    if idx >= path.nodes[lca - 1].encrypted_path_secrets.len() {
        return Err(TreeError::BadTreeData);
    }
    let ct = &path.nodes[lca - 1].encrypted_path_secrets[idx];
    proof {
        assert(ct@ == path@.nodes[lca as int - 1].encrypted_path_secrets[idx as int]);
    }
    let ps = match open_with(receiver_leaf_secret, ct) {
        Some(p) => p,
        None => {
            return Err(TreeError::DecryptFailed);
        },
    };
    if ps.len() != 32 {
        return Err(TreeError::DecryptFailed);
    }
    let cs = path_chain(&ps, h + 1 - lca);
    proof {
        let lg = lca as int;
        let jg = idx as int;
        let psg = ps@;
        assert(1 <= lg <= tree@.height && 0 <= jg && psg.len() == 32 && 0 <= lg - 1
            < path@.nodes.len() && jg < path@.nodes[lg - 1].encrypted_path_secrets.len()
            && aes128_gcm_open_of(
            spec_seal_key(
                x25519_shared_of(
                    x25519_public_of(receiver_leaf_secret@),
                    path@.nodes[lg - 1].encrypted_path_secrets[jg].kem_output,
                ),
            ),
            zero_nonce(),
            path@.nodes[lg - 1].encrypted_path_secrets[jg].ciphertext,
        ) == Some(psg) && cs@ == spec_path_chain(psg, (tree@.height + 1 - lg) as nat));
    }
    Ok(cs)
}

proof fn lemma2_to64_rest_treekem()
    ensures
        pow2(30) == 0x40000000,
        pow2(31) == 0x80000000,
        pow2(62) <= u64::MAX,
{
    lemma2_to64();
    vstd::arithmetic::power2::lemma2_to64_rest();
}

/// What a receiver opens is what the committer sealed.  When the
/// receiver's leaf holds the public key of its own secret, the sealing key
/// the committer derived and the opening key the receiver derives are the
/// same shared-secret term, so opening the addressed ciphertext yields the
/// sealed level secret, and chaining the remaining levels gives exactly the
/// committer's commit secret.
pub proof fn lemma_members_agree_on_commit_secret(
    receiver_secret: Seq<u8>,
    kem_output: Seq<u8>,
    ciphertext: Seq<u8>,
    sealed: Seq<u8>,
    opened: Seq<u8>,
    start: Seq<u8>,
    l: nat,
    h: nat,
)
    requires
        1 <= l <= h,
        sealed == spec_path_chain(start, l),
        aes128_gcm_open_of(
            spec_seal_key(x25519_shared_of(x25519_public_of(receiver_secret), kem_output)),
            zero_nonce(),
            ciphertext,
        ) == Some(sealed),
        aes128_gcm_open_of(
            spec_seal_key(x25519_shared_of(x25519_public_of(receiver_secret), kem_output)),
            zero_nonce(),
            ciphertext,
        ) == Some(opened),
    ensures
        opened == sealed,
        spec_path_chain(opened, (h + 1 - l) as nat) == spec_path_chain(start, (h + 1) as nat),
{
    lemma_path_chain_compose(start, l, (h + 1 - l) as nat);
}

/// The committer derives the commit secret as the chain one step past the
/// root; a member that recovers the committer's level-`l` path secret and
/// chains the remaining levels derives the identical commit secret.
pub proof fn lemma_commit_secret_agreement(leaf_secret: Seq<u8>, l: nat, h: nat)
    requires
        1 <= l <= h,
    ensures
        spec_path_chain(spec_path_chain(leaf_secret, l), (h + 1 - l) as nat) == spec_path_chain(
            leaf_secret,
            (h + 1) as nat,
        ),
{
    lemma_path_chain_compose(leaf_secret, l, (h + 1 - l) as nat);
}

/// A removed (blank) leaf is in no resolution, so no ciphertext of any
/// later update path is addressed to it: once removed, a member receives no
/// sealed path secret from which a later commit secret could be derived.
pub proof fn lemma_removed_leaf_not_addressed(
    nodes: Seq<NodeSlotV>,
    removed: nat,
    b: nat,
    k: nat,
)
    requires
        2 * removed < nodes.len(),
        nodes[2 * removed as int] is Blank,
    ensures
        !crate::tree::spec_resolution_at(nodes, b, k).contains(2 * removed as int),
{
    crate::tree::lemma_resolution_nonblank(nodes, b, k);
    let res = crate::tree::spec_resolution_at(nodes, b, k);
    if res.contains(2 * removed as int) {
        let j = choose|j: int| 0 <= j < res.len() && res[j] == 2 * removed as int;
        assert(!(nodes[res[j]] is Blank));
    }
}

} // verus!
