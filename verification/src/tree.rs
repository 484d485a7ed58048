use vstd::prelude::*;

use vstd::arithmetic::power2::{lemma2_to64, lemma_pow2_pos, lemma_pow2_strictly_increases, pow2};

use crate::codec::{
    dec_bytes, decode_list, dup_list, enc_bytes, encode_list, fits_wire_len, lemma_rt_bytes,
    lemma_rt_list, lemma_rt_tag8, lemma_split2, spec_dec_bytes, spec_dec_list, spec_dec_u8,
    spec_enc_bytes, spec_enc_list, spec_enc_u8, views_of, wire_wf_items, WireCode,
};
use crate::codec::{copy_bytes, dec_u8, enc_u8, lemma_views_push, lemma_views_update};
use crate::crypto::{sha256, sha256_of};
use crate::key_package::{KeyPackage, KeyPackageV};
use crate::proposal::LeafIndex;
use crate::tree_math::{
    ancestor, lemma_ancestor_in_width, pow2_u64, spec_ancestor, spec_subtree_root, spec_width,
    subtree_root,
};

verus! {

// The ratchet tree: an array of node slots, leaves at even positions, with
// the subtree of base leaf b and height k rooted at 2b + 2^k - 1.

/// Why a tree operation failed.
#[derive(Clone, Copy, Debug, PartialEq, Eq, Structural)]
pub enum TreeError {
    /// The leaf index does not name an occupied leaf.
    UnknownLeaf,
    /// The tree is full and growing past the height cap is not allowed.
    Capacity,
    /// Encoded tree data does not describe a well-shaped tree.
    BadTreeData,
    /// A sealed path secret addressed to this member did not open.
    DecryptFailed,
}

/// An internal node: a public key and the leaves added below it whose
/// secrets have not yet been folded in.
#[derive(Clone, Debug, PartialEq, Eq)]
pub struct ParentNode {
    pub public_key: Vec<u8>,
    pub unmerged_leaves: Vec<LeafIndex>,
}

pub struct ParentNodeV {
    pub public_key: Seq<u8>,
    pub unmerged_leaves: Seq<LeafIndex>,
}

impl View for ParentNode {
    type V = ParentNodeV;

    open spec fn view(&self) -> ParentNodeV {
        ParentNodeV { public_key: self.public_key@, unmerged_leaves: self.unmerged_leaves@ }
    }
}

impl WireCode for ParentNode {
    open spec fn spec_enc(m: ParentNodeV) -> Seq<u8> {
        spec_enc_bytes(m.public_key) + spec_enc_list::<u32>(m.unmerged_leaves)
    }

    open spec fn spec_dec(s: Seq<u8>, i: int) -> Option<(ParentNodeV, int)> {
        match spec_dec_bytes(s, i) {
            Some((pk, j)) => match spec_dec_list::<u32>(s, j) {
                Some((ul, k)) => Some((ParentNodeV { public_key: pk, unmerged_leaves: ul }, k)),
                None => None,
            },
            None => None,
        }
    }

    open spec fn wire_wf(m: ParentNodeV) -> bool {
        fits_wire_len(m.public_key.len()) && fits_wire_len(m.unmerged_leaves.len())
    }

    proof fn lemma_rt(pre: Seq<u8>, m: ParentNodeV, suf: Seq<u8>) {
        let e1 = spec_enc_bytes(m.public_key);
        let e2 = spec_enc_list::<u32>(m.unmerged_leaves);
        lemma_split2(pre, e1, e2, suf);
        lemma_rt_bytes(pre, m.public_key, e2 + suf);
        assert(wire_wf_items::<u32>(m.unmerged_leaves));
        lemma_rt_list::<u32>(pre + e1, m.unmerged_leaves, suf);
    }

    proof fn lemma_wf(&self) {
        crate::codec::lemma_vec_fits(&self.public_key);
        assert(self.unmerged_leaves.len() == self.unmerged_leaves@.len());
    }

    fn dup(&self) -> (r: Self) {
        let mut ul: Vec<LeafIndex> = Vec::new();
        let mut k: usize = 0;
        while k < self.unmerged_leaves.len()
            invariant
                k <= self.unmerged_leaves.len(),
                ul@ == self.unmerged_leaves@.subrange(0, k as int),
            decreases self.unmerged_leaves.len() - k,
        {
            ul.push(self.unmerged_leaves[k]);
            proof {
                assert(ul@ =~= self.unmerged_leaves@.subrange(0, k + 1 as int));
            }
            k = k + 1;
        }
        proof {
            assert(self.unmerged_leaves@.subrange(0, self.unmerged_leaves@.len() as int)
                =~= self.unmerged_leaves@);
        }
        ParentNode { public_key: copy_bytes(&self.public_key), unmerged_leaves: ul }
    }

    fn encode(&self, out: &mut Vec<u8>) {
        enc_bytes(out, &self.public_key);
        encode_list::<u32>(&self.unmerged_leaves, out);
        proof {
            assert(views_of(self.unmerged_leaves@) =~= self.unmerged_leaves@);
            assert(out@ =~= old(out)@ + Self::spec_enc(self@));
        }
    }

    fn decode(s: &Vec<u8>, i: usize) -> (r: Option<(Self, usize)>) {
        match dec_bytes(s, i) {
            Some((public_key, j)) => match decode_list::<u32>(s, j) {
                Some((unmerged_leaves, k)) => {
                    proof {
                        assert(views_of(unmerged_leaves@) =~= unmerged_leaves@);
                    }
                    Some((ParentNode { public_key, unmerged_leaves }, k))
                },
                None => None,
            },
            None => None,
        }
    }
}

/// One slot of the node array: empty, a leaf, or an internal node.
#[derive(Clone, Debug, PartialEq, Eq)]
pub enum NodeSlot {
    Blank,
    Leaf(KeyPackage),
    Parent(ParentNode),
}

pub enum NodeSlotV {
    Blank,
    Leaf(KeyPackageV),
    Parent(ParentNodeV),
}

impl View for NodeSlot {
    type V = NodeSlotV;

    open spec fn view(&self) -> NodeSlotV {
        match self {
            NodeSlot::Blank => NodeSlotV::Blank,
            NodeSlot::Leaf(kp) => NodeSlotV::Leaf(kp@),
            NodeSlot::Parent(p) => NodeSlotV::Parent(p@),
        }
    }
}

proof fn lemma_rt_slot_leaf(pre: Seq<u8>, kp: KeyPackageV, suf: Seq<u8>)
    requires
        KeyPackage::wire_wf(kp),
    ensures
        ({
            let m = NodeSlotV::Leaf(kp);
            NodeSlot::spec_dec(pre + NodeSlot::spec_enc(m) + suf, pre.len() as int) == Some(
                (m, (pre.len() + NodeSlot::spec_enc(m).len()) as int),
            )
        }),
{
    let m = NodeSlotV::Leaf(kp);
    let payload = KeyPackage::spec_enc(kp);
    let tag = spec_enc_u8(1);
    let s = pre + (tag + payload) + suf;
    lemma_rt_tag8::<KeyPackage>(pre, 1, kp, suf);
    assert(NodeSlot::spec_enc(m) == tag + payload);
    assert(NodeSlot::spec_dec(s, pre.len() as int) == Some(
        (m, (pre.len() + tag.len() + payload.len()) as int),
    ));
}

proof fn lemma_rt_slot_parent(pre: Seq<u8>, p: ParentNodeV, suf: Seq<u8>)
    requires
        ParentNode::wire_wf(p),
    ensures
        ({
            let m = NodeSlotV::Parent(p);
            NodeSlot::spec_dec(pre + NodeSlot::spec_enc(m) + suf, pre.len() as int) == Some(
                (m, (pre.len() + NodeSlot::spec_enc(m).len()) as int),
            )
        }),
{
    let m = NodeSlotV::Parent(p);
    let payload = ParentNode::spec_enc(p);
    let tag = spec_enc_u8(2);
    let s = pre + (tag + payload) + suf;
    lemma_rt_tag8::<ParentNode>(pre, 2, p, suf);
    assert(NodeSlot::spec_enc(m) == tag + payload);
    assert(NodeSlot::spec_dec(s, pre.len() as int) == Some(
        (m, (pre.len() + tag.len() + payload.len()) as int),
    ));
}

proof fn lemma_rt_slot_blank(pre: Seq<u8>, suf: Seq<u8>)
    ensures
        ({
            let m = NodeSlotV::Blank;
            NodeSlot::spec_dec(pre + NodeSlot::spec_enc(m) + suf, pre.len() as int) == Some(
                (m, (pre.len() + NodeSlot::spec_enc(m).len()) as int),
            )
        }),
{
    crate::codec::lemma_rt_u8(pre, 0, suf);
    assert(pre + NodeSlot::spec_enc(NodeSlotV::Blank) + suf =~= pre + spec_enc_u8(0) + suf);
}

impl WireCode for NodeSlot {
    open spec fn spec_enc(m: NodeSlotV) -> Seq<u8> {
        match m {
            NodeSlotV::Blank => spec_enc_u8(0),
            NodeSlotV::Leaf(kp) => spec_enc_u8(1) + KeyPackage::spec_enc(kp),
            NodeSlotV::Parent(p) => spec_enc_u8(2) + ParentNode::spec_enc(p),
        }
    }

    open spec fn spec_dec(s: Seq<u8>, i: int) -> Option<(NodeSlotV, int)> {
        match spec_dec_u8(s, i) {
            Some((d, j)) => if d == 0 {
                Some((NodeSlotV::Blank, j))
            } else if d == 1 {
                match KeyPackage::spec_dec(s, j) {
                    Some((kp, k)) => Some((NodeSlotV::Leaf(kp), k)),
                    None => None,
                }
            } else if d == 2 {
                match ParentNode::spec_dec(s, j) {
                    Some((p, k)) => Some((NodeSlotV::Parent(p), k)),
                    None => None,
                }
            } else {
                None
            },
            None => None,
        }
    }

    open spec fn wire_wf(m: NodeSlotV) -> bool {
        match m {
            NodeSlotV::Blank => true,
            NodeSlotV::Leaf(kp) => KeyPackage::wire_wf(kp),
            NodeSlotV::Parent(p) => ParentNode::wire_wf(p),
        }
    }

    proof fn lemma_rt(pre: Seq<u8>, m: NodeSlotV, suf: Seq<u8>) {
        match m {
            NodeSlotV::Blank => lemma_rt_slot_blank(pre, suf),
            NodeSlotV::Leaf(kp) => lemma_rt_slot_leaf(pre, kp, suf),
            NodeSlotV::Parent(p) => lemma_rt_slot_parent(pre, p, suf),
        }
    }

    proof fn lemma_wf(&self) {
        match self {
            NodeSlot::Blank => {},
            NodeSlot::Leaf(kp) => kp.lemma_wf(),
            NodeSlot::Parent(p) => p.lemma_wf(),
        }
    }

    fn dup(&self) -> (r: Self) {
        match self {
            NodeSlot::Blank => NodeSlot::Blank,
            NodeSlot::Leaf(kp) => NodeSlot::Leaf(kp.dup()),
            NodeSlot::Parent(p) => NodeSlot::Parent(p.dup()),
        }
    }

    fn encode(&self, out: &mut Vec<u8>) {
        match self {
            NodeSlot::Blank => {
                enc_u8(out, 0);
            },
            NodeSlot::Leaf(kp) => {
                enc_u8(out, 1);
                kp.encode(out);
                proof {
                    assert(out@ =~= old(out)@ + Self::spec_enc(self@));
                }
            },
            NodeSlot::Parent(p) => {
                enc_u8(out, 2);
                p.encode(out);
                proof {
                    assert(out@ =~= old(out)@ + Self::spec_enc(self@));
                }
            },
        }
    }

    fn decode(s: &Vec<u8>, i: usize) -> (r: Option<(Self, usize)>) {
        match dec_u8(s, i) {
            Some((d, j)) => {
                if d == 0 {
                    Some((NodeSlot::Blank, j))
                } else if d == 1 {
                    match KeyPackage::decode(s, j) {
                        Some((kp, k)) => Some((NodeSlot::Leaf(kp), k)),
                        None => None,
                    }
                } else if d == 2 {
                    match ParentNode::decode(s, j) {
                        Some((p, k)) => Some((NodeSlot::Parent(p), k)),
                        None => None,
                    }
                } else {
                    None
                }
            },
            None => None,
        }
    }
}

/// The mathematical shape of a ratchet tree: the slot models and the height.
pub struct RatchetTreeV {
    pub nodes: Seq<NodeSlotV>,
    pub height: nat,
}

/// The array-backed ratchet tree.
#[derive(Clone, Debug, PartialEq, Eq)]
pub struct RatchetTree {
    pub nodes: Vec<NodeSlot>,
    pub height: usize,
}

impl View for RatchetTree {
    type V = RatchetTreeV;

    open spec fn view(&self) -> RatchetTreeV {
        RatchetTreeV { nodes: views_of(self.nodes@), height: self.height as nat }
    }
}

/// Whether a slot model holds an internal node.
pub open spec fn is_parent_slot(n: NodeSlotV) -> bool {
    n is Parent
}

/// Whether a slot model holds a leaf.
pub open spec fn is_leaf_slot(n: NodeSlotV) -> bool {
    n is Leaf
}

/// A well-shaped tree: the array has the width of its height, the height is
/// capped, leaves sit only at even positions and internal nodes only at odd
/// ones.
pub open spec fn wf_tree(t: RatchetTreeV) -> bool {
    &&& t.nodes.len() == spec_width(t.height)
    &&& t.height <= 30
    &&& forall|p: int|
        0 <= p < t.nodes.len() && p % 2 == 0 ==> !is_parent_slot(#[trigger] t.nodes[p])
    &&& forall|p: int| 0 <= p < t.nodes.len() && p % 2 == 1 ==> !is_leaf_slot(#[trigger] t.nodes[p])
}

// ---------------------------------------------------------------------------
// Tree hash.
// ---------------------------------------------------------------------------

/// The bytes hashed for a leaf slot.
pub open spec fn spec_leaf_hash_input(n: NodeSlotV) -> Seq<u8> {
    match n {
        NodeSlotV::Leaf(kp) => spec_enc_u8(1) + KeyPackage::spec_enc(kp),
        _ => spec_enc_u8(0),
    }
}

/// The bytes hashed for an internal slot: its own content and both
/// children's subtree hashes.
pub open spec fn spec_parent_hash_input(n: NodeSlotV, lh: Seq<u8>, rh: Seq<u8>) -> Seq<u8> {
    (match n {
        NodeSlotV::Parent(p) => spec_enc_u8(3) + ParentNode::spec_enc(p),
        _ => spec_enc_u8(2),
    }) + spec_enc_bytes(lh) + spec_enc_bytes(rh)
}

/// The hash of the subtree with base leaf `b` and height `k`, computed
/// bottom-up; a position outside the array counts as blank.
pub open spec fn spec_tree_hash_at(nodes: Seq<NodeSlotV>, b: nat, k: nat) -> Seq<u8>
    decreases k,
{
    if k == 0 {
        sha256_of(
            spec_leaf_hash_input(
                if 2 * b < nodes.len() {
                    nodes[2 * b as int]
                } else {
                    NodeSlotV::Blank
                },
            ),
        )
    } else {
        sha256_of(
            spec_parent_hash_input(
                if spec_subtree_root(b, k) < nodes.len() {
                    nodes[spec_subtree_root(b, k) as int]
                } else {
                    NodeSlotV::Blank
                },
                spec_tree_hash_at(nodes, b, (k - 1) as nat),
                spec_tree_hash_at(nodes, (b + pow2((k - 1) as nat)) as nat, (k - 1) as nat),
            ),
        )
    }
}

/// The hash of the whole tree.
pub open spec fn spec_tree_hash(t: RatchetTreeV) -> Seq<u8> {
    spec_tree_hash_at(t.nodes, 0, t.height)
}

// ---------------------------------------------------------------------------
// Resolution.
// ---------------------------------------------------------------------------

/// The resolution of the subtree with base leaf `b` and height `k`: the
/// minimal set of non-blank positions that covers it, as positions in order.
pub open spec fn spec_resolution_at(nodes: Seq<NodeSlotV>, b: nat, k: nat) -> Seq<int>
    decreases k,
{
    if k == 0 {
        if 2 * b < nodes.len() && !(nodes[2 * b as int] is Blank) {
            seq![2 * b as int]
        } else {
            Seq::empty()
        }
    } else {
        let root = spec_subtree_root(b, k);
        if root < nodes.len() && !(nodes[root as int] is Blank) {
            seq![root as int]
        } else {
            spec_resolution_at(nodes, b, (k - 1) as nat) + spec_resolution_at(
                nodes,
                (b + pow2((k - 1) as nat)) as nat,
                (k - 1) as nat,
            )
        }
    }
}

/// Every position in a resolution names a slot that is not blank.
pub proof fn lemma_resolution_nonblank(nodes: Seq<NodeSlotV>, b: nat, k: nat)
    ensures
        forall|j: int|
            0 <= j < spec_resolution_at(nodes, b, k).len() ==> 0 <= #[trigger] spec_resolution_at(
                nodes,
                b,
                k,
            )[j] < nodes.len() && !(nodes[spec_resolution_at(nodes, b, k)[j]] is Blank),
    decreases k,
{
    if k == 0 {
    } else {
        let root = spec_subtree_root(b, k);
        if root < nodes.len() && !(nodes[root as int] is Blank) {
        } else {
            lemma_resolution_nonblank(nodes, b, (k - 1) as nat);
            lemma_resolution_nonblank(nodes, (b + pow2((k - 1) as nat)) as nat, (k - 1) as nat);
            let l = spec_resolution_at(nodes, b, (k - 1) as nat);
            let r = spec_resolution_at(nodes, (b + pow2((k - 1) as nat)) as nat, (k - 1) as nat);
            assert forall|j: int| 0 <= j < (l + r).len() implies 0 <= #[trigger] (l + r)[j]
                < nodes.len() && !(nodes[(l + r)[j]] is Blank) by {
                if j < l.len() {
                    assert((l + r)[j] == l[j]);
                } else {
                    assert((l + r)[j] == r[j - l.len()]);
                }
            }
        }
    }
}

impl RatchetTree {
    /// A tree with a single blank leaf slot.
    pub fn new() -> (r: RatchetTree)
        ensures
            wf_tree(r@),
            r@.height == 0,
            r@.nodes == seq![NodeSlotV::Blank],
    {
        let mut nodes: Vec<NodeSlot> = Vec::new();
        nodes.push(NodeSlot::Blank);
        let r = RatchetTree { nodes, height: 0 };
        proof {
            lemma2_to64();
            assert(r@.nodes =~= seq![NodeSlotV::Blank]);
        }
        r
    }

    /// The number of leaf slots.
    pub fn capacity(&self) -> (r: u64)
        requires
            wf_tree(self@),
        ensures
            r as nat == pow2(self@.height),
    {
        pow2_u64(self.height as u64)
    }

    /// The slot of leaf `i`, blank when out of range.
    pub fn leaf(&self, i: LeafIndex) -> (r: Option<&KeyPackage>)
        requires
            wf_tree(self@),
        ensures
            match r {
                Some(kp) => 2 * i < self@.nodes.len() && self@.nodes[2 * i as int]
                    == NodeSlotV::Leaf(kp@),
                None => 2 * i >= self@.nodes.len() || !(self@.nodes[2 * i as int] is Leaf),
            },
    {
        if 2 * (i as u64) < self.nodes.len() as u64 {
            let p = 2 * (i as usize);
            proof {
                assert(self@.nodes[2 * i as int] == self.nodes@[2 * i as int]@);
            }
            match &self.nodes[p] {
                NodeSlot::Leaf(kp) => Some(kp),
                _ => None,
            }
        } else {
            None
        }
    }

    /// The hash of the subtree with base leaf `b` and height `k`.
    pub fn subtree_hash(&self, b: u64, k: u64) -> (r: Vec<u8>)
        requires
            wf_tree(self@),
            k <= 30,
            b + pow2(k as nat) <= pow2(30),
        ensures
            r@ == spec_tree_hash_at(self@.nodes, b as nat, k as nat),
            r@.len() == 32,
        decreases k,
    {
        proof {
            lemma2_to64();
            lemma2_to64_rest_local();
        }
        if k == 0 {
            let mut input: Vec<u8> = Vec::new();
            let p = 2 * (b as usize);
            if p < self.nodes.len() {
                match &self.nodes[p] {
                    NodeSlot::Leaf(kp) => {
                        enc_u8(&mut input, 1);
                        kp.encode(&mut input);
                    },
                    _ => {
                        enc_u8(&mut input, 0);
                    },
                }
            } else {
                enc_u8(&mut input, 0);
            }
            proof {
                assert(input@ =~= spec_leaf_hash_input(
                    if 2 * (b as nat) < self@.nodes.len() {
                        self@.nodes[2 * b as int]
                    } else {
                        NodeSlotV::Blank
                    },
                ));
            }
            sha256(input.as_slice())
        } else {
            let half = pow2_u64(k - 1);
            proof {
                lemma_pow2_pos((k - 1) as nat);
                vstd::arithmetic::power2::lemma_pow2_adds((k - 1) as nat, 1);
            }
            let lh = self.subtree_hash(b, k - 1);
            let rh = self.subtree_hash(b + half, k - 1);
            let root = subtree_root(b, k);
            let mut input: Vec<u8> = Vec::new();
            if (root as usize) < self.nodes.len() {
                match &self.nodes[root as usize] {
                    NodeSlot::Parent(pn) => {
                        enc_u8(&mut input, 3);
                        pn.encode(&mut input);
                    },
                    _ => {
                        enc_u8(&mut input, 2);
                    },
                }
            } else {
                enc_u8(&mut input, 2);
            }
            enc_bytes(&mut input, &lh);
            enc_bytes(&mut input, &rh);
            proof {
                assert(input@ =~= spec_parent_hash_input(
                    if spec_subtree_root(b as nat, k as nat) < self@.nodes.len() {
                        self@.nodes[spec_subtree_root(b as nat, k as nat) as int]
                    } else {
                        NodeSlotV::Blank
                    },
                    spec_tree_hash_at(self@.nodes, b as nat, (k - 1) as nat),
                    spec_tree_hash_at(self@.nodes, (b + half) as nat, (k - 1) as nat),
                ));
            }
            sha256(input.as_slice())
        }
    }

    /// The hash of the whole tree: the authoritative membership fingerprint.
    pub fn tree_hash(&self) -> (r: Vec<u8>)
        requires
            wf_tree(self@),
        ensures
            r@ == spec_tree_hash(self@),
            r@.len() == 32,
    {
        proof {
            lemma_pow2_pos(self@.height);
            if self@.height < 30 {
                lemma_pow2_strictly_increases(self@.height, 30);
            }
        }
        self.subtree_hash(0, self.height as u64)
    }

    /// The resolution of the subtree with base leaf `b` and height `k`, as
    /// node positions.
    pub fn resolution(&self, b: u64, k: u64) -> (r: Vec<usize>)
        requires
            wf_tree(self@),
            k <= 30,
            b + pow2(k as nat) <= pow2(30),
        ensures
            r@.len() == spec_resolution_at(self@.nodes, b as nat, k as nat).len(),
            forall|j: int|
                0 <= j < r@.len() ==> r@[j] as int == spec_resolution_at(
                    self@.nodes,
                    b as nat,
                    k as nat,
                )[j],
        decreases k,
    {
        proof {
            lemma2_to64();
            lemma2_to64_rest_local();
        }
        if k == 0 {
            let p = 2 * (b as usize);
            let mut r: Vec<usize> = Vec::new();
            if p < self.nodes.len() {
                match &self.nodes[p] {
                    NodeSlot::Blank => {},
                    _ => {
                        r.push(p);
                    },
                }
            }
            r
        } else {
            let root = subtree_root(b, k);
            if (root as usize) < self.nodes.len() {
                let blank = matches!(&self.nodes[root as usize], NodeSlot::Blank);
                if !blank {
                    let mut r: Vec<usize> = Vec::new();
                    r.push(root as usize);
                    return r;
                }
            }
            let half = pow2_u64(k - 1);
            proof {
                lemma_pow2_pos((k - 1) as nat);
                vstd::arithmetic::power2::lemma_pow2_adds((k - 1) as nat, 1);
            }
            let mut r = self.resolution(b, k - 1);
            let mut rr = self.resolution(b + half, k - 1);
            let ghost left = spec_resolution_at(self@.nodes, b as nat, (k - 1) as nat);
            let ghost right = spec_resolution_at(
                self@.nodes,
                (b + half) as nat,
                (k - 1) as nat,
            );
            let mut j: usize = 0;
            while j < rr.len()
                invariant
                    j <= rr.len(),
                    rr@.len() == right.len(),
                    forall|x: int| 0 <= x < rr@.len() ==> rr@[x] as int == right[x],
                    r@.len() == left.len() + j,
                    forall|x: int| 0 <= x < r@.len() ==> r@[x] as int == (left + right)[x],
                decreases rr.len() - j,
            {
                r.push(rr[j]);
                j = j + 1;
            }
            r
        }
    }

    /// The encoded tree.
    pub fn to_bytes(&self) -> (r: Vec<u8>)
        ensures
            r@ == spec_enc_list::<NodeSlot>(self@.nodes),
    {
        let mut out: Vec<u8> = Vec::new();
        encode_list::<NodeSlot>(&self.nodes, &mut out);
        proof {
            assert(out@ =~= spec_enc_list::<NodeSlot>(self@.nodes));
        }
        out
    }

    /// Decodes a tree and checks its shape.  Succeeds exactly on encodings
    /// of well-shaped trees.
    pub fn from_bytes(bytes: &Vec<u8>) -> (r: Result<RatchetTree, TreeError>)
        ensures
            match r {
                Ok(t) => wf_tree(t@) && (spec_dec_list::<NodeSlot>(bytes@, 0) matches Some((m, j))
                    && m == t@.nodes && j == bytes@.len()),
                Err(e) => e == TreeError::BadTreeData,
            },
    {
        let (nodes, end) = match decode_list::<NodeSlot>(bytes, 0) {
            Some(p) => p,
            None => {
                return Err(TreeError::BadTreeData);
            },
        };
        if end != bytes.len() {
            return Err(TreeError::BadTreeData);
        }
        let mut height: usize = 0;
        let mut width: u64 = 1;
        proof {
            lemma2_to64();
        }
        while width < nodes.len() as u64 && height < 30
            invariant
                height <= 30,
                width as nat == spec_width(height as nat),
            decreases 30 - height,
        {
            proof {
                vstd::arithmetic::power2::lemma_pow2_adds(height as nat, 1);
                lemma2_to64();
                lemma2_to64_rest_local();
                lemma_pow2_pos(height as nat);
                assert(pow2(height as nat + 1) <= pow2(31)) by {
                    if height as nat + 1 < 31 {
                        lemma_pow2_strictly_increases(height as nat + 1, 31);
                    }
                }
            }
            width = 2 * width + 1;
            height = height + 1;
        }
        if width as usize != nodes.len() {
            return Err(TreeError::BadTreeData);
        }
        let mut p: usize = 0;
        while p < nodes.len()
            invariant
                p <= nodes@.len(),
                forall|q: int|
                    0 <= q < p && q % 2 == 0 ==> !is_parent_slot(#[trigger] views_of(nodes@)[q]),
                forall|q: int|
                    0 <= q < p && q % 2 == 1 ==> !is_leaf_slot(#[trigger] views_of(nodes@)[q]),
            decreases nodes@.len() - p,
        {
            let bad = if p % 2 == 0 {
                matches!(&nodes[p], NodeSlot::Parent(_))
            } else {
                matches!(&nodes[p], NodeSlot::Leaf(_))
            };
            if bad {
                return Err(TreeError::BadTreeData);
            }
            p = p + 1;
        }
        let t = RatchetTree { nodes, height };
        Ok(t)
    }
}

// ---------------------------------------------------------------------------
// Mutations.  Each is specified as a fold over the levels of the changed
// leaf's direct path, so that the loops below can mirror it step by step.
// ---------------------------------------------------------------------------

/// Pushing a leaf onto a slot's unmerged list; anything but an internal
/// node is left as it is.
pub open spec fn spec_push_unmerged(n: NodeSlotV, i: LeafIndex) -> NodeSlotV {
    match n {
        NodeSlotV::Parent(p) => NodeSlotV::Parent(
            ParentNodeV { public_key: p.public_key, unmerged_leaves: p.unmerged_leaves.push(i) },
        ),
        other => other,
    }
}

/// The node array with leaf `i`'s ancestors up to level `l` blanked.
pub open spec fn spec_blank_ancestors(nodes: Seq<NodeSlotV>, i: nat, l: nat) -> Seq<NodeSlotV>
    decreases l,
{
    if l == 0 {
        nodes
    } else {
        let prev = spec_blank_ancestors(nodes, i, (l - 1) as nat);
        let p = spec_ancestor(i, l);
        if p < prev.len() {
            prev.update(p as int, NodeSlotV::Blank)
        } else {
            prev
        }
    }
}

/// The node array with leaf `i` pushed onto the unmerged list of each
/// occupied ancestor up to level `l`.
pub open spec fn spec_add_unmerged(nodes: Seq<NodeSlotV>, i: nat, l: nat) -> Seq<NodeSlotV>
    decreases l,
{
    if l == 0 {
        nodes
    } else {
        let prev = spec_add_unmerged(nodes, i, (l - 1) as nat);
        let p = spec_ancestor(i, l);
        if p < prev.len() {
            prev.update(p as int, spec_push_unmerged(prev[p as int], i as LeafIndex))
        } else {
            prev
        }
    }
}

/// The node array with one slot replaced.
pub open spec fn spec_set_slot(nodes: Seq<NodeSlotV>, p: nat, slot: NodeSlotV) -> Seq<NodeSlotV> {
    if p < nodes.len() {
        nodes.update(p as int, slot)
    } else {
        nodes
    }
}

/// Blanking ancestors keeps the length and turns slots only into blanks.
pub proof fn lemma_blank_ancestors_shape(nodes: Seq<NodeSlotV>, i: nat, l: nat)
    ensures
        spec_blank_ancestors(nodes, i, l).len() == nodes.len(),
        forall|p: int|
            0 <= p < nodes.len() ==> #[trigger] spec_blank_ancestors(nodes, i, l)[p]
                == NodeSlotV::Blank || spec_blank_ancestors(nodes, i, l)[p] == nodes[p],
    decreases l,
{
    if l == 0 {
    } else {
        lemma_blank_ancestors_shape(nodes, i, (l - 1) as nat);
    }
}

/// Adding to unmerged lists keeps the length and each slot's kind.
pub proof fn lemma_add_unmerged_shape(nodes: Seq<NodeSlotV>, i: nat, l: nat)
    ensures
        spec_add_unmerged(nodes, i, l).len() == nodes.len(),
        forall|p: int|
            0 <= p < nodes.len() ==> ((#[trigger] spec_add_unmerged(nodes, i, l)[p] is Parent)
                == (nodes[p] is Parent) && (spec_add_unmerged(nodes, i, l)[p] is Leaf) == (
            nodes[p] is Leaf)),
    decreases l,
{
    if l == 0 {
    } else {
        lemma_add_unmerged_shape(nodes, i, (l - 1) as nat);
    }
}

/// The first blank leaf slot at or after `from`, short of `cap`.
pub open spec fn spec_first_blank(nodes: Seq<NodeSlotV>, from: nat, cap: nat) -> Option<nat>
    decreases cap - from,
{
    if from >= cap {
        None
    } else if 2 * from < nodes.len() && nodes[2 * from as int] is Blank {
        Some(from)
    } else {
        spec_first_blank(nodes, (from + 1) as nat, cap)
    }
}

/// A scan that stopped at a blank slot after passing only occupied ones has
/// found the first blank.
proof fn lemma_first_blank_found(nodes: Seq<NodeSlotV>, from: nat, j: nat, cap: nat)
    requires
        from <= j < cap,
        forall|x: int|
            from <= x < j ==> !(2 * x < nodes.len() && (#[trigger] nodes[2 * x]) is Blank),
        2 * j < nodes.len(),
        nodes[2 * j as int] is Blank,
    ensures
        spec_first_blank(nodes, from, cap) == Some(j),
    decreases j - from,
{
    if from == j {
    } else {
        assert(!(2 * (from as int) < nodes.len() && nodes[2 * from as int] is Blank));
        lemma_first_blank_found(nodes, (from + 1) as nat, j, cap);
    }
}

/// A scan that passed only occupied slots has found no blank.
proof fn lemma_first_blank_none(nodes: Seq<NodeSlotV>, from: nat, cap: nat)
    requires
        forall|x: int|
            from <= x < cap ==> !(2 * x < nodes.len() && (#[trigger] nodes[2 * x]) is Blank),
    ensures
        spec_first_blank(nodes, from, cap) is None,
    decreases cap - from,
{
    if from >= cap {
    } else {
        assert(!(2 * (from as int) < nodes.len() && nodes[2 * from as int] is Blank));
        lemma_first_blank_none(nodes, (from + 1) as nat, cap);
    }
}

impl RatchetTree {
    /// Blanks every internal node on leaf `i`'s way to the root, forcing
    /// fresh secrets there at the next commit.
    fn blank_ancestors(&mut self, i: LeafIndex)
        requires
            wf_tree(old(self)@),
            (i as nat) < pow2(old(self)@.height),
        ensures
            final(self)@.nodes == spec_blank_ancestors(
                old(self)@.nodes,
                i as nat,
                old(self)@.height,
            ),
            final(self)@.height == old(self)@.height,
            wf_tree(final(self)@),
    {
        let h = self.height;
        let mut l: usize = 0;
        while l < h
            invariant
                l <= h,
                h == self.height,
                wf_tree(old(self)@),
                (i as nat) < pow2(old(self)@.height),
                self@.height == old(self)@.height,
                self@.nodes == spec_blank_ancestors(old(self)@.nodes, i as nat, l as nat),
            decreases h - l,
        {
            proof {
                lemma_blank_ancestors_shape(old(self)@.nodes, i as nat, l as nat);
                lemma_ancestor_in_width(i as nat, (l + 1) as nat, old(self)@.height);
                lemma2_to64();
                lemma2_to64_rest_local();
                assert(pow2(old(self)@.height) <= pow2(30)) by {
                    if old(self)@.height < 30 {
                        lemma_pow2_strictly_increases(old(self)@.height, 30);
                    }
                }
                lemma_pow2_strictly_increases(30, 62);
            }
            let pos_u = ancestor(i as u64, (l + 1) as u64);
            proof {
                assert((pos_u as nat) < spec_width(old(self)@.height));
            }
            let pos = pos_u as usize;
            let ghost before_vec = self.nodes@;
            let ghost before = self@.nodes;
            self.nodes.set(pos, NodeSlot::Blank);
            proof {
                lemma_views_update(before_vec, pos as int, NodeSlot::Blank);
                assert(self@.nodes == before.update(pos as int, NodeSlotV::Blank));
                assert(self@.nodes =~= spec_blank_ancestors(
                    old(self)@.nodes,
                    i as nat,
                    (l + 1) as nat,
                ));
            }
            l = l + 1;
        }
        proof {
            lemma_blank_ancestors_shape(old(self)@.nodes, i as nat, old(self)@.height);
        }
    }

    /// Replaces leaf `index`'s key package in place and blanks the internal
    /// nodes above it.  Fails exactly when `index` does not name an occupied
    /// leaf.
    pub fn update(&mut self, index: LeafIndex, key_package: KeyPackage) -> (r: Result<
        (),
        TreeError,
    >)
        requires
            wf_tree(old(self)@),
        ensures
            match r {
                Ok(()) => 2 * index < old(self)@.nodes.len() && old(self)@.nodes[2 * index as int] is Leaf
                    && final(self)@.height == old(self)@.height && final(self)@.nodes
                    == spec_set_slot(
                    spec_blank_ancestors(old(self)@.nodes, index as nat, old(self)@.height),
                    2 * index as nat,
                    NodeSlotV::Leaf(key_package@),
                ) && wf_tree(final(self)@),
                Err(e) => e == TreeError::UnknownLeaf && (2 * index >= old(self)@.nodes.len() || !(
                old(self)@.nodes[2 * index as int] is Leaf)) && final(self)@ == old(self)@,
            },
    {
        if 2 * (index as u64) >= self.nodes.len() as u64 {
            return Err(TreeError::UnknownLeaf);
        }
        let p = 2 * (index as usize);
        let occupied = matches!(&self.nodes[p], NodeSlot::Leaf(_));
        if !occupied {
            return Err(TreeError::UnknownLeaf);
        }
        proof {
            lemma_pow2_pos(self@.height);
            assert(2 * (index as nat) < spec_width(self@.height));
        }
        self.blank_ancestors(index);
        proof {
            lemma_blank_ancestors_shape(old(self)@.nodes, index as nat, old(self)@.height);
        }
        let ghost before_vec = self.nodes@;
        let ghost before = self@.nodes;
        self.nodes.set(p, NodeSlot::Leaf(key_package));
        proof {
            lemma_views_update(before_vec, p as int, self.nodes@[p as int]);
            assert(self@.nodes =~= before.update(p as int, NodeSlotV::Leaf(key_package@)));
        }
        Ok(())
    }

    /// Blanks leaf `index` and every internal node above it; the array does
    /// not shrink.  Fails exactly when `index` does not name an occupied
    /// leaf.
    pub fn remove(&mut self, index: LeafIndex) -> (r: Result<(), TreeError>)
        requires
            wf_tree(old(self)@),
        ensures
            match r {
                Ok(()) => 2 * index < old(self)@.nodes.len() && old(self)@.nodes[2 * index as int] is Leaf
                    && final(self)@.height == old(self)@.height && final(self)@.nodes
                    == spec_set_slot(
                    spec_blank_ancestors(old(self)@.nodes, index as nat, old(self)@.height),
                    2 * index as nat,
                    NodeSlotV::Blank,
                ) && wf_tree(final(self)@),
                Err(e) => e == TreeError::UnknownLeaf && (2 * index >= old(self)@.nodes.len() || !(
                old(self)@.nodes[2 * index as int] is Leaf)) && final(self)@ == old(self)@,
            },
    {
        if 2 * (index as u64) >= self.nodes.len() as u64 {
            return Err(TreeError::UnknownLeaf);
        }
        let p = 2 * (index as usize);
        let occupied = matches!(&self.nodes[p], NodeSlot::Leaf(_));
        if !occupied {
            return Err(TreeError::UnknownLeaf);
        }
        proof {
            lemma_pow2_pos(self@.height);
        }
        self.blank_ancestors(index);
        proof {
            lemma_blank_ancestors_shape(old(self)@.nodes, index as nat, old(self)@.height);
        }
        let ghost before_vec = self.nodes@;
        let ghost before = self@.nodes;
        self.nodes.set(p, NodeSlot::Blank);
        proof {
            lemma_views_update(before_vec, p as int, self.nodes@[p as int]);
            assert(self@.nodes =~= before.update(p as int, NodeSlotV::Blank));
        }
        Ok(())
    }

    /// The first blank leaf slot, if any.
    pub fn find_blank_leaf(&self) -> (r: Option<LeafIndex>)
        requires
            wf_tree(self@),
        ensures
            match r {
                Some(i) => spec_first_blank(self@.nodes, 0, pow2(self@.height)) == Some(i as nat),
                None => spec_first_blank(self@.nodes, 0, pow2(self@.height)) is None,
            },
    {
        let cap = self.capacity();
        proof {
            lemma2_to64();
            lemma2_to64_rest_local();
            assert(pow2(self@.height) <= pow2(30)) by {
                if self@.height < 30 {
                    lemma_pow2_strictly_increases(self@.height, 30);
                }
            }
        }
        let mut j: u64 = 0;
        while j < cap
            invariant
                j <= cap,
                cap as nat == pow2(self@.height),
                cap <= 0x40000000,
                wf_tree(self@),
                forall|x: int|
                    0 <= x < j ==> !(2 * x < self@.nodes.len() && (#[trigger] self@.nodes[2 * x]) is Blank),
            decreases cap - j,
        {
            if 2 * j < self.nodes.len() as u64 {
                let p = 2 * (j as usize);
                let blank = matches!(&self.nodes[p], NodeSlot::Blank);
                if blank {
                    proof {
                        lemma_first_blank_found(self@.nodes, 0, j as nat, cap as nat);
                        lemma2_to64();
                        lemma2_to64_rest_local();
                        assert(pow2(self@.height) <= pow2(30)) by {
                            if self@.height < 30 {
                                lemma_pow2_strictly_increases(self@.height, 30);
                            }
                        }
                    }
                    return Some(j as LeafIndex);
                }
            }
            j = j + 1;
        }
        proof {
            lemma_first_blank_none(self@.nodes, 0, cap as nat);
        }
        None
    }

    /// Doubles the leaf capacity: the old tree becomes the left half of the
    /// new one, at the same positions, and the new half is blank.
    fn grow(&mut self)
        requires
            wf_tree(old(self)@),
            old(self)@.height < 30,
        ensures
            final(self)@.height == old(self)@.height + 1,
            final(self)@.nodes == old(self)@.nodes + Seq::new(
                2 * pow2(old(self)@.height),
                |x: int| NodeSlotV::Blank,
            ),
            wf_tree(final(self)@),
    {
        let ghost oldnodes = self@.nodes;
        let cap = self.capacity();
        proof {
            lemma2_to64();
            lemma2_to64_rest_local();
            assert(pow2(self@.height) <= pow2(29)) by {
                if self@.height < 29 {
                    lemma_pow2_strictly_increases(self@.height, 29);
                }
            }
        }
        let extra = 2 * cap;
        let mut added: u64 = 0;
        while added < extra
            invariant
                added <= extra,
                extra as nat == 2 * pow2(old(self)@.height),
                self.height == old(self).height,
                self@.nodes == old(self)@.nodes + Seq::new(added as nat, |x: int| NodeSlotV::Blank),
            decreases extra - added,
        {
            let ghost before_vec = self.nodes@;
            self.nodes.push(NodeSlot::Blank);
            proof {
                lemma_views_push(before_vec, NodeSlot::Blank);
                assert(self@.nodes =~= old(self)@.nodes + Seq::new(
                    (added + 1) as nat,
                    |x: int| NodeSlotV::Blank,
                ));
            }
            added = added + 1;
        }
        self.height = self.height + 1;
        proof {
            vstd::arithmetic::power2::lemma_pow2_adds(old(self)@.height, 1);
            lemma2_to64();
        }
    }

    /// Pushes leaf `i` onto the unmerged list of each occupied internal node
    /// above it.
    fn add_unmerged(&mut self, i: LeafIndex)
        requires
            wf_tree(old(self)@),
            (i as nat) < pow2(old(self)@.height),
        ensures
            final(self)@.nodes == spec_add_unmerged(old(self)@.nodes, i as nat, old(self)@.height),
            final(self)@.height == old(self)@.height,
            wf_tree(final(self)@),
    {
        let h = self.height;
        let mut l: usize = 0;
        while l < h
            invariant
                l <= h,
                h == self.height,
                wf_tree(old(self)@),
                (i as nat) < pow2(old(self)@.height),
                self@.height == old(self)@.height,
                self@.nodes == spec_add_unmerged(old(self)@.nodes, i as nat, l as nat),
            decreases h - l,
        {
            proof {
                lemma_add_unmerged_shape(old(self)@.nodes, i as nat, l as nat);
                lemma_ancestor_in_width(i as nat, (l + 1) as nat, old(self)@.height);
                lemma2_to64();
                lemma2_to64_rest_local();
                assert(pow2(old(self)@.height) <= pow2(30)) by {
                    if old(self)@.height < 30 {
                        lemma_pow2_strictly_increases(old(self)@.height, 30);
                    }
                }
                lemma_pow2_strictly_increases(30, 62);
            }
            let pos_u = ancestor(i as u64, (l + 1) as u64);
            proof {
                assert((pos_u as nat) < spec_width(old(self)@.height));
            }
            let pos = pos_u as usize;
            let ghost before_vec = self.nodes@;
            let ghost before = self@.nodes;
            let is_parent = matches!(&self.nodes[pos], NodeSlot::Parent(_));
            if is_parent {
                let mut np = match &self.nodes[pos] {
                    NodeSlot::Parent(p) => p.dup(),
                    _ => ParentNode { public_key: Vec::new(), unmerged_leaves: Vec::new() },
                };
                np.unmerged_leaves.push(i);
                self.nodes.set(pos, NodeSlot::Parent(np));
                proof {
                    lemma_views_update(before_vec, pos as int, self.nodes@[pos as int]);
                    assert(self@.nodes =~= before.update(
                        pos as int,
                        spec_push_unmerged(before[pos as int], i),
                    ));
                }
            } else {
                proof {
                    assert(before.update(
                        pos as int,
                        spec_push_unmerged(before[pos as int], i),
                    ) =~= before);
                }
            }
            proof {
                assert(self@.nodes =~= spec_add_unmerged(
                    old(self)@.nodes,
                    i as nat,
                    (l + 1) as nat,
                ));
            }
            l = l + 1;
        }
        proof {
            lemma_add_unmerged_shape(old(self)@.nodes, i as nat, old(self)@.height);
        }
    }

    /// Places a new leaf in the first blank slot, growing the tree by
    /// doubling when it is full, and records the new leaf as unmerged on
    /// every occupied internal node above it.  Fails only when the tree is
    /// full and has already reached the height cap.
    pub fn add(&mut self, key_package: KeyPackage) -> (r: Result<LeafIndex, TreeError>)
        requires
            wf_tree(old(self)@),
        ensures
            match r {
                Ok(idx) => ({
                    let t1 = if spec_first_blank(
                        old(self)@.nodes,
                        0,
                        pow2(old(self)@.height),
                    ) is Some {
                        old(self)@
                    } else {
                        RatchetTreeV {
                            nodes: old(self)@.nodes + Seq::new(
                                2 * pow2(old(self)@.height),
                                |x: int| NodeSlotV::Blank,
                            ),
                            height: old(self)@.height + 1,
                        }
                    };
                    spec_first_blank(t1.nodes, 0, pow2(t1.height)) == Some(idx as nat)
                        && final(self)@.height == t1.height && final(self)@.nodes
                        == spec_add_unmerged(
                        spec_set_slot(t1.nodes, 2 * idx as nat, NodeSlotV::Leaf(key_package@)),
                        idx as nat,
                        t1.height,
                    ) && wf_tree(final(self)@)
                }),
                Err(e) => e == TreeError::Capacity && old(self)@.height == 30 && spec_first_blank(
                    old(self)@.nodes,
                    0,
                    pow2(30),
                ) is None && final(self)@ == old(self)@,
            },
    {
        let found = self.find_blank_leaf();
        let idx: LeafIndex = match found {
            Some(i) => i,
            None => {
                if self.height >= 30 {
                    return Err(TreeError::Capacity);
                }
                self.grow();
                match self.find_blank_leaf() {
                    Some(i) => i,
                    None => {
                        proof {
                            let t1 = self@;
                            let cap0 = pow2(old(self)@.height);
                            lemma2_to64();
                            lemma_pow2_pos(old(self)@.height);
                            vstd::arithmetic::power2::lemma_pow2_adds(old(self)@.height, 1);
                            assert(pow2(t1.height) == 2 * cap0);
                            assert(old(self)@.nodes.len() == 2 * cap0 - 1);
                            assert(2 * cap0 < t1.nodes.len());
                            assert(t1.nodes[2 * cap0 as int] == Seq::new(
                                2 * cap0,
                                |x: int| NodeSlotV::Blank,
                            )[2 * cap0 as int - (2 * cap0 - 1)]);
                            assert(t1.nodes[2 * cap0 as int] is Blank);
                            assert(cap0 < pow2(t1.height));
                            assert(spec_first_blank(t1.nodes, 0, pow2(t1.height)) is None);
                            lemma_first_blank_some_of_blank(t1.nodes, 0, cap0, pow2(t1.height));
                            assert(false);
                        }
                        return Err(TreeError::Capacity);
                    },
                }
            },
        };
        proof {
            lemma_first_blank_in_range(
                if found is Some {
                    old(self)@.nodes
                } else {
                    self@.nodes
                },
                0,
                idx as nat,
                pow2(self@.height),
            );
        }
        proof {
            lemma2_to64();
            lemma2_to64_rest_local();
            assert(pow2(self@.height) <= pow2(30)) by {
                if self@.height < 30 {
                    lemma_pow2_strictly_increases(self@.height, 30);
                }
            }
        }
        let ghost t1nodes = self@.nodes;
        let ghost t1vec = self.nodes@;
        let p = 2 * (idx as usize);
        self.nodes.set(p, NodeSlot::Leaf(key_package));
        proof {
            lemma_views_update(t1vec, p as int, self.nodes@[p as int]);
            assert(self@.nodes =~= spec_set_slot(
                t1nodes,
                2 * idx as nat,
                NodeSlotV::Leaf(key_package@),
            ));
        }
        self.add_unmerged(idx);
        Ok(idx)
    }
}

impl RatchetTree {
    /// The internal positions on leaf `i`'s way to the root, ordered from
    /// just above the leaf to the root itself: a function of the tree's
    /// shape alone.
    #[verifier::loop_isolation(false)]
    pub fn direct_path(&self, i: LeafIndex) -> (r: Result<Vec<usize>, TreeError>)
        requires
            wf_tree(self@),
        ensures
            match r {
                Ok(path) => (i as nat) < pow2(self@.height) && path@.len()
                    == crate::tree_math::spec_direct_path(i as nat, self@.height).len() && forall|
                    j: int,
                |
                    0 <= j < path@.len() ==> #[trigger] path@[j] as nat
                        == crate::tree_math::spec_direct_path(i as nat, self@.height)[j]
                        && path@[j] < self@.nodes.len(),
                Err(e) => e == TreeError::UnknownLeaf && (i as nat) >= pow2(self@.height),
            },
    {
        proof {
            lemma2_to64();
            lemma2_to64_rest_local();
            assert(pow2(self@.height) <= pow2(30)) by {
                if self@.height < 30 {
                    lemma_pow2_strictly_increases(self@.height, 30);
                }
            }
        }
        let cap = pow2_u64(self.height as u64);
        if (i as u64) >= cap {
            return Err(TreeError::UnknownLeaf);
        }
        let h = self.height;
        let mut path: Vec<usize> = Vec::new();
        let mut l: usize = 0;
        while l < h
            invariant
                l <= h,
                path@.len() == l,
                forall|j: int|
                    0 <= j < l ==> #[trigger] path@[j] as nat == crate::tree_math::spec_direct_path(
                        i as nat,
                        self@.height,
                    )[j] && path@[j] < self@.nodes.len(),
            decreases h - l,
        {
            proof {
                lemma_ancestor_in_width(i as nat, (l + 1) as nat, self@.height);
                lemma_pow2_strictly_increases(30, 62);
            }
            let pos = ancestor(i as u64, (l + 1) as u64);
            path.push(pos as usize);
            l = l + 1;
        }
        Ok(path)
    }
}

/// The identity a leaf's credential asserts, where it is a bare identity.
pub open spec fn spec_leaf_basic_identity(n: NodeSlotV) -> Option<Seq<u8>> {
    match n {
        NodeSlotV::Leaf(kp) => match kp.credential {
            crate::credential::CredentialV::Basic(b) => Some(b.identity),
            _ => None,
        },
        _ => None,
    }
}

impl RatchetTree {
    /// A copy with the same shape and contents.
    pub fn dup(&self) -> (r: RatchetTree)
        ensures
            r@ == self@,
    {
        let r = RatchetTree { nodes: dup_list::<NodeSlot>(&self.nodes), height: self.height };
        proof {
            assert(r@.nodes =~= self@.nodes);
        }
        r
    }

    /// Whether some occupied leaf already asserts the given bare identity.
    #[verifier::loop_isolation(false)]
    pub fn has_basic_identity(&self, identity: &Vec<u8>) -> (r: bool)
        requires
            wf_tree(self@),
        ensures
            r == exists|p: int|
                0 <= p < self@.nodes.len() && #[trigger] spec_leaf_basic_identity(self@.nodes[p])
                    == Some(identity@),
    {
        let mut p: usize = 0;
        while p < self.nodes.len()
            invariant
                p <= self@.nodes.len(),
                forall|q: int|
                    0 <= q < p ==> #[trigger] spec_leaf_basic_identity(self@.nodes[q]) != Some(
                        identity@,
                    ),
            decreases self@.nodes.len() - p,
        {
            match &self.nodes[p] {
                NodeSlot::Leaf(kp) => match &kp.credential {
                    crate::credential::Credential::Basic(b) => {
                        if crate::codec::bytes_eq(&b.identity, identity) {
                            proof {
                                assert(spec_leaf_basic_identity(self@.nodes[p as int]) == Some(
                                    identity@,
                                ));
                            }
                            return true;
                        }
                    },
                    _ => {},
                },
                _ => {},
            }
            p = p + 1;
        }
        false
    }
}

/// Whether encoded tree bytes decode to a whole well-shaped tree whose
/// recomputed hash differs from the advertised one.
pub open spec fn spec_decoded_tree_hash_differs(bytes: Seq<u8>, advertised: Seq<u8>) -> bool {
    exists|t: RatchetTreeV|
        wf_tree(t) && (crate::codec::spec_dec_list::<NodeSlot>(bytes, 0) matches Some((m, end))
            && m == t.nodes && end == bytes.len() && t.nodes.len() == spec_width(t.height))
            && #[trigger] spec_tree_hash(t) != advertised
}

/// Whether the decoded tree's signer leaf cannot vouch for the group info:
/// the signer slot is not an occupied leaf with a bare identity, or the
/// signature does not verify under its key.
pub open spec fn spec_signer_rejects(bytes: Seq<u8>, gi: crate::framing::GroupInfoV) -> bool {
    forall|t: RatchetTreeV|
        (wf_tree(t) && (crate::codec::spec_dec_list::<NodeSlot>(bytes, 0) matches Some((m, end))
            && m == t.nodes && end == bytes.len())) ==> !(2 * gi.signer < t.nodes.len()
            && (#[trigger] t.nodes[2 * gi.signer as int] matches NodeSlotV::Leaf(kp)
            && (kp.credential matches crate::credential::CredentialV::Basic(b)
            && crate::crypto::ed25519_verify_of(
            b.signature_key,
            gi.signature,
            crate::framing::spec_group_info_tbs(gi),
        ))))
}

/// A blank leaf below the cap means the scan returns something.
proof fn lemma_first_blank_some_of_blank(nodes: Seq<NodeSlotV>, from: nat, j: nat, cap: nat)
    requires
        from <= j < cap,
        2 * j < nodes.len(),
        nodes[2 * j as int] is Blank,
    ensures
        spec_first_blank(nodes, from, cap) is Some,
    decreases cap - from,
{
    if 2 * from < nodes.len() && nodes[2 * from as int] is Blank {
    } else {
        lemma_first_blank_some_of_blank(nodes, (from + 1) as nat, j, cap);
    }
}

/// What the scan returns lies in range and names a blank leaf.
proof fn lemma_first_blank_in_range(nodes: Seq<NodeSlotV>, from: nat, j: nat, cap: nat)
    requires
        spec_first_blank(nodes, from, cap) == Some(j),
    ensures
        from <= j < cap,
        2 * j < nodes.len(),
        nodes[2 * j as int] is Blank,
    decreases cap - from,
{
    if from >= cap {
    } else if 2 * from < nodes.len() && nodes[2 * from as int] is Blank {
    } else {
        lemma_first_blank_in_range(nodes, (from + 1) as nat, j, cap);
    }
}


proof fn lemma2_to64_rest_local()
    ensures
        pow2(31) == 0x80000000,
        pow2(32) == 0x100000000,
        pow2(62) <= u64::MAX,
        pow2(63) <= u64::MAX,
{
    vstd::arithmetic::power2::lemma2_to64();
    vstd::arithmetic::power2::lemma2_to64_rest();
}

} // verus!
