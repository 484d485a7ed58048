use vstd::prelude::*;

use vstd::arithmetic::power2::{lemma2_to64, lemma2_to64_rest, lemma_pow2_adds, lemma_pow2_pos, pow2};

verus! {

// The ratchet tree lives in an array of 2L - 1 node slots for L = 2^h leaf
// slots: leaf i sits at position 2i, and the subtree with base leaf b and
// height k has its root at 2b + 2^k - 1.  All positions below are stated
// over that numbering.

/// The number of node slots of a tree of height `h`.
pub open spec fn spec_width(h: nat) -> nat {
    (2 * pow2(h) - 1) as nat
}

/// The root position of the subtree with base leaf `b` and height `k`.
pub open spec fn spec_subtree_root(b: nat, k: nat) -> nat {
    (2 * b + pow2(k) - 1) as nat
}

/// The base leaf of the height-`l` subtree that contains leaf `i`.
pub open spec fn spec_level_base(i: nat, l: nat) -> nat {
    (i / pow2(l)) * pow2(l)
}

/// The ancestor of leaf `i` at level `l`: the root of the height-`l` subtree
/// that contains it.
pub open spec fn spec_ancestor(i: nat, l: nat) -> nat {
    spec_subtree_root(spec_level_base(i, l), l)
}

/// The internal positions on leaf `i`'s way to the root of a height-`h`
/// tree, ordered from just above the leaf to the root itself.
pub open spec fn spec_direct_path(i: nat, h: nat) -> Seq<nat> {
    Seq::new(h, |j: int| spec_ancestor(i, (j + 1) as nat))
}

/// At level `l`, whether leaf `i` lies in the left half of its level-`l`
/// subtree.
pub open spec fn spec_in_left_half(i: nat, l: nat) -> bool
    recommends
        l >= 1,
{
    (i / pow2((l - 1) as nat)) % 2 == 0
}

/// The base leaf of the sibling subtree at level `l`: the child of leaf
/// `i`'s level-`l` ancestor that does not contain `i`.
pub open spec fn spec_copath_base(i: nat, l: nat) -> nat
    recommends
        l >= 1,
{
    if spec_in_left_half(i, l) {
        (spec_level_base(i, l) + pow2((l - 1) as nat)) as nat
    } else {
        spec_level_base(i, l)
    }
}

/// Powers of two, executably.
pub fn pow2_u64(k: u64) -> (r: u64)
    requires
        k <= 63,
    ensures
        r as nat == pow2(k as nat),
{
    proof {
        lemma2_to64();
        lemma2_to64_rest();
    }
    let mut r: u64 = 1;
    let mut j: u64 = 0;
    while j < k
        invariant
            j <= k,
            k <= 63,
            r as nat == pow2(j as nat),
        decreases k - j,
    {
        proof {
            lemma_pow2_adds(j as nat, 1);
            lemma2_to64();
            if j as nat + 1 <= 63 {
                vstd::arithmetic::power2::lemma_pow2_strictly_increases(j as nat + 1, 64);
            }
        }
        r = r * 2;
        j = j + 1;
    }
    r
}

/// The level-`l` base of leaf `i`, executably.
pub fn level_base(i: u64, l: u64) -> (r: u64)
    requires
        l <= 63,
    ensures
        r as nat == spec_level_base(i as nat, l as nat),
        r <= i,
{
    let p = pow2_u64(l);
    proof {
        lemma_pow2_pos(l as nat);
        assert((i as nat / p as nat) * p as nat <= i as nat) by (nonlinear_arith)
            requires
                p as nat >= 1,
        ;
    }
    (i / p) * p
}

/// The root position of a subtree, executably.
pub fn subtree_root(b: u64, k: u64) -> (r: u64)
    requires
        k <= 62,
        2 * b + pow2(k as nat) - 1 <= u64::MAX,
    ensures
        r as nat == spec_subtree_root(b as nat, k as nat),
{
    let p = pow2_u64(k);
    proof {
        lemma_pow2_pos(k as nat);
    }
    2 * b + (p - 1)
}

/// The ancestor of leaf `i` at level `l`, executably.
pub fn ancestor(i: u64, l: u64) -> (r: u64)
    requires
        l <= 62,
        i < pow2(62),
    ensures
        r as nat == spec_ancestor(i as nat, l as nat),
{
    let b = level_base(i, l);
    proof {
        lemma_pow2_pos(l as nat);
        lemma2_to64_rest();
        vstd::arithmetic::power2::lemma_pow2_strictly_increases(62, 63);
        if l as nat <= 62 {
            vstd::arithmetic::power2::lemma_pow2(l as nat);
        }
        assert(pow2(l as nat) <= pow2(62)) by {
            if (l as nat) < 62 {
                vstd::arithmetic::power2::lemma_pow2_strictly_increases(l as nat, 62);
            }
        }
    }
    subtree_root(b, l)
}

/// A subtree whose leaf range fits the tree has its root inside the array.
pub proof fn lemma_subtree_root_in_width(b: nat, k: nat, h: nat)
    requires
        b + pow2(k) <= pow2(h),
    ensures
        spec_subtree_root(b, k) < spec_width(h),
{
    lemma_pow2_pos(k);
    lemma_pow2_pos(h);
}

/// The level-`l` subtree around a leaf of a height-`h` tree fits the tree.
pub proof fn lemma_level_base_fits(i: nat, l: nat, h: nat)
    requires
        i < pow2(h),
        l <= h,
    ensures
        spec_level_base(i, l) + pow2(l) <= pow2(h),
{
    let p = pow2(l);
    let q = i / p;
    lemma_pow2_pos(l);
    lemma_pow2_adds((h - l) as nat, l);
    assert(q < pow2((h - l) as nat)) by (nonlinear_arith)
        requires
            p >= 1,
            i < pow2((h - l) as nat) * p,
            q == i / p,
    ;
    assert((q + 1) * p <= pow2((h - l) as nat) * p) by (nonlinear_arith)
        requires
            p >= 1,
            q + 1 <= pow2((h - l) as nat),
    ;
    assert(q * p + p == (q + 1) * p) by (nonlinear_arith);
}

/// An ancestor of a leaf of a height-`h` tree lies inside the array.
pub proof fn lemma_ancestor_in_width(i: nat, l: nat, h: nat)
    requires
        i < pow2(h),
        l <= h,
    ensures
        spec_ancestor(i, l) < spec_width(h),
{
    lemma_level_base_fits(i, l, h);
    lemma_subtree_root_in_width(spec_level_base(i, l), l, h);
}

} // verus!
