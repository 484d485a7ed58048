use vstd::prelude::*;

use vstd::multiset::Multiset;
use vstd::relations::sorted_by;
use vstd::seq_lib::group_to_multiset_ensures;

use crate::codec::{bytes_eq, enc_u32, lemma_split2, lemma_rt_u32, spec_enc_u32, WireCode};
use crate::proposal::{LeafIndex, PendingProposal, PendingProposalV, Proposal, ProposalV};

verus! {

broadcast use {group_to_multiset_ensures, vstd::multiset::group_multiset_axioms};

// Proposal resolution: a batch of pending proposals becomes a canonical,
// order-independent set of mutations.  Within each category the canonical
// order is the lexicographic order of the proposals' encodings, so two
// members that hold the same proposals in any receipt order compute
// bit-identical mutation lists.

// ---------------------------------------------------------------------------
// Lexicographic order on byte strings.
// ---------------------------------------------------------------------------

pub open spec fn lex_leq(a: Seq<u8>, b: Seq<u8>) -> bool
    decreases a.len(),
{
    if a.len() == 0 {
        true
    } else if b.len() == 0 {
        false
    } else if a[0] < b[0] {
        true
    } else if a[0] > b[0] {
        false
    } else {
        lex_leq(a.drop_first(), b.drop_first())
    }
}

pub proof fn lemma_lex_refl(a: Seq<u8>)
    ensures
        lex_leq(a, a),
    decreases a.len(),
{
    if a.len() > 0 {
        lemma_lex_refl(a.drop_first());
    }
}

pub proof fn lemma_lex_antisym(a: Seq<u8>, b: Seq<u8>)
    requires
        lex_leq(a, b),
        lex_leq(b, a),
    ensures
        a == b,
    decreases a.len(),
{
    if a.len() == 0 {
        assert(b.len() == 0);
        assert(a =~= b);
    } else {
        lemma_lex_antisym(a.drop_first(), b.drop_first());
        assert(a =~= seq![a[0]] + a.drop_first());
        assert(b =~= seq![b[0]] + b.drop_first());
    }
}

pub proof fn lemma_lex_trans(a: Seq<u8>, b: Seq<u8>, c: Seq<u8>)
    requires
        lex_leq(a, b),
        lex_leq(b, c),
    ensures
        lex_leq(a, c),
    decreases a.len(),
{
    if a.len() == 0 {
    } else if b.len() == 0 {
    } else if c.len() == 0 {
    } else {
        if a[0] == b[0] && b[0] == c[0] {
            lemma_lex_trans(a.drop_first(), b.drop_first(), c.drop_first());
        }
    }
}

pub proof fn lemma_lex_connected(a: Seq<u8>, b: Seq<u8>)
    ensures
        lex_leq(a, b) || lex_leq(b, a),
    decreases a.len(),
{
    if a.len() == 0 {
    } else if b.len() == 0 {
    } else if a[0] == b[0] {
        lemma_lex_connected(a.drop_first(), b.drop_first());
    }
}

/// Compares two byte vectors lexicographically, executably.
#[verifier::loop_isolation(false)]
pub fn lex_leq_exec(a: &Vec<u8>, b: &Vec<u8>) -> (r: bool)
    ensures
        r == lex_leq(a@, b@),
{
    proof {
        assert(a@.skip(0) =~= a@);
        assert(b@.skip(0) =~= b@);
    }
    let mut k: usize = 0;
    loop
        invariant
            k <= a@.len(),
            k <= b@.len(),
            forall|i: int| 0 <= i < k ==> a@[i] == b@[i],
            lex_leq(a@, b@) == lex_leq(a@.skip(k as int), b@.skip(k as int)),
        decreases a@.len() - k,
    {
        if k == a.len() {
            proof {
                assert(a@.skip(k as int) =~= Seq::<u8>::empty());
            }
            return true;
        }
        if k == b.len() {
            proof {
                assert(b@.skip(k as int) =~= Seq::<u8>::empty());
                assert(a@.skip(k as int).len() > 0);
            }
            return false;
        }
        let x = a[k];
        let y = b[k];
        proof {
            assert(a@.skip(k as int)[0] == a@[k as int]);
            assert(b@.skip(k as int)[0] == b@[k as int]);
            assert(a@.skip(k as int).drop_first() =~= a@.skip(k as int + 1));
            assert(b@.skip(k as int).drop_first() =~= b@.skip(k as int + 1));
        }
        if x < y {
            return true;
        }
        if x > y {
            return false;
        }
        k = k + 1;
    }
}

// ---------------------------------------------------------------------------
// The canonical key of a pending proposal: its sender and its encoding.
// ---------------------------------------------------------------------------

/// The encoding a pending proposal is ordered by.
pub open spec fn spec_pending_enc(p: PendingProposalV) -> Seq<u8> {
    spec_enc_u32(p.sender) + Proposal::spec_enc(p.proposal)
}

/// The canonical order on pending proposals.
pub open spec fn pending_leq() -> spec_fn(PendingProposalV, PendingProposalV) -> bool {
    |x: PendingProposalV, y: PendingProposalV| lex_leq(spec_pending_enc(x), spec_pending_enc(y))
}

/// The encoding of a pending proposal, executably.
pub fn pending_enc(p: &PendingProposal) -> (r: Vec<u8>)
    ensures
        r@ == spec_pending_enc(p@),
{
    let mut out: Vec<u8> = Vec::new();
    enc_u32(&mut out, p.sender);
    p.proposal.encode(&mut out);
    proof {
        assert(out@ =~= spec_pending_enc(p@));
    }
    out
}

/// Equal encodings of well-formed pending proposals mean equal models: an
/// encoding decodes back to the model it came from.
pub proof fn lemma_pending_enc_injective(x: PendingProposalV, y: PendingProposalV)
    requires
        Proposal::wire_wf(x.proposal),
        Proposal::wire_wf(y.proposal),
        spec_pending_enc(x) == spec_pending_enc(y),
    ensures
        x == y,
{
    let ex = spec_pending_enc(x);
    let e = Seq::<u8>::empty();
    lemma_split2(e, spec_enc_u32(x.sender), Proposal::spec_enc(x.proposal), e);
    lemma_rt_u32(e, x.sender, Proposal::spec_enc(x.proposal) + e);
    Proposal::lemma_rt(e + spec_enc_u32(x.sender), x.proposal, e);
    lemma_split2(e, spec_enc_u32(y.sender), Proposal::spec_enc(y.proposal), e);
    lemma_rt_u32(e, y.sender, Proposal::spec_enc(y.proposal) + e);
    Proposal::lemma_rt(e + spec_enc_u32(y.sender), y.proposal, e);
    crate::codec::lemma_enc_lens(0, x.sender, 0, e);
    crate::codec::lemma_enc_lens(0, y.sender, 0, e);
    assert(e + (spec_enc_u32(x.sender) + Proposal::spec_enc(x.proposal)) + e =~= ex);
    assert(e + (spec_enc_u32(y.sender) + Proposal::spec_enc(y.proposal)) + e =~= ex);
    assert(crate::codec::spec_dec_u32(ex, 0) == Some((x.sender, 4int)));
    assert(crate::codec::spec_dec_u32(ex, 0) == Some((y.sender, 4int)));
    assert(Proposal::spec_dec(ex, 4) matches Some((px, _)) && px == x.proposal);
    assert(Proposal::spec_dec(ex, 4) matches Some((py, _)) && py == y.proposal);
}

// ---------------------------------------------------------------------------
// Filtered multisets: the multiset of a sequence's elements that satisfy a
// predicate.  It depends only on the sequence's multiset, which is exactly
// the order-independence of resolution.
// ---------------------------------------------------------------------------

pub open spec fn fms<A>(s: Seq<A>, p: spec_fn(A) -> bool) -> Multiset<A>
    decreases s.len(),
{
    if s.len() == 0 {
        Multiset::empty()
    } else if p(s.last()) {
        fms(s.drop_last(), p).insert(s.last())
    } else {
        fms(s.drop_last(), p)
    }
}

/// Every element of the filtered multiset is an element of the sequence and
/// satisfies the predicate.
pub proof fn lemma_fms_contains<A>(s: Seq<A>, p: spec_fn(A) -> bool)
    ensures
        forall|x: A| #[trigger] fms(s, p).contains(x) ==> s.contains(x) && p(x),
    decreases s.len(),
{
    if s.len() == 0 {
    } else {
        lemma_fms_contains(s.drop_last(), p);
        assert forall|x: A| #[trigger] fms(s, p).contains(x) implies s.contains(x) && p(x) by {
            if x == s.last() && p(x) {
                assert(s[s.len() - 1] == x);
            } else {
                assert(fms(s.drop_last(), p).contains(x));
                let i = choose|i: int|
                    0 <= i < s.drop_last().len() && s.drop_last()[i] == x;
                assert(s[i] == x);
            }
        }
    }
}

/// Removing one element removes exactly its contribution to the filtered
/// multiset.
proof fn lemma_fms_remove<A>(s: Seq<A>, i: int, p: spec_fn(A) -> bool)
    requires
        0 <= i < s.len(),
    ensures
        fms(s, p) == if p(s[i]) {
            fms(s.remove(i), p).insert(s[i])
        } else {
            fms(s.remove(i), p)
        },
    decreases s.len(),
{
    if i == s.len() - 1 {
        assert(s.remove(i) =~= s.drop_last());
    } else {
        lemma_fms_remove(s.drop_last(), i, p);
        assert(s.remove(i).drop_last() =~= s.drop_last().remove(i));
        assert(s.remove(i).last() == s.last());
        if p(s.last()) && p(s[i]) {
            assert(fms(s.remove(i), p) == fms(s.drop_last().remove(i), p).insert(s.last()));
            assert(fms(s.drop_last(), p) == fms(s.drop_last().remove(i), p).insert(s[i]));
            assert(fms(s.drop_last().remove(i), p).insert(s.last()).insert(s[i]) =~= fms(
                s.drop_last().remove(i),
                p,
            ).insert(s[i]).insert(s.last()));
        }
    }
}

/// The filtered multiset depends only on the sequence's multiset: resolution
/// does not care in which order the proposals arrived.
pub proof fn lemma_fms_permutation<A>(a: Seq<A>, b: Seq<A>, p: spec_fn(A) -> bool)
    requires
        a.to_multiset() == b.to_multiset(),
    ensures
        fms(a, p) == fms(b, p),
    decreases a.len(),
{
    if a.len() == 0 {
        assert(a.to_multiset().len() == 0);
        assert(b.to_multiset().len() == 0);
        assert(b.len() == 0);
    } else {
        let x = a.last();
        assert(a.contains(x));
        assert(a.to_multiset().contains(x));
        assert(b.to_multiset().contains(x));
        assert(b.contains(x));
        let i = choose|i: int| 0 <= i < b.len() && b[i] == x;
        let b2 = b.remove(i);
        assert(b2.to_multiset() == b.to_multiset().remove(x));
        assert(a.drop_last() =~= a.remove(a.len() - 1));
        assert(a.drop_last().to_multiset() == a.to_multiset().remove(x));
        lemma_fms_permutation(a.drop_last(), b2, p);
        lemma_fms_remove(b, i, p);
        lemma_fms_remove(a, a.len() - 1, p);
        assert(a.remove(a.len() - 1) =~= a.drop_last());
    }
}

/// Two sorted sequences of well-formed pending proposals with the same
/// multiset are the same sequence: the canonical order pins the layout.
pub proof fn lemma_sorted_pendings_unique(x: Seq<PendingProposalV>, y: Seq<PendingProposalV>)
    requires
        sorted_by(x, pending_leq()),
        sorted_by(y, pending_leq()),
        x.to_multiset() == y.to_multiset(),
        forall|e: PendingProposalV| x.to_multiset().contains(e) ==> #[trigger] Proposal::wire_wf(
            e.proposal,
        ),
    ensures
        x =~= y,
    decreases x.len(),
{
    if x.len() == 0 {
        assert(x.to_multiset().len() == 0);
        assert(y.to_multiset().len() == 0);
        assert(y.len() == 0);
    } else if y.len() == 0 {
        assert(y.to_multiset().len() == 0);
        assert(x.to_multiset().len() == 0);
    } else {
        assert(x.contains(x[0]));
        assert(x.to_multiset().contains(x[0]));
        assert(y.to_multiset().contains(x[0]));
        assert(y.contains(x[0]));
        assert(x.to_multiset().contains(y[0]));
        assert(x.contains(y[0]));
        let i = choose|i: int| 0 <= i < x.len() && x[i] == y[0];
        let j = choose|j: int| 0 <= j < y.len() && y[j] == x[0];
        if i == 0 {
            lemma_lex_refl(spec_pending_enc(x[0]));
        }
        if j == 0 {
            lemma_lex_refl(spec_pending_enc(y[0]));
        }
        assert(pending_leq()(x[0], x[i]));
        assert(pending_leq()(y[0], y[j]));
        assert(lex_leq(spec_pending_enc(x[0]), spec_pending_enc(y[0])));
        assert(lex_leq(spec_pending_enc(y[0]), spec_pending_enc(x[0])));
        lemma_lex_antisym(spec_pending_enc(x[0]), spec_pending_enc(y[0]));
        assert(Proposal::wire_wf(x[0].proposal));
        assert(Proposal::wire_wf(y[0].proposal));
        lemma_pending_enc_injective(x[0], y[0]);
        assert(x[0] == y[0]);
        let x1 = x.drop_first();
        let y1 = y.drop_first();
        assert(x1 =~= x.remove(0));
        assert(y1 =~= y.remove(0));
        assert(x1.to_multiset() == x.to_multiset().remove(x[0]));
        assert(y1.to_multiset() == y.to_multiset().remove(y[0]));
        assert forall|e: PendingProposalV| x1.to_multiset().contains(e) implies #[trigger] Proposal::wire_wf(
            e.proposal,
        ) by {
            assert(x.to_multiset().contains(e));
        }
        assert forall|a: int, b: int|
            #![trigger x1[a], x1[b]]
            0 <= a < b < x1.len() implies pending_leq()(x1[a], x1[b]) by {
            assert(x1[a] == x[a + 1]);
            assert(x1[b] == x[b + 1]);
        }
        assert forall|a: int, b: int|
            #![trigger y1[a], y1[b]]
            0 <= a < b < y1.len() implies pending_leq()(y1[a], y1[b]) by {
            assert(y1[a] == y[a + 1]);
            assert(y1[b] == y[b + 1]);
        }
        lemma_sorted_pendings_unique(x1, y1);
        assert(x =~= seq![x[0]] + x1);
        assert(y =~= seq![y[0]] + y1);
    }
}

// ---------------------------------------------------------------------------
// The category predicates and the resolved bundle.
// ---------------------------------------------------------------------------

pub open spec fn is_update_pending(p: PendingProposalV) -> bool {
    p.proposal is Update
}

pub open spec fn is_remove_pending(p: PendingProposalV) -> bool {
    p.proposal is Remove
}

pub open spec fn is_add_pending(p: PendingProposalV) -> bool {
    p.proposal is Add
}

pub open spec fn is_psk_pending(p: PendingProposalV) -> bool {
    p.proposal is Psk
}

pub open spec fn is_reinit_pending(p: PendingProposalV) -> bool {
    p.proposal is ReInit
}

pub open spec fn is_external_init_pending(p: PendingProposalV) -> bool {
    p.proposal is ExternalInit
}

pub open spec fn is_gce_pending(p: PendingProposalV) -> bool {
    p.proposal is GroupContextExtensions
}

/// The canonical mutation list of a commit: each category of proposals in
/// the canonical order, updates first, then removes, then adds, then the
/// remaining effects.
pub struct ResolvedProposals {
    pub updates: Vec<PendingProposal>,
    pub removes: Vec<PendingProposal>,
    pub adds: Vec<PendingProposal>,
    pub psks: Vec<PendingProposal>,
    pub reinits: Vec<PendingProposal>,
    pub external_inits: Vec<PendingProposal>,
    pub gces: Vec<PendingProposal>,
}

/// What a resolved category promises: sorted canonically, and holding
/// exactly the input's proposals of that category.
pub open spec fn resolved_category(
    out: Seq<PendingProposalV>,
    input: Seq<PendingProposalV>,
    p: spec_fn(PendingProposalV) -> bool,
) -> bool {
    sorted_by(out, pending_leq()) && out.to_multiset() == fms(input, p)
}

/// Inserts a pending proposal into a canonically sorted vector, keeping it
/// sorted.
#[verifier::loop_isolation(false)]
fn insert_sorted(out: &mut Vec<PendingProposal>, item: PendingProposal)
    requires
        sorted_by(crate::codec::views_of(old(out)@), pending_leq()),
    ensures
        sorted_by(crate::codec::views_of(final(out)@), pending_leq()),
        crate::codec::views_of(final(out)@).to_multiset() == crate::codec::views_of(
            old(out)@,
        ).to_multiset().insert(item@),
{
    let key = pending_enc(&item);
    let ghost before = crate::codec::views_of(out@);
    let mut j: usize = 0;
    while j < out.len()
        invariant
            j <= out@.len(),
            forall|i: int| 0 <= i < j ==> pending_leq()(#[trigger] before[i], item@),
        decreases out@.len() - j,
    {
        let ek = pending_enc(&out[j]);
        if !lex_leq_exec(&ek, &key) {
            break;
        }
        j = j + 1;
    }
    proof {
        if j < out@.len() {
            assert(!pending_leq()(before[j as int], item@));
            lemma_lex_connected(spec_pending_enc(before[j as int]), spec_pending_enc(item@));
            assert(pending_leq()(item@, before[j as int]));
        }
    }
    let ghost before_vec = out@;
    out.insert(j, item);
    proof {
        let after = crate::codec::views_of(out@);
        assert(after.len() == before.len() + 1);
        assert forall|i: int| 0 <= i < after.len() implies #[trigger] after[i] == (if i < j {
            before[i]
        } else if i == j {
            item@
        } else {
            before[i - 1]
        }) by {
            if i < j {
                assert(out@[i] == before_vec[i]);
            } else if i == j {
            } else {
                assert(out@[i] == before_vec[i - 1]);
            }
        }
        assert forall|a: int, b: int|
            #![trigger after[a], after[b]]
            0 <= a < b < after.len() implies pending_leq()(after[a], after[b]) by {
            if a < j && b < j {
            } else if a < j && b == j {
            } else if a < j && b > j {
            } else if a == j && b > j {
                if j < before.len() {
                    if b - 1 == j {
                    } else {
                        assert(pending_leq()(before[j as int], before[b - 1]));
                        lemma_lex_trans(
                            spec_pending_enc(item@),
                            spec_pending_enc(before[j as int]),
                            spec_pending_enc(before[b - 1]),
                        );
                    }
                }
            } else {
            }
        }
        assert(after =~= before.take(j as int) + seq![item@] + before.skip(j as int));
        lemma_multiset_of_insert(before, item@, j as int);
    }
}

/// Inserting an element anywhere adds exactly it to the multiset.
proof fn lemma_multiset_of_insert(s: Seq<PendingProposalV>, v: PendingProposalV, j: int)
    requires
        0 <= j <= s.len(),
    ensures
        (s.take(j) + seq![v] + s.skip(j)).to_multiset() == s.to_multiset().insert(v),
{
    let combined = s.take(j) + seq![v] + s.skip(j);
    vstd::seq_lib::lemma_multiset_commutative(s.take(j) + seq![v], s.skip(j));
    vstd::seq_lib::lemma_multiset_commutative(s.take(j), seq![v]);
    vstd::seq_lib::lemma_multiset_commutative(s.take(j), s.skip(j));
    assert(s.take(j) + s.skip(j) =~= s);
    assert(seq![v].to_multiset() == Multiset::<PendingProposalV>::empty().insert(v)) by {
        assert(seq![v].drop_last() =~= Seq::<PendingProposalV>::empty());
    }
    assert(combined.to_multiset() =~= s.to_multiset().insert(v));
}

/// Splits a batch of pending proposals into its categories, each in the
/// canonical order.  This is the deterministic heart of resolution: the
/// result depends only on which proposals are in the batch, not on their
/// order of receipt.
#[verifier::loop_isolation(false)]
pub fn resolve_proposals(pendings: &Vec<PendingProposal>) -> (r: ResolvedProposals)
    ensures
        resolved_category(
            crate::codec::views_of(r.updates@),
            crate::codec::views_of(pendings@),
            |p: PendingProposalV| is_update_pending(p),
        ),
        resolved_category(
            crate::codec::views_of(r.removes@),
            crate::codec::views_of(pendings@),
            |p: PendingProposalV| is_remove_pending(p),
        ),
        resolved_category(
            crate::codec::views_of(r.adds@),
            crate::codec::views_of(pendings@),
            |p: PendingProposalV| is_add_pending(p),
        ),
        resolved_category(
            crate::codec::views_of(r.psks@),
            crate::codec::views_of(pendings@),
            |p: PendingProposalV| is_psk_pending(p),
        ),
        resolved_category(
            crate::codec::views_of(r.reinits@),
            crate::codec::views_of(pendings@),
            |p: PendingProposalV| is_reinit_pending(p),
        ),
        resolved_category(
            crate::codec::views_of(r.external_inits@),
            crate::codec::views_of(pendings@),
            |p: PendingProposalV| is_external_init_pending(p),
        ),
        resolved_category(
            crate::codec::views_of(r.gces@),
            crate::codec::views_of(pendings@),
            |p: PendingProposalV| is_gce_pending(p),
        ),
{
    let mut updates: Vec<PendingProposal> = Vec::new();
    let mut removes: Vec<PendingProposal> = Vec::new();
    let mut adds: Vec<PendingProposal> = Vec::new();
    let mut psks: Vec<PendingProposal> = Vec::new();
    let mut reinits: Vec<PendingProposal> = Vec::new();
    let mut external_inits: Vec<PendingProposal> = Vec::new();
    let mut gces: Vec<PendingProposal> = Vec::new();
    let ghost iv = crate::codec::views_of(pendings@);
    proof {
        assert(crate::codec::views_of(updates@) =~= Seq::<PendingProposalV>::empty());
        assert(crate::codec::views_of(removes@) =~= Seq::<PendingProposalV>::empty());
        assert(crate::codec::views_of(adds@) =~= Seq::<PendingProposalV>::empty());
        assert(crate::codec::views_of(psks@) =~= Seq::<PendingProposalV>::empty());
        assert(crate::codec::views_of(reinits@) =~= Seq::<PendingProposalV>::empty());
        assert(crate::codec::views_of(external_inits@) =~= Seq::<PendingProposalV>::empty());
        assert(crate::codec::views_of(gces@) =~= Seq::<PendingProposalV>::empty());
        assert(iv.take(0) =~= Seq::<PendingProposalV>::empty());
        assert(Seq::<PendingProposalV>::empty().to_multiset() =~= Multiset::<
            PendingProposalV,
        >::empty());
    }
    let mut k: usize = 0;
    while k < pendings.len()
        invariant
            k <= pendings@.len(),
            resolved_category(crate::codec::views_of(updates@), iv.take(k as int), |p: PendingProposalV| is_update_pending(p)),
            resolved_category(crate::codec::views_of(removes@), iv.take(k as int), |p: PendingProposalV| is_remove_pending(p)),
            resolved_category(crate::codec::views_of(adds@), iv.take(k as int), |p: PendingProposalV| is_add_pending(p)),
            resolved_category(crate::codec::views_of(psks@), iv.take(k as int), |p: PendingProposalV| is_psk_pending(p)),
            resolved_category(crate::codec::views_of(reinits@), iv.take(k as int), |p: PendingProposalV| is_reinit_pending(p)),
            resolved_category(
                crate::codec::views_of(external_inits@),
                iv.take(k as int),
                |p: PendingProposalV| is_external_init_pending(p),
            ),
            resolved_category(crate::codec::views_of(gces@), iv.take(k as int), |p: PendingProposalV| is_gce_pending(p)),
        decreases pendings@.len() - k,
    {
        let item = pendings[k].proposal.dup();
        let pending = PendingProposal { proposal: item, sender: pendings[k].sender };
        proof {
            assert(pending@ == iv[k as int]);
            assert(iv.take(k as int + 1).drop_last() =~= iv.take(k as int));
            assert(iv.take(k as int + 1).last() == iv[k as int]);
        }
        match &pending.proposal {
            Proposal::Update(_) => insert_sorted(&mut updates, pending),
            Proposal::Remove(_) => insert_sorted(&mut removes, pending),
            Proposal::Add(_) => insert_sorted(&mut adds, pending),
            Proposal::Psk(_) => insert_sorted(&mut psks, pending),
            Proposal::ReInit(_) => insert_sorted(&mut reinits, pending),
            Proposal::ExternalInit(_) => insert_sorted(&mut external_inits, pending),
            Proposal::GroupContextExtensions(_) => insert_sorted(&mut gces, pending),
        }
        k = k + 1;
    }
    proof {
        assert(iv.take(iv.len() as int) =~= iv);
    }
    ResolvedProposals { updates, removes, adds, psks, reinits, external_inits, gces }
}

// ---------------------------------------------------------------------------
// Bundle validity: the mutual-consistency rules.
// ---------------------------------------------------------------------------

/// The target leaf of a remove proposal, for models.
pub open spec fn spec_remove_target(p: ProposalV) -> LeafIndex {
    match p {
        ProposalV::Remove(r) => r.to_remove,
        _ => 0,
    }
}

/// Whether two distinct pending proposals may share a batch: at most one
/// update and one remove per leaf, no update of a removed leaf, no repeated
/// pre-shared key, at most one extension change, and a reinit shares a
/// batch with nothing.
pub open spec fn spec_pair_ok(x: PendingProposalV, y: PendingProposalV) -> bool {
    &&& !(x.proposal is Update && y.proposal is Update && x.sender == y.sender)
    &&& !(x.proposal is Remove && y.proposal is Remove && spec_remove_target(x.proposal)
        == spec_remove_target(y.proposal))
    &&& !(x.proposal is Update && y.proposal is Remove && x.sender == spec_remove_target(
        y.proposal,
    ))
    &&& !(x.proposal matches ProposalV::Psk(a) && y.proposal matches ProposalV::Psk(b) && a.psk
        == b.psk)
    &&& !(x.proposal is GroupContextExtensions && y.proposal is GroupContextExtensions)
    &&& !(x.proposal is ReInit)
}

/// Whether a whole batch is mutually consistent.
pub open spec fn spec_bundle_valid(s: Seq<PendingProposalV>) -> bool {
    forall|i: int, j: int|
        0 <= i < s.len() && 0 <= j < s.len() && i != j ==> #[trigger] spec_pair_ok(s[i], s[j])
}

/// Checks one ordered pair, executably.
fn pair_ok(x: &PendingProposal, y: &PendingProposal) -> (r: bool)
    ensures
        r == spec_pair_ok(x@, y@),
{
    match (&x.proposal, &y.proposal) {
        (Proposal::Update(_), Proposal::Update(_)) => {
            if x.sender == y.sender {
                return false;
            }
        },
        (Proposal::Remove(a), Proposal::Remove(b)) => {
            if a.to_remove == b.to_remove {
                return false;
            }
        },
        (Proposal::Update(_), Proposal::Remove(b)) => {
            if x.sender == b.to_remove {
                return false;
            }
        },
        (Proposal::Psk(a), Proposal::Psk(b)) => {
            let mut ea: Vec<u8> = Vec::new();
            a.psk.encode(&mut ea);
            let mut eb: Vec<u8> = Vec::new();
            b.psk.encode(&mut eb);
            proof {
                assert(ea@ =~= crate::psk::PreSharedKeyID::spec_enc(a@.psk));
                assert(eb@ =~= crate::psk::PreSharedKeyID::spec_enc(b@.psk));
            }
            if bytes_eq(&ea, &eb) {
                proof {
                    lemma_psk_enc_injective(a@.psk, b@.psk);
                    a.psk.lemma_wf();
                    b.psk.lemma_wf();
                }
                return false;
            }
        },
        (Proposal::GroupContextExtensions(_), Proposal::GroupContextExtensions(_)) => {
            return false;
        },
        _ => {},
    }
    if matches!(&x.proposal, Proposal::ReInit(_)) {
        return false;
    }
    true
}

/// Equal encodings of well-formed pre-shared key identifiers mean equal
/// identifiers.
proof fn lemma_psk_enc_injective(a: crate::psk::PreSharedKeyIDV, b: crate::psk::PreSharedKeyIDV)
    ensures
        crate::psk::PreSharedKeyID::wire_wf(a) && crate::psk::PreSharedKeyID::wire_wf(b)
            && crate::psk::PreSharedKeyID::spec_enc(a) == crate::psk::PreSharedKeyID::spec_enc(b)
            ==> a == b,
{
    if crate::psk::PreSharedKeyID::wire_wf(a) && crate::psk::PreSharedKeyID::wire_wf(b)
        && crate::psk::PreSharedKeyID::spec_enc(a) == crate::psk::PreSharedKeyID::spec_enc(b) {
        let e = Seq::<u8>::empty();
        crate::psk::PreSharedKeyID::lemma_rt(e, a, e);
        crate::psk::PreSharedKeyID::lemma_rt(e, b, e);
        assert(e + crate::psk::PreSharedKeyID::spec_enc(a) + e =~= crate::psk::PreSharedKeyID::spec_enc(
            a,
        ));
        assert(e + crate::psk::PreSharedKeyID::spec_enc(b) + e =~= crate::psk::PreSharedKeyID::spec_enc(
            a,
        ));
    }
}

/// Checks a batch's mutual consistency, executably: exactly the pairwise
/// rules.
#[verifier::loop_isolation(false)]
pub fn validate_bundle(pendings: &Vec<PendingProposal>) -> (r: bool)
    ensures
        r == spec_bundle_valid(crate::codec::views_of(pendings@)),
{
    let ghost iv = crate::codec::views_of(pendings@);
    let n = pendings.len();
    let mut i: usize = 0;
    while i < n
        invariant
            i <= n,
            n == pendings@.len(),
            forall|a: int, b: int|
                0 <= a < i && 0 <= b < n && a != b ==> #[trigger] spec_pair_ok(iv[a], iv[b]),
        decreases n - i,
    {
        let mut j: usize = 0;
        while j < n
            invariant
                j <= n,
                i < n,
                n == pendings@.len(),
                forall|a: int, b: int|
                    0 <= a < i && 0 <= b < n && a != b ==> #[trigger] spec_pair_ok(iv[a], iv[b]),
                forall|b: int| 0 <= b < j && b != i ==> #[trigger] spec_pair_ok(iv[i as int], iv[b]),
            decreases n - j,
        {
            if j != i {
                if !pair_ok(&pendings[i], &pendings[j]) {
                    proof {
                        assert(iv[i as int] == pendings@[i as int]@);
                        assert(iv[j as int] == pendings@[j as int]@);
                        assert(!spec_pair_ok(iv[i as int], iv[j as int]));
                    }
                    return false;
                }
            }
            j = j + 1;
        }
        i = i + 1;
    }
    true
}

/// Order independence of resolution: two batches that hold the same
/// proposals, in whatever order each was received, resolve to identical
/// category lists; applied by the same deterministic tree operations they
/// therefore yield identical trees and tree hashes.
pub proof fn lemma_resolution_order_independent(
    a: Seq<PendingProposalV>,
    b: Seq<PendingProposalV>,
    outa: Seq<PendingProposalV>,
    outb: Seq<PendingProposalV>,
    p: spec_fn(PendingProposalV) -> bool,
)
    requires
        a.to_multiset() == b.to_multiset(),
        forall|e: PendingProposalV| a.to_multiset().contains(e) ==> #[trigger] Proposal::wire_wf(
            e.proposal,
        ),
        resolved_category(outa, a, p),
        resolved_category(outb, b, p),
    ensures
        outa == outb,
{
    lemma_fms_permutation(a, b, p);
    lemma_fms_contains(a, p);
    assert forall|e: PendingProposalV| outa.to_multiset().contains(e) implies #[trigger] Proposal::wire_wf(
        e.proposal,
    ) by {
        assert(fms(a, p).contains(e));
        assert(a.contains(e));
        assert(a.to_multiset().contains(e));
    }
    lemma_sorted_pendings_unique(outa, outb);
}

/// Elements that satisfy the predicate are in the filtered multiset.
pub proof fn lemma_fms_contains_element<A>(s: Seq<A>, p: spec_fn(A) -> bool, i: int)
    requires
        0 <= i < s.len(),
        p(s[i]),
    ensures
        fms(s, p).contains(s[i]),
    decreases s.len(),
{
    if i == s.len() - 1 {
    } else {
        lemma_fms_contains_element(s.drop_last(), p, i);
        assert(s.drop_last()[i] == s[i]);
    }
}

/// The canonical order of one category of a batch: the one sorted sequence
/// holding exactly the batch's proposals of that category.
pub open spec fn spec_canon_category(
    s: Seq<PendingProposalV>,
    p: spec_fn(PendingProposalV) -> bool,
) -> Seq<PendingProposalV> {
    choose|out: Seq<PendingProposalV>|
        sorted_by(out, pending_leq()) && out.to_multiset() == fms(s, p)
}

/// A resolved category list of a batch of well-formed proposals is the
/// canonical one: the sorted order pins it down.
pub proof fn lemma_canon_category(
    out: Seq<PendingProposalV>,
    s: Seq<PendingProposalV>,
    p: spec_fn(PendingProposalV) -> bool,
)
    requires
        resolved_category(out, s, p),
        forall|i: int| 0 <= i < s.len() ==> #[trigger] Proposal::wire_wf(s[i].proposal),
    ensures
        spec_canon_category(s, p) == out,
{
    assert(exists|c: Seq<PendingProposalV>|
        sorted_by(c, pending_leq()) && c.to_multiset() == fms(s, p)) by {
        assert(sorted_by(out, pending_leq()) && out.to_multiset() == fms(s, p));
    }
    let c = spec_canon_category(s, p);
    assert(sorted_by(c, pending_leq()) && c.to_multiset() == fms(s, p));
    lemma_fms_contains(s, p);
    assert forall|e: PendingProposalV| out.to_multiset().contains(e) implies #[trigger] Proposal::wire_wf(
        e.proposal,
    ) by {
        assert(fms(s, p).contains(e));
        assert(s.contains(e));
        let i = choose|i: int| 0 <= i < s.len() && s[i] == e;
        assert(Proposal::wire_wf(s[i].proposal));
    }
    lemma_sorted_pendings_unique(out, c);
    assert(out =~= c);
}

} // verus!
