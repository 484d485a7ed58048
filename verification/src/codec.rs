use vstd::prelude::*;
use vstd::arithmetic::div_mod::lemma_fundamental_div_mod;

verus! {

// The wire format is length-prefixed and discriminant-tagged: multi-byte
// integers are big-endian, variable-length byte strings carry a 64-bit length
// prefix, lists carry a 64-bit element count, and enums start with a small
// integer discriminant.

// ---------------------------------------------------------------------------
// Specification-level encodings of the primitives.
// ---------------------------------------------------------------------------

pub open spec fn spec_enc_u8(x: u8) -> Seq<u8> {
    seq![x]
}

#[verifier::opaque]
pub open spec fn spec_enc_u16(x: u16) -> Seq<u8> {
    seq![(x / 256) as u8, (x % 256) as u8]
}

#[verifier::opaque]
pub open spec fn spec_enc_u32(x: u32) -> Seq<u8> {
    spec_enc_u16((x / 65536) as u16) + spec_enc_u16((x % 65536) as u16)
}

#[verifier::opaque]
pub open spec fn spec_enc_u64(x: u64) -> Seq<u8> {
    spec_enc_u32((x / 4294967296) as u32) + spec_enc_u32((x % 4294967296) as u32)
}

/// A byte string is its 64-bit length followed by its bytes.
#[verifier::opaque]
pub open spec fn spec_enc_bytes(b: Seq<u8>) -> Seq<u8> {
    spec_enc_u64(b.len() as u64) + b
}

/// Whether a byte string is short enough for its length prefix.
pub open spec fn fits_wire_len(n: nat) -> bool {
    n <= u64::MAX
}

/// Any byte vector's length fits the wire format's length prefix.
pub proof fn lemma_vec_fits(v: &Vec<u8>)
    ensures
        fits_wire_len(v@.len()),
{
    assert(v.len() == v@.len());
    assert(usize::MAX as nat <= u64::MAX as nat);
}

// ---------------------------------------------------------------------------
// Specification-level decoders.  Each takes the whole buffer and a position,
// and yields the decoded value with the position that follows it.
// ---------------------------------------------------------------------------

pub open spec fn spec_dec_u8(s: Seq<u8>, i: int) -> Option<(u8, int)> {
    if 0 <= i && i + 1 <= s.len() {
        Some((s[i], i + 1))
    } else {
        None
    }
}

#[verifier::opaque]
pub open spec fn spec_dec_u16(s: Seq<u8>, i: int) -> Option<(u16, int)> {
    if 0 <= i && i + 2 <= s.len() {
        Some((((s[i] as int) * 256 + (s[i + 1] as int)) as u16, i + 2))
    } else {
        None
    }
}

#[verifier::opaque]
pub open spec fn spec_dec_u32(s: Seq<u8>, i: int) -> Option<(u32, int)> {
    match spec_dec_u16(s, i) {
        Some((hi, j)) => match spec_dec_u16(s, j) {
            Some((lo, k)) => Some((((hi as int) * 65536 + (lo as int)) as u32, k)),
            None => None,
        },
        None => None,
    }
}

#[verifier::opaque]
pub open spec fn spec_dec_u64(s: Seq<u8>, i: int) -> Option<(u64, int)> {
    match spec_dec_u32(s, i) {
        Some((hi, j)) => match spec_dec_u32(s, j) {
            Some((lo, k)) => Some((((hi as int) * 4294967296 + (lo as int)) as u64, k)),
            None => None,
        },
        None => None,
    }
}

#[verifier::opaque]
pub open spec fn spec_dec_bytes(s: Seq<u8>, i: int) -> Option<(Seq<u8>, int)> {
    match spec_dec_u64(s, i) {
        Some((n, j)) => if j + n <= s.len() {
            Some((s.subrange(j, j + n), j + n))
        } else {
            None
        },
        None => None,
    }
}

/// The lengths of the primitive encodings.
pub proof fn lemma_enc_lens(a: u16, b: u32, c: u64, d: Seq<u8>)
    ensures
        spec_enc_u16(a).len() == 2,
        spec_enc_u32(b).len() == 4,
        spec_enc_u64(c).len() == 8,
        spec_enc_bytes(d).len() == 8 + d.len(),
{
    reveal(spec_enc_u16);
    reveal(spec_enc_u32);
    reveal(spec_enc_u64);
    reveal(spec_enc_bytes);
}

// ---------------------------------------------------------------------------
// Round-trip lemmas for the primitives.  Each shows that a decoder, pointed
// at an encoding embedded in a larger buffer, recovers the value and stops
// right after it.
// ---------------------------------------------------------------------------

pub proof fn lemma_rt_u8(pre: Seq<u8>, x: u8, suf: Seq<u8>)
    ensures
        spec_dec_u8(pre + spec_enc_u8(x) + suf, pre.len() as int)
            == Some((x, (pre.len() + spec_enc_u8(x).len()) as int)),
{
    let s = pre + spec_enc_u8(x) + suf;
    assert(s[pre.len() as int] == x);
}

pub proof fn lemma_rt_u16(pre: Seq<u8>, x: u16, suf: Seq<u8>)
    ensures
        spec_dec_u16(pre + spec_enc_u16(x) + suf, pre.len() as int)
            == Some((x, (pre.len() + spec_enc_u16(x).len()) as int)),
{
    reveal(spec_enc_u16);
    reveal(spec_dec_u16);
    let s = pre + spec_enc_u16(x) + suf;
    let i = pre.len() as int;
    assert(s[i] == (x / 256) as u8);
    assert(s[i + 1] == (x % 256) as u8);
    lemma_fundamental_div_mod(x as int, 256);
}

pub proof fn lemma_rt_u32(pre: Seq<u8>, x: u32, suf: Seq<u8>)
    ensures
        spec_dec_u32(pre + spec_enc_u32(x) + suf, pre.len() as int)
            == Some((x, (pre.len() + spec_enc_u32(x).len()) as int)),
{
    reveal(spec_enc_u32);
    reveal(spec_dec_u32);
    let hi = (x / 65536) as u16;
    let lo = (x % 65536) as u16;
    let s = pre + spec_enc_u32(x) + suf;
    assert(s =~= pre + spec_enc_u16(hi) + (spec_enc_u16(lo) + suf));
    lemma_rt_u16(pre, hi, spec_enc_u16(lo) + suf);
    assert(s =~= (pre + spec_enc_u16(hi)) + spec_enc_u16(lo) + suf);
    lemma_rt_u16(pre + spec_enc_u16(hi), lo, suf);
    lemma_fundamental_div_mod(x as int, 65536);
}

pub proof fn lemma_rt_u64(pre: Seq<u8>, x: u64, suf: Seq<u8>)
    ensures
        spec_dec_u64(pre + spec_enc_u64(x) + suf, pre.len() as int)
            == Some((x, (pre.len() + spec_enc_u64(x).len()) as int)),
{
    reveal(spec_enc_u64);
    reveal(spec_dec_u64);
    let hi = (x / 4294967296) as u32;
    let lo = (x % 4294967296) as u32;
    let s = pre + spec_enc_u64(x) + suf;
    assert(s =~= pre + spec_enc_u32(hi) + (spec_enc_u32(lo) + suf));
    lemma_rt_u32(pre, hi, spec_enc_u32(lo) + suf);
    assert(s =~= (pre + spec_enc_u32(hi)) + spec_enc_u32(lo) + suf);
    lemma_rt_u32(pre + spec_enc_u32(hi), lo, suf);
    lemma_fundamental_div_mod(x as int, 4294967296);
}

pub proof fn lemma_rt_bytes(pre: Seq<u8>, b: Seq<u8>, suf: Seq<u8>)
    requires
        fits_wire_len(b.len()),
    ensures
        spec_dec_bytes(pre + spec_enc_bytes(b) + suf, pre.len() as int)
            == Some((b, (pre.len() + spec_enc_bytes(b).len()) as int)),
{
    reveal(spec_enc_bytes);
    reveal(spec_dec_bytes);
    let n = b.len() as u64;
    let s = pre + spec_enc_bytes(b) + suf;
    assert(s =~= pre + spec_enc_u64(n) + (b + suf));
    lemma_rt_u64(pre, n, b + suf);
    let j = pre.len() + spec_enc_u64(n).len();
    assert(s.subrange(j as int, j + n as int) =~= b);
}

// ---------------------------------------------------------------------------
// Executable encoders and decoders for the primitives.
// ---------------------------------------------------------------------------

pub fn enc_u8(out: &mut Vec<u8>, x: u8)
    ensures
        final(out)@ == old(out)@ + spec_enc_u8(x),
{
    out.push(x);
    proof {
        assert(out@ =~= old(out)@ + spec_enc_u8(x));
    }
}

pub fn enc_u16(out: &mut Vec<u8>, x: u16)
    ensures
        final(out)@ == old(out)@ + spec_enc_u16(x),
{
    out.push((x / 256) as u8);
    out.push((x % 256) as u8);
    proof {
        reveal(spec_enc_u16);
        assert(out@ =~= old(out)@ + spec_enc_u16(x));
    }
}

pub fn enc_u32(out: &mut Vec<u8>, x: u32)
    ensures
        final(out)@ == old(out)@ + spec_enc_u32(x),
{
    enc_u16(out, (x / 65536) as u16);
    enc_u16(out, (x % 65536) as u16);
    proof {
        reveal(spec_enc_u32);
        assert(out@ =~= old(out)@ + spec_enc_u32(x));
    }
}

pub fn enc_u64(out: &mut Vec<u8>, x: u64)
    ensures
        final(out)@ == old(out)@ + spec_enc_u64(x),
{
    enc_u32(out, (x / 4294967296) as u32);
    enc_u32(out, (x % 4294967296) as u32);
    proof {
        reveal(spec_enc_u64);
        assert(out@ =~= old(out)@ + spec_enc_u64(x));
    }
}

pub fn enc_bytes(out: &mut Vec<u8>, b: &Vec<u8>)
    ensures
        final(out)@ == old(out)@ + spec_enc_bytes(b@),
{
    enc_u64(out, b.len() as u64);
    let ghost mid = out@;
    let mut k: usize = 0;
    while k < b.len()
        invariant
            k <= b.len(),
            out@ == mid + b@.subrange(0, k as int),
        decreases b.len() - k,
    {
        out.push(b[k]);
        proof {
            assert(out@ =~= mid + b@.subrange(0, k + 1 as int));
        }
        k = k + 1;
    }
    proof {
        reveal(spec_enc_bytes);
        assert(b@.subrange(0, b@.len() as int) =~= b@);
        assert(out@ =~= old(out)@ + spec_enc_bytes(b@));
    }
}

pub fn dec_u8(s: &Vec<u8>, i: usize) -> (r: Option<(u8, usize)>)
    ensures
        match r {
            Some((x, j)) => spec_dec_u8(s@, i as int) == Some((x, j as int)),
            None => spec_dec_u8(s@, i as int) is None,
        },
{
    if i < s.len() {
        Some((s[i], i + 1))
    } else {
        None
    }
}

pub fn dec_u16(s: &Vec<u8>, i: usize) -> (r: Option<(u16, usize)>)
    ensures
        match r {
            Some((x, j)) => spec_dec_u16(s@, i as int) == Some((x, j as int)),
            None => spec_dec_u16(s@, i as int) is None,
        },
{
    proof {
        reveal(spec_dec_u16);
    }
    if s.len() >= 2 && i <= s.len() - 2 {
        let x: u16 = (s[i] as u16) * 256 + (s[i + 1] as u16);
        Some((x, i + 2))
    } else {
        None
    }
}

pub fn dec_u32(s: &Vec<u8>, i: usize) -> (r: Option<(u32, usize)>)
    ensures
        match r {
            Some((x, j)) => spec_dec_u32(s@, i as int) == Some((x, j as int)),
            None => spec_dec_u32(s@, i as int) is None,
        },
{
    proof {
        reveal(spec_dec_u32);
    }
    match dec_u16(s, i) {
        Some((hi, j)) => match dec_u16(s, j) {
            Some((lo, k)) => Some(((hi as u32) * 65536 + (lo as u32), k)),
            None => None,
        },
        None => None,
    }
}

pub fn dec_u64(s: &Vec<u8>, i: usize) -> (r: Option<(u64, usize)>)
    ensures
        match r {
            Some((x, j)) => spec_dec_u64(s@, i as int) == Some((x, j as int)),
            None => spec_dec_u64(s@, i as int) is None,
        },
{
    proof {
        reveal(spec_dec_u64);
    }
    match dec_u32(s, i) {
        Some((hi, j)) => match dec_u32(s, j) {
            Some((lo, k)) => Some(((hi as u64) * 4294967296 + (lo as u64), k)),
            None => None,
        },
        None => None,
    }
}

pub fn dec_bytes(s: &Vec<u8>, i: usize) -> (r: Option<(Vec<u8>, usize)>)
    ensures
        match r {
            Some((b, j)) => spec_dec_bytes(s@, i as int) == Some((b@, j as int)),
            None => spec_dec_bytes(s@, i as int) is None,
        },
{
    proof {
        reveal(spec_dec_bytes);
    }
    let slen = s.len();
    match dec_u64(s, i) {
        Some((n, j)) => {
            if n <= usize::MAX as u64 && j <= slen && n as usize <= slen - j {
                let n_us = n as usize;
                let mut b: Vec<u8> = Vec::new();
                let mut k: usize = 0;
                while k < n_us
                    invariant
                        k <= n_us,
                        j + n_us <= s@.len(),
                        j + n_us <= usize::MAX,
                        b@ == s@.subrange(j as int, j + k as int),
                    decreases n_us - k,
                {
                    b.push(s[j + k]);
                    proof {
                        assert(b@ =~= s@.subrange(j as int, j + (k + 1) as int));
                    }
                    k = k + 1;
                }
                Some((b, j + n_us))
            } else {
                None
            }
        },
        None => None,
    }
}

// ---------------------------------------------------------------------------
// The wire-code interface: a type that encodes to bytes and decodes back.
// Every implementation proves its own round trip.
// ---------------------------------------------------------------------------

pub trait WireCode: View + Sized {
    /// The encoding of a value, stated over its mathematical model.
    spec fn spec_enc(m: Self::V) -> Seq<u8>;

    /// The decoder over the model, from position `i` of buffer `s`.
    spec fn spec_dec(s: Seq<u8>, i: int) -> Option<(Self::V, int)>;

    /// Which models are small enough for the wire format's length prefixes.
    spec fn wire_wf(m: Self::V) -> bool;

    /// Decoding an embedded encoding recovers the value: the round trip.
    proof fn lemma_rt(pre: Seq<u8>, m: Self::V, suf: Seq<u8>)
        requires
            Self::wire_wf(m),
        ensures
            Self::spec_dec(pre + Self::spec_enc(m) + suf, pre.len() as int)
                == Some((m, (pre.len() + Self::spec_enc(m).len()) as int));

    /// Every executable value's model fits the wire format.
    proof fn lemma_wf(&self)
        ensures
            Self::wire_wf(self@);

    /// A copy with the same model.
    fn dup(&self) -> (r: Self)
        ensures
            r@ == self@;

    fn encode(&self, out: &mut Vec<u8>)
        ensures
            final(out)@ == old(out)@ + Self::spec_enc(self@);

    fn decode(s: &Vec<u8>, i: usize) -> (r: Option<(Self, usize)>)
        ensures
            match r {
                Some((v, j)) => Self::spec_dec(s@, i as int) == Some((v@, j as int)),
                None => Self::spec_dec(s@, i as int) is None,
            };
}

// ---------------------------------------------------------------------------
// Lists of wire-coded values: a 64-bit count, then the elements in order.
// ---------------------------------------------------------------------------

pub open spec fn spec_enc_items<T: WireCode>(items: Seq<T::V>) -> Seq<u8>
    decreases items.len(),
{
    if items.len() == 0 {
        Seq::empty()
    } else {
        T::spec_enc(items[0]) + spec_enc_items::<T>(items.drop_first())
    }
}

pub open spec fn spec_enc_list<T: WireCode>(items: Seq<T::V>) -> Seq<u8> {
    spec_enc_u64(items.len() as u64) + spec_enc_items::<T>(items)
}

pub open spec fn spec_dec_items<T: WireCode>(s: Seq<u8>, i: int, n: nat) -> Option<(Seq<T::V>, int)>
    decreases n,
{
    if n == 0 {
        Some((Seq::empty(), i))
    } else {
        match T::spec_dec(s, i) {
            Some((v, j)) => match spec_dec_items::<T>(s, j, (n - 1) as nat) {
                Some((rest, k)) => Some((seq![v] + rest, k)),
                None => None,
            },
            None => None,
        }
    }
}

pub open spec fn spec_dec_list<T: WireCode>(s: Seq<u8>, i: int) -> Option<(Seq<T::V>, int)> {
    match spec_dec_u64(s, i) {
        Some((n, j)) => spec_dec_items::<T>(s, j, n as nat),
        None => None,
    }
}

pub open spec fn wire_wf_items<T: WireCode>(items: Seq<T::V>) -> bool {
    fits_wire_len(items.len()) && forall|k: int| 0 <= k < items.len() ==> T::wire_wf(#[trigger] items[k])
}

pub proof fn lemma_rt_items<T: WireCode>(pre: Seq<u8>, items: Seq<T::V>, suf: Seq<u8>)
    requires
        wire_wf_items::<T>(items),
    ensures
        spec_dec_items::<T>(pre + spec_enc_items::<T>(items) + suf, pre.len() as int, items.len())
            == Some((items, (pre.len() + spec_enc_items::<T>(items).len()) as int)),
    decreases items.len(),
{
    if items.len() == 0 {
        assert(pre + spec_enc_items::<T>(items) + suf =~= pre + suf);
        assert(items =~= Seq::<T::V>::empty());
    } else {
        let head = items[0];
        let tail = items.drop_first();
        let s = pre + spec_enc_items::<T>(items) + suf;
        assert(s =~= pre + T::spec_enc(head) + (spec_enc_items::<T>(tail) + suf));
        T::lemma_rt(pre, head, spec_enc_items::<T>(tail) + suf);
        let pre2 = pre + T::spec_enc(head);
        assert(s =~= pre2 + spec_enc_items::<T>(tail) + suf);
        lemma_rt_items::<T>(pre2, tail, suf);
        assert(seq![head] + tail =~= items);
    }
}

pub proof fn lemma_rt_list<T: WireCode>(pre: Seq<u8>, items: Seq<T::V>, suf: Seq<u8>)
    requires
        wire_wf_items::<T>(items),
    ensures
        spec_dec_list::<T>(pre + spec_enc_list::<T>(items) + suf, pre.len() as int)
            == Some((items, (pre.len() + spec_enc_list::<T>(items).len()) as int)),
{
    let n = items.len() as u64;
    let s = pre + spec_enc_list::<T>(items) + suf;
    assert(s =~= pre + spec_enc_u64(n) + (spec_enc_items::<T>(items) + suf));
    lemma_rt_u64(pre, n, spec_enc_items::<T>(items) + suf);
    let pre2 = pre + spec_enc_u64(n);
    assert(s =~= pre2 + spec_enc_items::<T>(items) + suf);
    lemma_rt_items::<T>(pre2, items, suf);
}

// Reshaping lemmas: a buffer that embeds a concatenation of fields can be
// read as embedding each field on its own, with the right prefix and suffix.
// Proved once over opaque sequences, so that the round-trip lemmas of the
// wire types need no extensional reasoning of their own.

pub proof fn lemma_split2(pre: Seq<u8>, e1: Seq<u8>, e2: Seq<u8>, suf: Seq<u8>)
    ensures
        pre + (e1 + e2) + suf == pre + e1 + (e2 + suf),
        pre + (e1 + e2) + suf == (pre + e1) + e2 + suf,
{
    assert(pre + (e1 + e2) + suf =~= pre + e1 + (e2 + suf));
    assert(pre + (e1 + e2) + suf =~= (pre + e1) + e2 + suf);
}

pub proof fn lemma_split3(pre: Seq<u8>, e1: Seq<u8>, e2: Seq<u8>, e3: Seq<u8>, suf: Seq<u8>)
    ensures
        pre + (e1 + e2 + e3) + suf == pre + e1 + (e2 + (e3 + suf)),
        pre + (e1 + e2 + e3) + suf == (pre + e1) + e2 + (e3 + suf),
        pre + (e1 + e2 + e3) + suf == (pre + e1 + e2) + e3 + suf,
{
    assert(pre + (e1 + e2 + e3) + suf =~= pre + e1 + (e2 + (e3 + suf)));
    assert(pre + (e1 + e2 + e3) + suf =~= (pre + e1) + e2 + (e3 + suf));
    assert(pre + (e1 + e2 + e3) + suf =~= (pre + e1 + e2) + e3 + suf);
}

pub proof fn lemma_split4(pre: Seq<u8>, e1: Seq<u8>, e2: Seq<u8>, e3: Seq<u8>, e4: Seq<u8>, suf: Seq<u8>)
    ensures
        pre + (e1 + e2 + e3 + e4) + suf == pre + e1 + (e2 + (e3 + (e4 + suf))),
        pre + (e1 + e2 + e3 + e4) + suf == (pre + e1) + e2 + (e3 + (e4 + suf)),
        pre + (e1 + e2 + e3 + e4) + suf == (pre + e1 + e2) + e3 + (e4 + suf),
        pre + (e1 + e2 + e3 + e4) + suf == (pre + e1 + e2 + e3) + e4 + suf,
{
    assert(pre + (e1 + e2 + e3 + e4) + suf =~= pre + e1 + (e2 + (e3 + (e4 + suf))));
    assert(pre + (e1 + e2 + e3 + e4) + suf =~= (pre + e1) + e2 + (e3 + (e4 + suf)));
    assert(pre + (e1 + e2 + e3 + e4) + suf =~= (pre + e1 + e2) + e3 + (e4 + suf));
    assert(pre + (e1 + e2 + e3 + e4) + suf =~= (pre + e1 + e2 + e3) + e4 + suf);
}

pub proof fn lemma_split5(
    pre: Seq<u8>,
    e1: Seq<u8>,
    e2: Seq<u8>,
    e3: Seq<u8>,
    e4: Seq<u8>,
    e5: Seq<u8>,
    suf: Seq<u8>,
)
    ensures
        pre + (e1 + e2 + e3 + e4 + e5) + suf == pre + e1 + (e2 + (e3 + (e4 + (e5 + suf)))),
        pre + (e1 + e2 + e3 + e4 + e5) + suf == (pre + e1) + e2 + (e3 + (e4 + (e5 + suf))),
        pre + (e1 + e2 + e3 + e4 + e5) + suf == (pre + e1 + e2) + e3 + (e4 + (e5 + suf)),
        pre + (e1 + e2 + e3 + e4 + e5) + suf == (pre + e1 + e2 + e3) + e4 + (e5 + suf),
        pre + (e1 + e2 + e3 + e4 + e5) + suf == (pre + e1 + e2 + e3 + e4) + e5 + suf,
{
    assert(pre + (e1 + e2 + e3 + e4 + e5) + suf =~= pre + e1 + (e2 + (e3 + (e4 + (e5 + suf)))));
    assert(pre + (e1 + e2 + e3 + e4 + e5) + suf =~= (pre + e1) + e2 + (e3 + (e4 + (e5 + suf))));
    assert(pre + (e1 + e2 + e3 + e4 + e5) + suf =~= (pre + e1 + e2) + e3 + (e4 + (e5 + suf)));
    assert(pre + (e1 + e2 + e3 + e4 + e5) + suf =~= (pre + e1 + e2 + e3) + e4 + (e5 + suf));
    assert(pre + (e1 + e2 + e3 + e4 + e5) + suf =~= (pre + e1 + e2 + e3 + e4) + e5 + suf);
}

pub proof fn lemma_split6(
    pre: Seq<u8>,
    e1: Seq<u8>,
    e2: Seq<u8>,
    e3: Seq<u8>,
    e4: Seq<u8>,
    e5: Seq<u8>,
    e6: Seq<u8>,
    suf: Seq<u8>,
)
    ensures
        pre + (e1 + e2 + e3 + e4 + e5 + e6) + suf == pre + e1 + (e2 + (e3 + (e4 + (e5 + (e6
            + suf))))),
        pre + (e1 + e2 + e3 + e4 + e5 + e6) + suf == (pre + e1) + e2 + (e3 + (e4 + (e5 + (e6
            + suf)))),
        pre + (e1 + e2 + e3 + e4 + e5 + e6) + suf == (pre + e1 + e2) + e3 + (e4 + (e5 + (e6
            + suf))),
        pre + (e1 + e2 + e3 + e4 + e5 + e6) + suf == (pre + e1 + e2 + e3) + e4 + (e5 + (e6 + suf)),
        pre + (e1 + e2 + e3 + e4 + e5 + e6) + suf == (pre + e1 + e2 + e3 + e4) + e5 + (e6 + suf),
        pre + (e1 + e2 + e3 + e4 + e5 + e6) + suf == (pre + e1 + e2 + e3 + e4 + e5) + e6 + suf,
{
    assert(pre + (e1 + e2 + e3 + e4 + e5 + e6) + suf =~= pre + e1 + (e2 + (e3 + (e4 + (e5 + (e6
        + suf))))));
    assert(pre + (e1 + e2 + e3 + e4 + e5 + e6) + suf =~= (pre + e1) + e2 + (e3 + (e4 + (e5 + (e6
        + suf)))));
    assert(pre + (e1 + e2 + e3 + e4 + e5 + e6) + suf =~= (pre + e1 + e2) + e3 + (e4 + (e5 + (e6
        + suf))));
    assert(pre + (e1 + e2 + e3 + e4 + e5 + e6) + suf =~= (pre + e1 + e2 + e3) + e4 + (e5 + (e6
        + suf)));
    assert(pre + (e1 + e2 + e3 + e4 + e5 + e6) + suf =~= (pre + e1 + e2 + e3 + e4) + e5 + (e6
        + suf));
    assert(pre + (e1 + e2 + e3 + e4 + e5 + e6) + suf =~= (pre + e1 + e2 + e3 + e4 + e5) + e6 + suf);
}

pub proof fn lemma_split7(
    pre: Seq<u8>,
    e1: Seq<u8>,
    e2: Seq<u8>,
    e3: Seq<u8>,
    e4: Seq<u8>,
    e5: Seq<u8>,
    e6: Seq<u8>,
    e7: Seq<u8>,
    suf: Seq<u8>,
)
    ensures
        pre + (e1 + e2 + e3 + e4 + e5 + e6 + e7) + suf == pre + e1 + (e2 + (e3 + (e4 + (e5 + (e6
            + (e7 + suf)))))),
        pre + (e1 + e2 + e3 + e4 + e5 + e6 + e7) + suf == (pre + e1) + e2 + (e3 + (e4 + (e5 + (e6
            + (e7 + suf))))),
        pre + (e1 + e2 + e3 + e4 + e5 + e6 + e7) + suf == (pre + e1 + e2) + e3 + (e4 + (e5 + (e6
            + (e7 + suf)))),
        pre + (e1 + e2 + e3 + e4 + e5 + e6 + e7) + suf == (pre + e1 + e2 + e3) + e4 + (e5 + (e6
            + (e7 + suf))),
        pre + (e1 + e2 + e3 + e4 + e5 + e6 + e7) + suf == (pre + e1 + e2 + e3 + e4) + e5 + (e6 + (e7
            + suf)),
        pre + (e1 + e2 + e3 + e4 + e5 + e6 + e7) + suf == (pre + e1 + e2 + e3 + e4 + e5) + e6 + (e7
            + suf),
        pre + (e1 + e2 + e3 + e4 + e5 + e6 + e7) + suf == (pre + e1 + e2 + e3 + e4 + e5 + e6) + e7
            + suf,
{
    assert(pre + (e1 + e2 + e3 + e4 + e5 + e6 + e7) + suf =~= pre + e1 + (e2 + (e3 + (e4 + (e5 + (e6
        + (e7 + suf)))))));
    assert(pre + (e1 + e2 + e3 + e4 + e5 + e6 + e7) + suf =~= (pre + e1) + e2 + (e3 + (e4 + (e5 + (
    e6 + (e7 + suf))))));
    assert(pre + (e1 + e2 + e3 + e4 + e5 + e6 + e7) + suf =~= (pre + e1 + e2) + e3 + (e4 + (e5 + (e6
        + (e7 + suf)))));
    assert(pre + (e1 + e2 + e3 + e4 + e5 + e6 + e7) + suf =~= (pre + e1 + e2 + e3) + e4 + (e5 + (e6
        + (e7 + suf))));
    assert(pre + (e1 + e2 + e3 + e4 + e5 + e6 + e7) + suf =~= (pre + e1 + e2 + e3 + e4) + e5 + (e6
        + (e7 + suf)));
    assert(pre + (e1 + e2 + e3 + e4 + e5 + e6 + e7) + suf =~= (pre + e1 + e2 + e3 + e4 + e5) + e6 + (
    e7 + suf));
    assert(pre + (e1 + e2 + e3 + e4 + e5 + e6 + e7) + suf =~= (pre + e1 + e2 + e3 + e4 + e5 + e6)
        + e7 + suf);
}

/// Decoding a 16-bit discriminant and a wire-coded payload out of a larger
/// buffer: the two reads both land exactly.
pub proof fn lemma_rt_tag16<T: WireCode>(pre: Seq<u8>, d: u16, m: T::V, suf: Seq<u8>)
    requires
        T::wire_wf(m),
    ensures
        ({
            let s = pre + (spec_enc_u16(d) + T::spec_enc(m)) + suf;
            spec_dec_u16(s, pre.len() as int) == Some(
                (d, (pre.len() + spec_enc_u16(d).len()) as int),
            ) && T::spec_dec(s, (pre.len() + spec_enc_u16(d).len()) as int) == Some(
                (m, (pre.len() + spec_enc_u16(d).len() + T::spec_enc(m).len()) as int),
            )
        }),
{
    lemma_split2(pre, spec_enc_u16(d), T::spec_enc(m), suf);
    lemma_rt_u16(pre, d, T::spec_enc(m) + suf);
    T::lemma_rt(pre + spec_enc_u16(d), m, suf);
}

/// The same for an 8-bit discriminant.
pub proof fn lemma_rt_tag8<T: WireCode>(pre: Seq<u8>, d: u8, m: T::V, suf: Seq<u8>)
    requires
        T::wire_wf(m),
    ensures
        ({
            let s = pre + (spec_enc_u8(d) + T::spec_enc(m)) + suf;
            spec_dec_u8(s, pre.len() as int) == Some(
                (d, (pre.len() + spec_enc_u8(d).len()) as int),
            ) && T::spec_dec(s, (pre.len() + spec_enc_u8(d).len()) as int) == Some(
                (m, (pre.len() + spec_enc_u8(d).len() + T::spec_enc(m).len()) as int),
            )
        }),
{
    lemma_split2(pre, spec_enc_u8(d), T::spec_enc(m), suf);
    lemma_rt_u8(pre, d, T::spec_enc(m) + suf);
    T::lemma_rt(pre + spec_enc_u8(d), m, suf);
}

/// An optional value on the wire: one byte says whether it is there.
pub open spec fn spec_enc_opt<T: WireCode>(m: Option<T::V>) -> Seq<u8> {
    match m {
        None => spec_enc_u8(0),
        Some(v) => spec_enc_u8(1) + T::spec_enc(v),
    }
}

pub open spec fn spec_dec_opt<T: WireCode>(s: Seq<u8>, i: int) -> Option<(Option<T::V>, int)> {
    match spec_dec_u8(s, i) {
        Some((d, j)) => if d == 0 {
            Some((None, j))
        } else if d == 1 {
            match T::spec_dec(s, j) {
                Some((v, k)) => Some((Some(v), k)),
                None => None,
            }
        } else {
            None
        },
        None => None,
    }
}

pub open spec fn wire_wf_opt<T: WireCode>(m: Option<T::V>) -> bool {
    match m {
        None => true,
        Some(v) => T::wire_wf(v),
    }
}

pub proof fn lemma_rt_opt<T: WireCode>(pre: Seq<u8>, m: Option<T::V>, suf: Seq<u8>)
    requires
        wire_wf_opt::<T>(m),
    ensures
        spec_dec_opt::<T>(pre + spec_enc_opt::<T>(m) + suf, pre.len() as int) == Some(
            (m, (pre.len() + spec_enc_opt::<T>(m).len()) as int),
        ),
{
    match m {
        None => {
            lemma_rt_u8(pre, 0, suf);
            assert(pre + spec_enc_opt::<T>(m) + suf =~= pre + spec_enc_u8(0) + suf);
        },
        Some(v) => {
            lemma_rt_tag8::<T>(pre, 1, v, suf);
            assert(spec_enc_opt::<T>(m) == spec_enc_u8(1) + T::spec_enc(v));
        },
    }
}

pub fn encode_opt<T: WireCode>(m: &Option<T>, out: &mut Vec<u8>)
    ensures
        final(out)@ == old(out)@ + spec_enc_opt::<T>(
            match m {
                Some(v) => Some(v@),
                None => None,
            },
        ),
{
    match m {
        None => {
            enc_u8(out, 0);
        },
        Some(v) => {
            enc_u8(out, 1);
            v.encode(out);
            proof {
                assert(out@ =~= old(out)@ + spec_enc_opt::<T>(Some(v@)));
            }
        },
    }
}

pub fn decode_opt<T: WireCode>(s: &Vec<u8>, i: usize) -> (r: Option<(Option<T>, usize)>)
    ensures
        match r {
            Some((m, j)) => spec_dec_opt::<T>(s@, i as int) == Some(
                (
                    match m {
                        Some(v) => Some(v@),
                        None => None,
                    },
                    j as int,
                ),
            ),
            None => spec_dec_opt::<T>(s@, i as int) is None,
        },
{
    match dec_u8(s, i) {
        Some((d, j)) => {
            if d == 0 {
                Some((None, j))
            } else if d == 1 {
                match T::decode(s, j) {
                    Some((v, k)) => Some((Some(v), k)),
                    None => None,
                }
            } else {
                None
            }
        },
        None => None,
    }
}

/// The round trip at the top level: decoding a value's encoding from the
/// start yields the value and consumes the whole buffer.
pub proof fn lemma_round_trip<T: WireCode>(m: T::V)
    requires
        T::wire_wf(m),
    ensures
        T::spec_dec(T::spec_enc(m), 0) == Some((m, T::spec_enc(m).len() as int)),
{
    let e = Seq::<u8>::empty();
    T::lemma_rt(e, m, e);
    assert(e + T::spec_enc(m) + e =~= T::spec_enc(m));
}

/// The model of a vector of wire-coded values: the sequence of the elements'
/// models.
pub open spec fn views_of<T: View>(items: Seq<T>) -> Seq<T::V> {
    items.map_values(|t: T| t@)
}

#[verifier::loop_isolation(false)]
pub fn encode_list<T: WireCode>(items: &Vec<T>, out: &mut Vec<u8>)
    ensures
        final(out)@ == old(out)@ + spec_enc_list::<T>(views_of(items@)),
{
    enc_u64(out, items.len() as u64);
    let ghost mid = out@;
    let mut k: usize = 0;
    while k < items.len()
        invariant
            k <= items.len(),
            out@ == mid + spec_enc_items::<T>(views_of(items@.subrange(0, k as int))),
        decreases items.len() - k,
    {
        let ghost before = out@;
        items[k].encode(out);
        proof {
            lemma_enc_items_push::<T>(views_of(items@.subrange(0, k as int)), items@[k as int]@);
            assert(views_of(items@.subrange(0, k + 1 as int))
                =~= views_of(items@.subrange(0, k as int)).push(items@[k as int]@));
            assert(out@ =~= mid + spec_enc_items::<T>(views_of(items@.subrange(0, k + 1 as int))));
        }
        k = k + 1;
    }
    proof {
        assert(items@.subrange(0, items@.len() as int) =~= items@);
        assert(out@ =~= old(out)@ + spec_enc_list::<T>(views_of(items@)));
    }
}

/// Appending one element to a list appends its encoding.
pub proof fn lemma_enc_items_push<T: WireCode>(items: Seq<T::V>, v: T::V)
    ensures
        spec_enc_items::<T>(items.push(v)) == spec_enc_items::<T>(items) + T::spec_enc(v),
    decreases items.len(),
{
    if items.len() == 0 {
        let p = items.push(v);
        assert(p[0] == v);
        assert(p.drop_first() =~= Seq::<T::V>::empty());
        assert(spec_enc_items::<T>(p.drop_first()) =~= Seq::<u8>::empty());
        assert(spec_enc_items::<T>(p) =~= T::spec_enc(v) + spec_enc_items::<T>(p.drop_first()));
        assert(spec_enc_items::<T>(p) =~= T::spec_enc(v));
        assert(spec_enc_items::<T>(items) + T::spec_enc(v) =~= T::spec_enc(v));
    } else {
        assert(items.push(v).drop_first() =~= items.drop_first().push(v));
        lemma_enc_items_push::<T>(items.drop_first(), v);
        assert(spec_enc_items::<T>(items.push(v))
            =~= spec_enc_items::<T>(items) + T::spec_enc(v));
    }
}

/// A fresh vector holding the same bytes.
pub fn copy_bytes(v: &Vec<u8>) -> (r: Vec<u8>)
    ensures
        r@ == v@,
{
    let mut r: Vec<u8> = Vec::new();
    let mut k: usize = 0;
    while k < v.len()
        invariant
            k <= v.len(),
            r@ == v@.subrange(0, k as int),
        decreases v.len() - k,
    {
        r.push(v[k]);
        proof {
            assert(r@ =~= v@.subrange(0, k + 1 as int));
        }
        k = k + 1;
    }
    proof {
        assert(v@.subrange(0, v@.len() as int) =~= v@);
    }
    r
}

/// Whether two byte vectors hold the same bytes.
pub fn bytes_eq(a: &Vec<u8>, b: &Vec<u8>) -> (r: bool)
    ensures
        r == (a@ == b@),
{
    if a.len() != b.len() {
        proof {
            assert(a@.len() != b@.len());
        }
        return false;
    }
    let mut k: usize = 0;
    while k < a.len()
        invariant
            k <= a.len(),
            a@.len() == b@.len(),
            forall|i: int| 0 <= i < k ==> a@[i] == b@[i],
        decreases a.len() - k,
    {
        if a[k] != b[k] {
            return false;
        }
        k = k + 1;
    }
    proof {
        assert(a@ =~= b@);
    }
    true
}

/// A 32-bit integer on the wire.
impl WireCode for u32 {
    open spec fn spec_enc(m: u32) -> Seq<u8> {
        spec_enc_u32(m)
    }

    open spec fn spec_dec(s: Seq<u8>, i: int) -> Option<(u32, int)> {
        spec_dec_u32(s, i)
    }

    open spec fn wire_wf(m: u32) -> bool {
        true
    }

    proof fn lemma_rt(pre: Seq<u8>, m: u32, suf: Seq<u8>) {
        lemma_rt_u32(pre, m, suf);
    }

    proof fn lemma_wf(&self) {
    }

    fn dup(&self) -> (r: Self) {
        *self
    }

    fn encode(&self, out: &mut Vec<u8>) {
        enc_u32(out, *self);
    }

    fn decode(s: &Vec<u8>, i: usize) -> (r: Option<(Self, usize)>) {
        dec_u32(s, i)
    }
}

/// A bare byte string is wire-coded as a length-prefixed vector.
impl WireCode for Vec<u8> {
    open spec fn spec_enc(m: Seq<u8>) -> Seq<u8> {
        spec_enc_bytes(m)
    }

    open spec fn spec_dec(s: Seq<u8>, i: int) -> Option<(Seq<u8>, int)> {
        spec_dec_bytes(s, i)
    }

    open spec fn wire_wf(m: Seq<u8>) -> bool {
        fits_wire_len(m.len())
    }

    proof fn lemma_rt(pre: Seq<u8>, m: Seq<u8>, suf: Seq<u8>) {
        lemma_rt_bytes(pre, m, suf);
    }

    proof fn lemma_wf(&self) {
        lemma_vec_fits(self);
    }

    fn dup(&self) -> (r: Self) {
        copy_bytes(self)
    }

    fn encode(&self, out: &mut Vec<u8>) {
        enc_bytes(out, self);
    }

    fn decode(s: &Vec<u8>, i: usize) -> (r: Option<(Self, usize)>) {
        dec_bytes(s, i)
    }
}

/// Mapping to models commutes with appending one element.
pub proof fn lemma_views_push<T: View>(s: Seq<T>, v: T)
    ensures
        views_of(s.push(v)) == views_of(s).push(v@),
{
    assert(views_of(s.push(v)) =~= views_of(s).push(v@));
}

/// Mapping to models commutes with replacing one element.
pub proof fn lemma_views_update<T: View>(s: Seq<T>, i: int, v: T)
    requires
        0 <= i < s.len(),
    ensures
        views_of(s.update(i, v)) == views_of(s).update(i, v@),
{
    assert(views_of(s.update(i, v)) =~= views_of(s).update(i, v@));
}

/// A fresh vector of copies with the same models.
#[verifier::loop_isolation(false)]
pub fn dup_list<T: WireCode>(items: &Vec<T>) -> (r: Vec<T>)
    ensures
        views_of(r@) == views_of(items@),
{
    let mut r: Vec<T> = Vec::new();
    let mut k: usize = 0;
    while k < items.len()
        invariant
            k <= items.len(),
            r@.len() == k,
            forall|i: int| 0 <= i < k ==> #[trigger] r@[i]@ == items@[i]@,
        decreases items.len() - k,
    {
        r.push(items[k].dup());
        k = k + 1;
    }
    proof {
        assert forall|i: int| 0 <= i < items@.len() implies #[trigger] views_of(r@)[i] == views_of(
            items@,
        )[i] by {}
        assert(views_of(r@) =~= views_of(items@));
    }
    r
}

#[verifier::loop_isolation(false)]
pub fn decode_list<T: WireCode>(s: &Vec<u8>, i: usize) -> (r: Option<(Vec<T>, usize)>)
    ensures
        match r {
            Some((items, j)) => spec_dec_list::<T>(s@, i as int) == Some((views_of(items@), j as int)),
            None => spec_dec_list::<T>(s@, i as int) is None,
        },
{
    match dec_u64(s, i) {
        Some((n, j0)) => {
            let mut items: Vec<T> = Vec::new();
            let mut j = j0;
            let mut k: u64 = 0;
            proof {
                assert(views_of(items@) =~= Seq::<T::V>::empty());
                if let Some((rest, end)) = spec_dec_items::<T>(s@, j0 as int, n as nat) {
                    assert(views_of(items@) + rest =~= rest);
                }
            }
            loop
                invariant
                    k <= n,
                    spec_dec_items::<T>(s@, j0 as int, n as nat) == (match spec_dec_items::<T>(
                        s@,
                        j as int,
                        (n - k) as nat,
                    ) {
                        Some((rest, end)) => Some((views_of(items@) + rest, end)),
                        None => None::<(Seq<T::V>, int)>,
                    }),
                decreases n - k,
            {
                if k == n {
                    proof {
                        assert(views_of(items@) + Seq::<T::V>::empty() =~= views_of(items@));
                    }
                    return Some((items, j));
                }
                match T::decode(s, j) {
                    Some((v, j2)) => {
                        let ghost old_items = items@;
                        items.push(v);
                        proof {
                            assert(views_of(items@) =~= views_of(old_items).push(v@));
                            if let Some((rest2, end)) = spec_dec_items::<T>(
                                s@,
                                j2 as int,
                                (n - (k + 1)) as nat,
                            ) {
                                assert(views_of(old_items) + (seq![v@] + rest2) =~= views_of(items@)
                                    + rest2);
                            }
                        }
                        j = j2;
                        k = k + 1;
                    },
                    None => {
                        return None;
                    },
                }
            }
        },
        None => None,
    }
}

} // verus!
