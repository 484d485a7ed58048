use vstd::prelude::*;

use crate::codec::{
    copy_bytes, dec_bytes, enc_bytes, fits_wire_len, lemma_rt_bytes, spec_dec_bytes,
    spec_enc_bytes, WireCode,
};
use crate::crypto::{hkdf_expand, hkdf_expand_of, hkdf_extract, hkdf_extract_of, CipherSuite};

verus! {

/// The bytes of the expansion label under which references are derived.
pub open spec fn ref_label() -> Seq<u8> {
    seq![77u8, 76, 83, 32, 49, 46, 48, 32, 114, 101, 102]
}

pub fn ref_label_vec() -> (r: Vec<u8>)
    ensures
        r@ == ref_label(),
{
    let mut v: Vec<u8> = Vec::new();
    v.push(77);
    v.push(76);
    v.push(83);
    v.push(32);
    v.push(49);
    v.push(46);
    v.push(48);
    v.push(32);
    v.push(114);
    v.push(101);
    v.push(102);
    proof {
        assert(v@ =~= ref_label());
    }
    v
}

/// The 16-byte reference that a byte string derives to: an extract with an
/// empty salt followed by an expand under the reference label.
pub open spec fn spec_ref_of(value: Seq<u8>) -> Seq<u8> {
    hkdf_expand_of(hkdf_extract_of(Seq::empty(), value), ref_label(), 16)
}

/// A short reference that names a larger encoded object by a derivation of
/// its hash; 16 bytes once derived.
#[derive(Clone, Debug, PartialEq, Eq, Hash, PartialOrd, Ord)]
pub struct HashReference {
    pub bytes: Vec<u8>,
}

impl View for HashReference {
    type V = Seq<u8>;

    open spec fn view(&self) -> Seq<u8> {
        self.bytes@
    }
}

/// A derived reference always holds exactly 16 bytes.
pub open spec fn wf_hash_ref(m: Seq<u8>) -> bool {
    m.len() == 16
}

impl HashReference {
    /// The reference that names `value`.  The cipher suite picks the hash;
    /// with the one supported suite that is always SHA-256.
    pub fn from_value(value: &Vec<u8>, cipher_suite: CipherSuite) -> (r: HashReference)
        ensures
            r@ == spec_ref_of(value@),
            wf_hash_ref(r@),
    {
        let _ = cipher_suite;
        let empty_salt: Vec<u8> = Vec::new();
        let extracted = hkdf_extract(empty_salt.as_slice(), value.as_slice());
        let label = ref_label_vec();
        let bytes = hkdf_expand(extracted.as_slice(), label.as_slice(), 16);
        HashReference { bytes }
    }

    /// The raw bytes of the reference.
    pub fn as_bytes(&self) -> (r: &Vec<u8>)
        ensures
            r@ == self@,
    {
        &self.bytes
    }
}

impl WireCode for HashReference {
    open spec fn spec_enc(m: Seq<u8>) -> Seq<u8> {
        spec_enc_bytes(m)
    }

    open spec fn spec_dec(s: Seq<u8>, i: int) -> Option<(Seq<u8>, int)> {
        spec_dec_bytes(s, i)
    }

    open spec fn wire_wf(m: Seq<u8>) -> bool {
        fits_wire_len(m.len())
    }

    proof fn lemma_rt(pre: Seq<u8>, m: Seq<u8>, suf: Seq<u8>) {
        lemma_rt_bytes(pre, m, suf);
    }

    proof fn lemma_wf(&self) {
        crate::codec::lemma_vec_fits(&self.bytes);
        assert(Self::wire_wf(self@));
    }

    fn dup(&self) -> (r: Self) {
        HashReference { bytes: copy_bytes(&self.bytes) }
    }

    fn encode(&self, out: &mut Vec<u8>) {
        enc_bytes(out, &self.bytes);
    }

    fn decode(s: &Vec<u8>, i: usize) -> (r: Option<(Self, usize)>) {
        match dec_bytes(s, i) {
            Some((bytes, j)) => Some((HashReference { bytes }, j)),
            None => None,
        }
    }
}

} // verus!
