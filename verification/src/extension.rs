use vstd::prelude::*;

use crate::codec::{
    copy_bytes, dec_bytes, dec_u16, decode_list, dup_list, enc_bytes, enc_u16, encode_list,
    fits_wire_len,
    lemma_rt_bytes, lemma_rt_list, lemma_rt_u16, lemma_split2, spec_dec_bytes, spec_dec_list, spec_dec_u16,
    spec_enc_bytes, spec_enc_list, spec_enc_u16, views_of, wire_wf_items, WireCode,
};

verus! {

/// One typed extension: an identifier and its opaque payload.
#[derive(Clone, Debug, PartialEq, Eq)]
pub struct Extension {
    pub extension_type: u16,
    pub extension_data: Vec<u8>,
}

pub struct ExtensionV {
    pub extension_type: u16,
    pub extension_data: Seq<u8>,
}

impl View for Extension {
    type V = ExtensionV;

    open spec fn view(&self) -> ExtensionV {
        ExtensionV { extension_type: self.extension_type, extension_data: self.extension_data@ }
    }
}

impl WireCode for Extension {
    open spec fn spec_enc(m: ExtensionV) -> Seq<u8> {
        spec_enc_u16(m.extension_type) + spec_enc_bytes(m.extension_data)
    }

    open spec fn spec_dec(s: Seq<u8>, i: int) -> Option<(ExtensionV, int)> {
        match spec_dec_u16(s, i) {
            Some((t, j)) => match spec_dec_bytes(s, j) {
                Some((d, k)) => Some((ExtensionV { extension_type: t, extension_data: d }, k)),
                None => None,
            },
            None => None,
        }
    }

    open spec fn wire_wf(m: ExtensionV) -> bool {
        fits_wire_len(m.extension_data.len())
    }

    proof fn lemma_rt(pre: Seq<u8>, m: ExtensionV, suf: Seq<u8>) {
        let e1 = spec_enc_u16(m.extension_type);
        let e2 = spec_enc_bytes(m.extension_data);
        lemma_split2(pre, e1, e2, suf);
        lemma_rt_u16(pre, m.extension_type, e2 + suf);
        lemma_rt_bytes(pre + e1, m.extension_data, suf);
    }

    proof fn lemma_wf(&self) {
        crate::codec::lemma_vec_fits(&self.extension_data);
    }

    fn dup(&self) -> (r: Self) {
        Extension { extension_type: self.extension_type, extension_data: copy_bytes(&self.extension_data) }
    }

    fn encode(&self, out: &mut Vec<u8>) {
        enc_u16(out, self.extension_type);
        enc_bytes(out, &self.extension_data);
        proof {
            assert(out@ =~= old(out)@ + Self::spec_enc(self@));
        }
    }

    fn decode(s: &Vec<u8>, i: usize) -> (r: Option<(Self, usize)>) {
        match dec_u16(s, i) {
            Some((extension_type, j)) => match dec_bytes(s, j) {
                Some((extension_data, k)) => Some((Extension { extension_type, extension_data }, k)),
                None => None,
            },
            None => None,
        }
    }
}

/// An ordered list of extensions.
#[derive(Clone, Debug, PartialEq, Eq)]
pub struct ExtensionList {
    pub extensions: Vec<Extension>,
}

impl View for ExtensionList {
    type V = Seq<ExtensionV>;

    open spec fn view(&self) -> Seq<ExtensionV> {
        views_of(self.extensions@)
    }
}

impl ExtensionList {
    /// An empty list.
    pub fn new() -> (r: ExtensionList)
        ensures
            r@ == Seq::<ExtensionV>::empty(),
    {
        let r = ExtensionList { extensions: Vec::new() };
        proof {
            assert(r@ =~= Seq::<ExtensionV>::empty());
        }
        r
    }
}

impl WireCode for ExtensionList {
    open spec fn spec_enc(m: Seq<ExtensionV>) -> Seq<u8> {
        spec_enc_list::<Extension>(m)
    }

    open spec fn spec_dec(s: Seq<u8>, i: int) -> Option<(Seq<ExtensionV>, int)> {
        spec_dec_list::<Extension>(s, i)
    }

    open spec fn wire_wf(m: Seq<ExtensionV>) -> bool {
        wire_wf_items::<Extension>(m)
    }

    proof fn lemma_rt(pre: Seq<u8>, m: Seq<ExtensionV>, suf: Seq<u8>) {
        lemma_rt_list::<Extension>(pre, m, suf);
    }

    proof fn lemma_wf(&self) {
        assert(self.extensions.len() == self.extensions@.len());
        assert forall|k: int| 0 <= k < self@.len() implies Extension::wire_wf(#[trigger] self@[k]) by {
            self.extensions@[k].lemma_wf();
        }
    }

    fn dup(&self) -> (r: Self) {
        ExtensionList { extensions: dup_list::<Extension>(&self.extensions) }
    }

    fn encode(&self, out: &mut Vec<u8>) {
        encode_list::<Extension>(&self.extensions, out);
    }

    fn decode(s: &Vec<u8>, i: usize) -> (r: Option<(Self, usize)>) {
        match decode_list::<Extension>(s, i) {
            Some((extensions, j)) => Some((ExtensionList { extensions }, j)),
            None => None,
        }
    }
}

} // verus!
