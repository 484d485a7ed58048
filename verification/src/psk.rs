use vstd::prelude::*;

use crate::codec::{
    copy_bytes, dec_bytes, dec_u64, dec_u8, enc_bytes, enc_u64, enc_u8, fits_wire_len,
    lemma_rt_bytes,
    lemma_rt_tag8, lemma_rt_u64, lemma_rt_u8, lemma_split2, lemma_split3, spec_dec_bytes, spec_dec_u64, spec_dec_u8,
    spec_enc_bytes, spec_enc_u16, spec_enc_u64, spec_enc_u8, WireCode,
};
use crate::crypto::{random_bytes, CipherSuite};

verus! {

// Pre-shared keys enter the epoch secret schedule; the library only carries
// their identifiers and nonces, never the keys themselves.

/// The identifier of a pre-shared key agreed outside the group.
#[derive(Clone, Debug, PartialEq, Eq, Hash, PartialOrd, Ord)]
pub struct ExternalPskId {
    pub bytes: Vec<u8>,
}

impl View for ExternalPskId {
    type V = Seq<u8>;

    open spec fn view(&self) -> Seq<u8> {
        self.bytes@
    }
}

impl WireCode for ExternalPskId {
    open spec fn spec_enc(m: Seq<u8>) -> Seq<u8> {
        spec_enc_bytes(m)
    }

    open spec fn spec_dec(s: Seq<u8>, i: int) -> Option<(Seq<u8>, int)> {
        spec_dec_bytes(s, i)
    }

    open spec fn wire_wf(m: Seq<u8>) -> bool {
        fits_wire_len(m.len())
    }

    proof fn lemma_rt(pre: Seq<u8>, m: Seq<u8>, suf: Seq<u8>) {
        lemma_rt_bytes(pre, m, suf);
    }

    proof fn lemma_wf(&self) {
        crate::codec::lemma_vec_fits(&self.bytes);
    }

    fn dup(&self) -> (r: Self) {
        ExternalPskId { bytes: copy_bytes(&self.bytes) }
    }

    fn encode(&self, out: &mut Vec<u8>) {
        enc_bytes(out, &self.bytes);
    }

    fn decode(s: &Vec<u8>, i: usize) -> (r: Option<(Self, usize)>) {
        match dec_bytes(s, i) {
            Some((bytes, j)) => Some((ExternalPskId { bytes }, j)),
            None => None,
        }
    }
}

/// The group a resumption pre-shared key comes from.
#[derive(Clone, Debug, PartialEq, Eq, Hash, PartialOrd, Ord)]
pub struct PskGroupId {
    pub bytes: Vec<u8>,
}

impl View for PskGroupId {
    type V = Seq<u8>;

    open spec fn view(&self) -> Seq<u8> {
        self.bytes@
    }
}

/// A fresh nonce bound to one use of a pre-shared key.
#[derive(Clone, Debug, PartialEq, Eq, Hash, PartialOrd, Ord)]
pub struct PskNonce {
    pub bytes: Vec<u8>,
}

impl View for PskNonce {
    type V = Seq<u8>;

    open spec fn view(&self) -> Seq<u8> {
        self.bytes@
    }
}

impl PskNonce {
    /// A fresh random nonce of the suite's extract size.  The bytes are
    /// random: only their number is promised.
    pub fn random(cipher_suite: CipherSuite) -> (r: PskNonce)
        ensures
            r@.len() == 32,
    {
        PskNonce { bytes: random_bytes(cipher_suite.kdf_extract_size()) }
    }
}

/// What a resumption key resumes.
#[derive(Clone, Copy, Debug, PartialEq, Eq, Structural, Hash, PartialOrd, Ord)]
pub enum ResumptionPSKUsage {
    Application,
    Reinit,
    Branch,
}

impl ResumptionPSKUsage {
    pub open spec fn spec_raw(self) -> u8 {
        match self {
            ResumptionPSKUsage::Application => 1,
            ResumptionPSKUsage::Reinit => 2,
            ResumptionPSKUsage::Branch => 3,
        }
    }

    pub fn raw(self) -> (r: u8)
        ensures
            r == self.spec_raw(),
    {
        match self {
            ResumptionPSKUsage::Application => 1,
            ResumptionPSKUsage::Reinit => 2,
            ResumptionPSKUsage::Branch => 3,
        }
    }
}

impl View for ResumptionPSKUsage {
    type V = ResumptionPSKUsage;

    open spec fn view(&self) -> ResumptionPSKUsage {
        *self
    }
}

impl WireCode for ResumptionPSKUsage {
    open spec fn spec_enc(m: ResumptionPSKUsage) -> Seq<u8> {
        spec_enc_u8(m.spec_raw())
    }

    open spec fn spec_dec(s: Seq<u8>, i: int) -> Option<(ResumptionPSKUsage, int)> {
        match spec_dec_u8(s, i) {
            Some((d, j)) => if d == 1 {
                Some((ResumptionPSKUsage::Application, j))
            } else if d == 2 {
                Some((ResumptionPSKUsage::Reinit, j))
            } else if d == 3 {
                Some((ResumptionPSKUsage::Branch, j))
            } else {
                None
            },
            None => None,
        }
    }

    open spec fn wire_wf(m: ResumptionPSKUsage) -> bool {
        true
    }

    proof fn lemma_rt(pre: Seq<u8>, m: ResumptionPSKUsage, suf: Seq<u8>) {
        lemma_rt_u8(pre, m.spec_raw(), suf);
    }

    proof fn lemma_wf(&self) {
    }

    fn dup(&self) -> (r: Self) {
        *self
    }

    fn encode(&self, out: &mut Vec<u8>) {
        enc_u8(out, self.raw());
    }

    fn decode(s: &Vec<u8>, i: usize) -> (r: Option<(Self, usize)>) {
        match dec_u8(s, i) {
            Some((d, j)) => {
                if d == 1 {
                    Some((ResumptionPSKUsage::Application, j))
                } else if d == 2 {
                    Some((ResumptionPSKUsage::Reinit, j))
                } else if d == 3 {
                    Some((ResumptionPSKUsage::Branch, j))
                } else {
                    None
                }
            },
            None => None,
        }
    }
}

/// A pre-shared key taken over from an earlier epoch of a group.
#[derive(Clone, Debug, PartialEq, Eq, Hash, PartialOrd, Ord)]
pub struct ResumptionPsk {
    pub usage: ResumptionPSKUsage,
    pub psk_group_id: PskGroupId,
    pub psk_epoch: u64,
}

pub struct ResumptionPskV {
    pub usage: ResumptionPSKUsage,
    pub psk_group_id: Seq<u8>,
    pub psk_epoch: u64,
}

impl View for ResumptionPsk {
    type V = ResumptionPskV;

    open spec fn view(&self) -> ResumptionPskV {
        ResumptionPskV {
            usage: self.usage,
            psk_group_id: self.psk_group_id@,
            psk_epoch: self.psk_epoch,
        }
    }
}

impl WireCode for ResumptionPsk {
    open spec fn spec_enc(m: ResumptionPskV) -> Seq<u8> {
        spec_enc_u8(m.usage.spec_raw()) + spec_enc_bytes(m.psk_group_id) + spec_enc_u64(
            m.psk_epoch,
        )
    }

    open spec fn spec_dec(s: Seq<u8>, i: int) -> Option<(ResumptionPskV, int)> {
        match ResumptionPSKUsage::spec_dec(s, i) {
            Some((usage, j)) => match spec_dec_bytes(s, j) {
                Some((gid, k)) => match spec_dec_u64(s, k) {
                    Some((epoch, l)) => Some(
                        (ResumptionPskV { usage, psk_group_id: gid, psk_epoch: epoch }, l),
                    ),
                    None => None,
                },
                None => None,
            },
            None => None,
        }
    }

    open spec fn wire_wf(m: ResumptionPskV) -> bool {
        fits_wire_len(m.psk_group_id.len())
    }

    proof fn lemma_rt(pre: Seq<u8>, m: ResumptionPskV, suf: Seq<u8>) {
        let e1 = spec_enc_u8(m.usage.spec_raw());
        let e2 = spec_enc_bytes(m.psk_group_id);
        let e3 = spec_enc_u64(m.psk_epoch);
        lemma_split3(pre, e1, e2, e3, suf);
        lemma_rt_u8(pre, m.usage.spec_raw(), e2 + (e3 + suf));
        lemma_rt_bytes(pre + e1, m.psk_group_id, e3 + suf);
        lemma_rt_u64(pre + e1 + e2, m.psk_epoch, suf);
    }

    proof fn lemma_wf(&self) {
        crate::codec::lemma_vec_fits(&self.psk_group_id.bytes);
    }

    fn dup(&self) -> (r: Self) {
        ResumptionPsk {
            usage: self.usage,
            psk_group_id: PskGroupId { bytes: copy_bytes(&self.psk_group_id.bytes) },
            psk_epoch: self.psk_epoch,
        }
    }

    fn encode(&self, out: &mut Vec<u8>) {
        enc_u8(out, self.usage.raw());
        enc_bytes(out, &self.psk_group_id.bytes);
        enc_u64(out, self.psk_epoch);
        proof {
            assert(out@ =~= old(out)@ + Self::spec_enc(self@));
        }
    }

    fn decode(s: &Vec<u8>, i: usize) -> (r: Option<(Self, usize)>) {
        match ResumptionPSKUsage::decode(s, i) {
            Some((usage, j)) => match dec_bytes(s, j) {
                Some((bytes, k)) => match dec_u64(s, k) {
                    Some((psk_epoch, l)) => Some(
                        (
                            ResumptionPsk {
                                usage,
                                psk_group_id: PskGroupId { bytes },
                                psk_epoch,
                            },
                            l,
                        ),
                    ),
                    None => None,
                },
                None => None,
            },
            None => None,
        }
    }
}

/// Which pre-shared key a proposal names: an external one or a resumption.
#[derive(Clone, Debug, PartialEq, Eq, Hash, PartialOrd, Ord)]
pub enum JustPreSharedKeyID {
    External(ExternalPskId),
    Resumption(ResumptionPsk),
}

pub enum JustPreSharedKeyIDV {
    External(Seq<u8>),
    Resumption(ResumptionPskV),
}

impl View for JustPreSharedKeyID {
    type V = JustPreSharedKeyIDV;

    open spec fn view(&self) -> JustPreSharedKeyIDV {
        match self {
            JustPreSharedKeyID::External(e) => JustPreSharedKeyIDV::External(e@),
            JustPreSharedKeyID::Resumption(p) => JustPreSharedKeyIDV::Resumption(p@),
        }
    }
}

proof fn lemma_rt_just_psk_external(pre: Seq<u8>, e: Seq<u8>, suf: Seq<u8>)
    requires
        ExternalPskId::wire_wf(e),
    ensures
        ({
            let m = JustPreSharedKeyIDV::External(e);
            JustPreSharedKeyID::spec_dec(
                pre + JustPreSharedKeyID::spec_enc(m) + suf,
                pre.len() as int,
            ) == Some((m, (pre.len() + JustPreSharedKeyID::spec_enc(m).len()) as int))
        }),
{
    let m = JustPreSharedKeyIDV::External(e);
    let payload = ExternalPskId::spec_enc(e);
    let tag = spec_enc_u8(1);
    let s = pre + (tag + payload) + suf;
    lemma_rt_tag8::<ExternalPskId>(pre, 1, e, suf);
    assert(JustPreSharedKeyID::spec_enc(m) == tag + payload);
    assert(JustPreSharedKeyID::spec_dec(s, pre.len() as int) == Some(
        (m, (pre.len() + tag.len() + payload.len()) as int),
    ));
}

proof fn lemma_rt_just_psk_resumption(pre: Seq<u8>, p: ResumptionPskV, suf: Seq<u8>)
    requires
        ResumptionPsk::wire_wf(p),
    ensures
        ({
            let m = JustPreSharedKeyIDV::Resumption(p);
            JustPreSharedKeyID::spec_dec(
                pre + JustPreSharedKeyID::spec_enc(m) + suf,
                pre.len() as int,
            ) == Some((m, (pre.len() + JustPreSharedKeyID::spec_enc(m).len()) as int))
        }),
{
    let m = JustPreSharedKeyIDV::Resumption(p);
    let payload = ResumptionPsk::spec_enc(p);
    let tag = spec_enc_u8(2);
    let s = pre + (tag + payload) + suf;
    lemma_rt_tag8::<ResumptionPsk>(pre, 2, p, suf);
    assert(JustPreSharedKeyID::spec_enc(m) == tag + payload);
    assert(JustPreSharedKeyID::spec_dec(s, pre.len() as int) == Some(
        (m, (pre.len() + tag.len() + payload.len()) as int),
    ));
}

impl WireCode for JustPreSharedKeyID {
    open spec fn spec_enc(m: JustPreSharedKeyIDV) -> Seq<u8> {
        match m {
            JustPreSharedKeyIDV::External(e) => spec_enc_u8(1) + ExternalPskId::spec_enc(e),
            JustPreSharedKeyIDV::Resumption(p) => spec_enc_u8(2) + ResumptionPsk::spec_enc(p),
        }
    }

    open spec fn spec_dec(s: Seq<u8>, i: int) -> Option<(JustPreSharedKeyIDV, int)> {
        match spec_dec_u8(s, i) {
            Some((d, j)) => if d == 1 {
                match ExternalPskId::spec_dec(s, j) {
                    Some((e, k)) => Some((JustPreSharedKeyIDV::External(e), k)),
                    None => None,
                }
            } else if d == 2 {
                match ResumptionPsk::spec_dec(s, j) {
                    Some((p, k)) => Some((JustPreSharedKeyIDV::Resumption(p), k)),
                    None => None,
                }
            } else {
                None
            },
            None => None,
        }
    }

    open spec fn wire_wf(m: JustPreSharedKeyIDV) -> bool {
        match m {
            JustPreSharedKeyIDV::External(e) => ExternalPskId::wire_wf(e),
            JustPreSharedKeyIDV::Resumption(p) => ResumptionPsk::wire_wf(p),
        }
    }

    proof fn lemma_rt(pre: Seq<u8>, m: JustPreSharedKeyIDV, suf: Seq<u8>) {
        match m {
            JustPreSharedKeyIDV::External(e) => lemma_rt_just_psk_external(pre, e, suf),
            JustPreSharedKeyIDV::Resumption(p) => lemma_rt_just_psk_resumption(pre, p, suf),
        }
    }

    proof fn lemma_wf(&self) {
        match self {
            JustPreSharedKeyID::External(e) => e.lemma_wf(),
            JustPreSharedKeyID::Resumption(p) => p.lemma_wf(),
        }
    }

    fn dup(&self) -> (r: Self) {
        match self {
            JustPreSharedKeyID::External(e) => JustPreSharedKeyID::External(e.dup()),
            JustPreSharedKeyID::Resumption(p) => JustPreSharedKeyID::Resumption(p.dup()),
        }
    }

    fn encode(&self, out: &mut Vec<u8>) {
        match self {
            JustPreSharedKeyID::External(e) => {
                enc_u8(out, 1);
                e.encode(out);
                proof {
                    assert(out@ =~= old(out)@ + Self::spec_enc(self@));
                }
            },
            JustPreSharedKeyID::Resumption(p) => {
                enc_u8(out, 2);
                p.encode(out);
                proof {
                    assert(out@ =~= old(out)@ + Self::spec_enc(self@));
                }
            },
        }
    }

    fn decode(s: &Vec<u8>, i: usize) -> (r: Option<(Self, usize)>) {
        match dec_u8(s, i) {
            Some((d, j)) => {
                if d == 1 {
                    match ExternalPskId::decode(s, j) {
                        Some((e, k)) => Some((JustPreSharedKeyID::External(e), k)),
                        None => None,
                    }
                } else if d == 2 {
                    match ResumptionPsk::decode(s, j) {
                        Some((p, k)) => Some((JustPreSharedKeyID::Resumption(p), k)),
                        None => None,
                    }
                } else {
                    None
                }
            },
            None => None,
        }
    }
}

/// A pre-shared key identifier together with the fresh nonce of this use.
#[derive(Clone, Debug, PartialEq, Eq, Hash, PartialOrd, Ord)]
pub struct PreSharedKeyID {
    pub key_id: JustPreSharedKeyID,
    pub psk_nonce: PskNonce,
}

pub struct PreSharedKeyIDV {
    pub key_id: JustPreSharedKeyIDV,
    pub psk_nonce: Seq<u8>,
}

impl View for PreSharedKeyID {
    type V = PreSharedKeyIDV;

    open spec fn view(&self) -> PreSharedKeyIDV {
        PreSharedKeyIDV { key_id: self.key_id@, psk_nonce: self.psk_nonce@ }
    }
}

impl PreSharedKeyID {
    /// Binds `key_id` to a fresh random nonce.
    pub fn new(key_id: JustPreSharedKeyID, cs: CipherSuite) -> (r: PreSharedKeyID)
        ensures
            r@.key_id == key_id@,
            r@.psk_nonce.len() == 32,
    {
        PreSharedKeyID { key_id, psk_nonce: PskNonce::random(cs) }
    }
}

impl WireCode for PreSharedKeyID {
    open spec fn spec_enc(m: PreSharedKeyIDV) -> Seq<u8> {
        JustPreSharedKeyID::spec_enc(m.key_id) + spec_enc_bytes(m.psk_nonce)
    }

    open spec fn spec_dec(s: Seq<u8>, i: int) -> Option<(PreSharedKeyIDV, int)> {
        match JustPreSharedKeyID::spec_dec(s, i) {
            Some((key_id, j)) => match spec_dec_bytes(s, j) {
                Some((nonce, k)) => Some((PreSharedKeyIDV { key_id, psk_nonce: nonce }, k)),
                None => None,
            },
            None => None,
        }
    }

    open spec fn wire_wf(m: PreSharedKeyIDV) -> bool {
        JustPreSharedKeyID::wire_wf(m.key_id) && fits_wire_len(m.psk_nonce.len())
    }

    proof fn lemma_rt(pre: Seq<u8>, m: PreSharedKeyIDV, suf: Seq<u8>) {
        let e1 = JustPreSharedKeyID::spec_enc(m.key_id);
        let e2 = spec_enc_bytes(m.psk_nonce);
        lemma_split2(pre, e1, e2, suf);
        JustPreSharedKeyID::lemma_rt(pre, m.key_id, e2 + suf);
        lemma_rt_bytes(pre + e1, m.psk_nonce, suf);
    }

    proof fn lemma_wf(&self) {
        self.key_id.lemma_wf();
        crate::codec::lemma_vec_fits(&self.psk_nonce.bytes);
    }

    fn dup(&self) -> (r: Self) {
        PreSharedKeyID {
            key_id: self.key_id.dup(),
            psk_nonce: PskNonce { bytes: copy_bytes(&self.psk_nonce.bytes) },
        }
    }

    fn encode(&self, out: &mut Vec<u8>) {
        self.key_id.encode(out);
        enc_bytes(out, &self.psk_nonce.bytes);
        proof {
            assert(out@ =~= old(out)@ + Self::spec_enc(self@));
        }
    }

    fn decode(s: &Vec<u8>, i: usize) -> (r: Option<(Self, usize)>) {
        match JustPreSharedKeyID::decode(s, i) {
            Some((key_id, j)) => match dec_bytes(s, j) {
                Some((bytes, k)) => Some(
                    (PreSharedKeyID { key_id, psk_nonce: PskNonce { bytes } }, k),
                ),
                None => None,
            },
            None => None,
        }
    }
}

/// Where pre-shared keys are looked up by identifier; users may implement
/// their own store.
pub trait PreSharedKeyStorage {
    type Error;

    fn get(&self, id: &ExternalPskId) -> Result<Option<Vec<u8>>, Self::Error>;
}

/// A store that answers every lookup with the empty key.
#[derive(Clone, Copy, Debug, PartialEq, Eq, Structural)]
pub struct AlwaysFoundPskStorage;

impl PreSharedKeyStorage for AlwaysFoundPskStorage {
    type Error = ();

    fn get(&self, id: &ExternalPskId) -> Result<Option<Vec<u8>>, Self::Error> {
        let _ = id;
        Ok(Some(Vec::new()))
    }
}

/// The label under which one pre-shared key enters the secret schedule: its
/// identifier with its position in the batch.  It is only ever encoded.
#[derive(Clone, Debug, PartialEq, Eq)]
pub struct PSKLabel {
    pub id: PreSharedKeyID,
    pub index: u16,
    pub count: u16,
}

impl PSKLabel {
    /// The encoded label.
    pub fn to_bytes(&self) -> (r: Vec<u8>)
        ensures
            r@ == PreSharedKeyID::spec_enc(self.id@) + spec_enc_u16(self.index) + spec_enc_u16(
                self.count,
            ),
    {
        let mut out: Vec<u8> = Vec::new();
        self.id.encode(&mut out);
        crate::codec::enc_u16(&mut out, self.index);
        crate::codec::enc_u16(&mut out, self.count);
        proof {
            assert(out@ =~= PreSharedKeyID::spec_enc(self.id@) + spec_enc_u16(self.index)
                + spec_enc_u16(self.count));
        }
        out
    }
}

} // verus!
