use vstd::prelude::*;

use crate::codec::{
    copy_bytes, dec_bytes, dec_u16, dec_u8, enc_bytes, enc_u16, enc_u8, fits_wire_len,
    lemma_rt_bytes, lemma_rt_tag16, lemma_rt_tag8, lemma_rt_u16, lemma_split4, spec_dec_bytes,
    spec_dec_u16, spec_dec_u8, spec_enc_bytes, spec_enc_u16, spec_enc_u8, WireCode,
};
use crate::crypto::CipherSuite;
use crate::extension::{ExtensionList, ExtensionV};
use crate::hash_reference::{spec_ref_of, wf_hash_ref, HashReference};
use crate::key_package::{KeyPackage, KeyPackageV};
use crate::psk::{PreSharedKeyID, PreSharedKeyIDV};

verus! {

/// The index of a leaf slot in the ratchet tree.
pub type LeafIndex = u32;

/// Asks that a new member with the given key package join the group.
#[derive(Clone, Debug, PartialEq, Eq)]
pub struct AddProposal {
    pub key_package: KeyPackage,
}

pub struct AddProposalV {
    pub key_package: KeyPackageV,
}

impl View for AddProposal {
    type V = AddProposalV;

    open spec fn view(&self) -> AddProposalV {
        AddProposalV { key_package: self.key_package@ }
    }
}

impl WireCode for AddProposal {
    open spec fn spec_enc(m: AddProposalV) -> Seq<u8> {
        KeyPackage::spec_enc(m.key_package)
    }

    open spec fn spec_dec(s: Seq<u8>, i: int) -> Option<(AddProposalV, int)> {
        match KeyPackage::spec_dec(s, i) {
            Some((kp, j)) => Some((AddProposalV { key_package: kp }, j)),
            None => None,
        }
    }

    open spec fn wire_wf(m: AddProposalV) -> bool {
        KeyPackage::wire_wf(m.key_package)
    }

    proof fn lemma_rt(pre: Seq<u8>, m: AddProposalV, suf: Seq<u8>) {
        KeyPackage::lemma_rt(pre, m.key_package, suf);
    }

    proof fn lemma_wf(&self) {
        self.key_package.lemma_wf();
    }

    fn dup(&self) -> (r: Self) {
        AddProposal { key_package: self.key_package.dup() }
    }

    fn encode(&self, out: &mut Vec<u8>) {
        self.key_package.encode(out);
    }

    fn decode(s: &Vec<u8>, i: usize) -> (r: Option<(Self, usize)>) {
        match KeyPackage::decode(s, i) {
            Some((key_package, j)) => Some((AddProposal { key_package }, j)),
            None => None,
        }
    }
}

/// Replaces the sender's own leaf key package with a fresh one.
#[derive(Clone, Debug, PartialEq, Eq)]
pub struct UpdateProposal {
    pub key_package: KeyPackage,
}

pub struct UpdateProposalV {
    pub key_package: KeyPackageV,
}

impl View for UpdateProposal {
    type V = UpdateProposalV;

    open spec fn view(&self) -> UpdateProposalV {
        UpdateProposalV { key_package: self.key_package@ }
    }
}

impl WireCode for UpdateProposal {
    open spec fn spec_enc(m: UpdateProposalV) -> Seq<u8> {
        KeyPackage::spec_enc(m.key_package)
    }

    open spec fn spec_dec(s: Seq<u8>, i: int) -> Option<(UpdateProposalV, int)> {
        match KeyPackage::spec_dec(s, i) {
            Some((kp, j)) => Some((UpdateProposalV { key_package: kp }, j)),
            None => None,
        }
    }

    open spec fn wire_wf(m: UpdateProposalV) -> bool {
        KeyPackage::wire_wf(m.key_package)
    }

    proof fn lemma_rt(pre: Seq<u8>, m: UpdateProposalV, suf: Seq<u8>) {
        KeyPackage::lemma_rt(pre, m.key_package, suf);
    }

    proof fn lemma_wf(&self) {
        self.key_package.lemma_wf();
    }

    fn dup(&self) -> (r: Self) {
        UpdateProposal { key_package: self.key_package.dup() }
    }

    fn encode(&self, out: &mut Vec<u8>) {
        self.key_package.encode(out);
    }

    fn decode(s: &Vec<u8>, i: usize) -> (r: Option<(Self, usize)>) {
        match KeyPackage::decode(s, i) {
            Some((key_package, j)) => Some((UpdateProposal { key_package }, j)),
            None => None,
        }
    }
}

/// Asks that the member at a leaf be removed from the group.
#[derive(Clone, Copy, Debug, PartialEq, Eq, Structural)]
pub struct RemoveProposal {
    pub to_remove: LeafIndex,
}

impl View for RemoveProposal {
    type V = RemoveProposal;

    open spec fn view(&self) -> RemoveProposal {
        *self
    }
}

impl WireCode for RemoveProposal {
    open spec fn spec_enc(m: RemoveProposal) -> Seq<u8> {
        crate::codec::spec_enc_u32(m.to_remove)
    }

    open spec fn spec_dec(s: Seq<u8>, i: int) -> Option<(RemoveProposal, int)> {
        match crate::codec::spec_dec_u32(s, i) {
            Some((x, j)) => Some((RemoveProposal { to_remove: x }, j)),
            None => None,
        }
    }

    open spec fn wire_wf(m: RemoveProposal) -> bool {
        true
    }

    proof fn lemma_rt(pre: Seq<u8>, m: RemoveProposal, suf: Seq<u8>) {
        crate::codec::lemma_rt_u32(pre, m.to_remove, suf);
    }

    proof fn lemma_wf(&self) {
    }

    fn dup(&self) -> (r: Self) {
        *self
    }

    fn encode(&self, out: &mut Vec<u8>) {
        crate::codec::enc_u32(out, self.to_remove);
    }

    fn decode(s: &Vec<u8>, i: usize) -> (r: Option<(Self, usize)>) {
        match crate::codec::dec_u32(s, i) {
            Some((to_remove, j)) => Some((RemoveProposal { to_remove }, j)),
            None => None,
        }
    }
}

/// Injects a pre-shared key into the next epoch's secret schedule.
#[derive(Clone, Debug, PartialEq, Eq)]
pub struct PreSharedKeyProposal {
    pub psk: PreSharedKeyID,
}

pub struct PreSharedKeyProposalV {
    pub psk: PreSharedKeyIDV,
}

impl View for PreSharedKeyProposal {
    type V = PreSharedKeyProposalV;

    open spec fn view(&self) -> PreSharedKeyProposalV {
        PreSharedKeyProposalV { psk: self.psk@ }
    }
}

impl WireCode for PreSharedKeyProposal {
    open spec fn spec_enc(m: PreSharedKeyProposalV) -> Seq<u8> {
        PreSharedKeyID::spec_enc(m.psk)
    }

    open spec fn spec_dec(s: Seq<u8>, i: int) -> Option<(PreSharedKeyProposalV, int)> {
        match PreSharedKeyID::spec_dec(s, i) {
            Some((psk, j)) => Some((PreSharedKeyProposalV { psk }, j)),
            None => None,
        }
    }

    open spec fn wire_wf(m: PreSharedKeyProposalV) -> bool {
        PreSharedKeyID::wire_wf(m.psk)
    }

    proof fn lemma_rt(pre: Seq<u8>, m: PreSharedKeyProposalV, suf: Seq<u8>) {
        PreSharedKeyID::lemma_rt(pre, m.psk, suf);
    }

    proof fn lemma_wf(&self) {
        self.psk.lemma_wf();
    }

    fn dup(&self) -> (r: Self) {
        PreSharedKeyProposal { psk: self.psk.dup() }
    }

    fn encode(&self, out: &mut Vec<u8>) {
        self.psk.encode(out);
    }

    fn decode(s: &Vec<u8>, i: usize) -> (r: Option<(Self, usize)>) {
        match PreSharedKeyID::decode(s, i) {
            Some((psk, j)) => Some((PreSharedKeyProposal { psk }, j)),
            None => None,
        }
    }
}

/// Asks that the group start over under a new group id, protocol version,
/// suite and extensions; it stands alone in its batch.
#[derive(Clone, Debug, PartialEq, Eq)]
pub struct ReInitProposal {
    pub group_id: Vec<u8>,
    pub version: u16,
    pub cipher_suite: u16,
    pub extensions: ExtensionList,
}

pub struct ReInitProposalV {
    pub group_id: Seq<u8>,
    pub version: u16,
    pub cipher_suite: u16,
    pub extensions: Seq<ExtensionV>,
}

impl View for ReInitProposal {
    type V = ReInitProposalV;

    open spec fn view(&self) -> ReInitProposalV {
        ReInitProposalV {
            group_id: self.group_id@,
            version: self.version,
            cipher_suite: self.cipher_suite,
            extensions: self.extensions@,
        }
    }
}

impl WireCode for ReInitProposal {
    open spec fn spec_enc(m: ReInitProposalV) -> Seq<u8> {
        spec_enc_bytes(m.group_id) + spec_enc_u16(m.version) + spec_enc_u16(m.cipher_suite)
            + ExtensionList::spec_enc(m.extensions)
    }

    open spec fn spec_dec(s: Seq<u8>, i: int) -> Option<(ReInitProposalV, int)> {
        match spec_dec_bytes(s, i) {
            Some((gid, i1)) => match spec_dec_u16(s, i1) {
                Some((version, i2)) => match spec_dec_u16(s, i2) {
                    Some((cs, i3)) => match ExtensionList::spec_dec(s, i3) {
                        Some((exts, i4)) => Some(
                            (
                                ReInitProposalV {
                                    group_id: gid,
                                    version,
                                    cipher_suite: cs,
                                    extensions: exts,
                                },
                                i4,
                            ),
                        ),
                        None => None,
                    },
                    None => None,
                },
                None => None,
            },
            None => None,
        }
    }

    open spec fn wire_wf(m: ReInitProposalV) -> bool {
        fits_wire_len(m.group_id.len()) && ExtensionList::wire_wf(m.extensions)
    }

    proof fn lemma_rt(pre: Seq<u8>, m: ReInitProposalV, suf: Seq<u8>) {
        let e1 = spec_enc_bytes(m.group_id);
        let e2 = spec_enc_u16(m.version);
        let e3 = spec_enc_u16(m.cipher_suite);
        let e4 = ExtensionList::spec_enc(m.extensions);
        lemma_split4(pre, e1, e2, e3, e4, suf);
        lemma_rt_bytes(pre, m.group_id, e2 + (e3 + (e4 + suf)));
        lemma_rt_u16(pre + e1, m.version, e3 + (e4 + suf));
        lemma_rt_u16(pre + e1 + e2, m.cipher_suite, e4 + suf);
        ExtensionList::lemma_rt(pre + e1 + e2 + e3, m.extensions, suf);
    }

    proof fn lemma_wf(&self) {
        crate::codec::lemma_vec_fits(&self.group_id);
        self.extensions.lemma_wf();
    }

    fn dup(&self) -> (r: Self) {
        ReInitProposal {
            group_id: copy_bytes(&self.group_id),
            version: self.version,
            cipher_suite: self.cipher_suite,
            extensions: self.extensions.dup(),
        }
    }

    fn encode(&self, out: &mut Vec<u8>) {
        enc_bytes(out, &self.group_id);
        enc_u16(out, self.version);
        enc_u16(out, self.cipher_suite);
        self.extensions.encode(out);
        proof {
            assert(out@ =~= old(out)@ + Self::spec_enc(self@));
        }
    }

    fn decode(s: &Vec<u8>, i: usize) -> (r: Option<(Self, usize)>) {
        match dec_bytes(s, i) {
            Some((group_id, i1)) => match dec_u16(s, i1) {
                Some((version, i2)) => match dec_u16(s, i2) {
                    Some((cipher_suite, i3)) => match ExtensionList::decode(s, i3) {
                        Some((extensions, i4)) => Some(
                            (ReInitProposal { group_id, version, cipher_suite, extensions }, i4),
                        ),
                        None => None,
                    },
                    None => None,
                },
                None => None,
            },
            None => None,
        }
    }
}

/// Lets an outsider join by committing from outside the group; carries the
/// key-encapsulation output its external secret came from.
#[derive(Clone, Debug, PartialEq, Eq)]
pub struct ExternalInitProposal {
    pub kem_output: Vec<u8>,
}

impl View for ExternalInitProposal {
    type V = Seq<u8>;

    open spec fn view(&self) -> Seq<u8> {
        self.kem_output@
    }
}

impl WireCode for ExternalInitProposal {
    open spec fn spec_enc(m: Seq<u8>) -> Seq<u8> {
        spec_enc_bytes(m)
    }

    open spec fn spec_dec(s: Seq<u8>, i: int) -> Option<(Seq<u8>, int)> {
        spec_dec_bytes(s, i)
    }

    open spec fn wire_wf(m: Seq<u8>) -> bool {
        fits_wire_len(m.len())
    }

    proof fn lemma_rt(pre: Seq<u8>, m: Seq<u8>, suf: Seq<u8>) {
        lemma_rt_bytes(pre, m, suf);
    }

    proof fn lemma_wf(&self) {
        crate::codec::lemma_vec_fits(&self.kem_output);
    }

    fn dup(&self) -> (r: Self) {
        ExternalInitProposal { kem_output: copy_bytes(&self.kem_output) }
    }

    fn encode(&self, out: &mut Vec<u8>) {
        enc_bytes(out, &self.kem_output);
    }

    fn decode(s: &Vec<u8>, i: usize) -> (r: Option<(Self, usize)>) {
        match dec_bytes(s, i) {
            Some((kem_output, j)) => Some((ExternalInitProposal { kem_output }, j)),
            None => None,
        }
    }
}

/// One pending change to the group: who joins, who leaves, which keys and
/// extensions change.
#[derive(Clone, Debug, PartialEq, Eq)]
pub enum Proposal {
    Add(AddProposal),
    Update(UpdateProposal),
    Remove(RemoveProposal),
    Psk(PreSharedKeyProposal),
    ReInit(ReInitProposal),
    ExternalInit(ExternalInitProposal),
    GroupContextExtensions(ExtensionList),
}

pub enum ProposalV {
    Add(AddProposalV),
    Update(UpdateProposalV),
    Remove(RemoveProposal),
    Psk(PreSharedKeyProposalV),
    ReInit(ReInitProposalV),
    ExternalInit(Seq<u8>),
    GroupContextExtensions(Seq<ExtensionV>),
}

impl View for Proposal {
    type V = ProposalV;

    open spec fn view(&self) -> ProposalV {
        match self {
            Proposal::Add(p) => ProposalV::Add(p@),
            Proposal::Update(p) => ProposalV::Update(p@),
            Proposal::Remove(p) => ProposalV::Remove(*p),
            Proposal::Psk(p) => ProposalV::Psk(p@),
            Proposal::ReInit(p) => ProposalV::ReInit(p@),
            Proposal::ExternalInit(p) => ProposalV::ExternalInit(p@),
            Proposal::GroupContextExtensions(e) => ProposalV::GroupContextExtensions(e@),
        }
    }
}

proof fn lemma_rt_proposal_add(pre: Seq<u8>, p: AddProposalV, suf: Seq<u8>)
    requires
        AddProposal::wire_wf(p),
    ensures
        ({
            let m = ProposalV::Add(p);
            Proposal::spec_dec(pre + Proposal::spec_enc(m) + suf, pre.len() as int) == Some(
                (m, (pre.len() + Proposal::spec_enc(m).len()) as int),
            )
        }),
{
    let m = ProposalV::Add(p);
    let payload = AddProposal::spec_enc(p);
    let tag = spec_enc_u16(1);
    let s = pre + (tag + payload) + suf;
    lemma_rt_tag16::<AddProposal>(pre, 1, p, suf);
    assert(Proposal::spec_enc(m) == tag + payload);
    assert(Proposal::spec_dec(s, pre.len() as int) == Some(
        (m, (pre.len() + tag.len() + payload.len()) as int),
    ));
}

proof fn lemma_rt_proposal_update(pre: Seq<u8>, p: UpdateProposalV, suf: Seq<u8>)
    requires
        UpdateProposal::wire_wf(p),
    ensures
        ({
            let m = ProposalV::Update(p);
            Proposal::spec_dec(pre + Proposal::spec_enc(m) + suf, pre.len() as int) == Some(
                (m, (pre.len() + Proposal::spec_enc(m).len()) as int),
            )
        }),
{
    let m = ProposalV::Update(p);
    let payload = UpdateProposal::spec_enc(p);
    let tag = spec_enc_u16(2);
    let s = pre + (tag + payload) + suf;
    lemma_rt_tag16::<UpdateProposal>(pre, 2, p, suf);
    assert(Proposal::spec_enc(m) == tag + payload);
    assert(Proposal::spec_dec(s, pre.len() as int) == Some(
        (m, (pre.len() + tag.len() + payload.len()) as int),
    ));
}

proof fn lemma_rt_proposal_remove(pre: Seq<u8>, p: RemoveProposal, suf: Seq<u8>)
    ensures
        ({
            let m = ProposalV::Remove(p);
            Proposal::spec_dec(pre + Proposal::spec_enc(m) + suf, pre.len() as int) == Some(
                (m, (pre.len() + Proposal::spec_enc(m).len()) as int),
            )
        }),
{
    let m = ProposalV::Remove(p);
    let payload = RemoveProposal::spec_enc(p);
    let tag = spec_enc_u16(3);
    let s = pre + (tag + payload) + suf;
    lemma_rt_tag16::<RemoveProposal>(pre, 3, p, suf);
    assert(Proposal::spec_enc(m) == tag + payload);
    assert(Proposal::spec_dec(s, pre.len() as int) == Some(
        (m, (pre.len() + tag.len() + payload.len()) as int),
    ));
}

proof fn lemma_rt_proposal_psk(pre: Seq<u8>, p: PreSharedKeyProposalV, suf: Seq<u8>)
    requires
        PreSharedKeyProposal::wire_wf(p),
    ensures
        ({
            let m = ProposalV::Psk(p);
            Proposal::spec_dec(pre + Proposal::spec_enc(m) + suf, pre.len() as int) == Some(
                (m, (pre.len() + Proposal::spec_enc(m).len()) as int),
            )
        }),
{
    let m = ProposalV::Psk(p);
    let payload = PreSharedKeyProposal::spec_enc(p);
    let tag = spec_enc_u16(4);
    let s = pre + (tag + payload) + suf;
    lemma_rt_tag16::<PreSharedKeyProposal>(pre, 4, p, suf);
    assert(Proposal::spec_enc(m) == tag + payload);
    assert(Proposal::spec_dec(s, pre.len() as int) == Some(
        (m, (pre.len() + tag.len() + payload.len()) as int),
    ));
}

proof fn lemma_rt_proposal_reinit(pre: Seq<u8>, p: ReInitProposalV, suf: Seq<u8>)
    requires
        ReInitProposal::wire_wf(p),
    ensures
        ({
            let m = ProposalV::ReInit(p);
            Proposal::spec_dec(pre + Proposal::spec_enc(m) + suf, pre.len() as int) == Some(
                (m, (pre.len() + Proposal::spec_enc(m).len()) as int),
            )
        }),
{
    let m = ProposalV::ReInit(p);
    let payload = ReInitProposal::spec_enc(p);
    let tag = spec_enc_u16(5);
    let s = pre + (tag + payload) + suf;
    lemma_rt_tag16::<ReInitProposal>(pre, 5, p, suf);
    assert(Proposal::spec_enc(m) == tag + payload);
    assert(Proposal::spec_dec(s, pre.len() as int) == Some(
        (m, (pre.len() + tag.len() + payload.len()) as int),
    ));
}

proof fn lemma_rt_proposal_external_init(pre: Seq<u8>, p: Seq<u8>, suf: Seq<u8>)
    requires
        ExternalInitProposal::wire_wf(p),
    ensures
        ({
            let m = ProposalV::ExternalInit(p);
            Proposal::spec_dec(pre + Proposal::spec_enc(m) + suf, pre.len() as int) == Some(
                (m, (pre.len() + Proposal::spec_enc(m).len()) as int),
            )
        }),
{
    let m = ProposalV::ExternalInit(p);
    let payload = ExternalInitProposal::spec_enc(p);
    let tag = spec_enc_u16(6);
    let s = pre + (tag + payload) + suf;
    lemma_rt_tag16::<ExternalInitProposal>(pre, 6, p, suf);
    assert(Proposal::spec_enc(m) == tag + payload);
    assert(Proposal::spec_dec(s, pre.len() as int) == Some(
        (m, (pre.len() + tag.len() + payload.len()) as int),
    ));
}

proof fn lemma_rt_proposal_gce(pre: Seq<u8>, p: Seq<ExtensionV>, suf: Seq<u8>)
    requires
        ExtensionList::wire_wf(p),
    ensures
        ({
            let m = ProposalV::GroupContextExtensions(p);
            Proposal::spec_dec(pre + Proposal::spec_enc(m) + suf, pre.len() as int) == Some(
                (m, (pre.len() + Proposal::spec_enc(m).len()) as int),
            )
        }),
{
    let m = ProposalV::GroupContextExtensions(p);
    let payload = ExtensionList::spec_enc(p);
    let tag = spec_enc_u16(7);
    let s = pre + (tag + payload) + suf;
    lemma_rt_tag16::<ExtensionList>(pre, 7, p, suf);
    assert(Proposal::spec_enc(m) == tag + payload);
    assert(Proposal::spec_dec(s, pre.len() as int) == Some(
        (m, (pre.len() + tag.len() + payload.len()) as int),
    ));
}

impl WireCode for Proposal {
    open spec fn spec_enc(m: ProposalV) -> Seq<u8> {
        match m {
            ProposalV::Add(p) => spec_enc_u16(1) + AddProposal::spec_enc(p),
            ProposalV::Update(p) => spec_enc_u16(2) + UpdateProposal::spec_enc(p),
            ProposalV::Remove(p) => spec_enc_u16(3) + RemoveProposal::spec_enc(p),
            ProposalV::Psk(p) => spec_enc_u16(4) + PreSharedKeyProposal::spec_enc(p),
            ProposalV::ReInit(p) => spec_enc_u16(5) + ReInitProposal::spec_enc(p),
            ProposalV::ExternalInit(p) => spec_enc_u16(6) + ExternalInitProposal::spec_enc(p),
            ProposalV::GroupContextExtensions(p) => spec_enc_u16(7) + ExtensionList::spec_enc(p),
        }
    }

    open spec fn spec_dec(s: Seq<u8>, i: int) -> Option<(ProposalV, int)> {
        match spec_dec_u16(s, i) {
            Some((d, j)) => if d == 1 {
                match AddProposal::spec_dec(s, j) {
                    Some((p, k)) => Some((ProposalV::Add(p), k)),
                    None => None,
                }
            } else if d == 2 {
                match UpdateProposal::spec_dec(s, j) {
                    Some((p, k)) => Some((ProposalV::Update(p), k)),
                    None => None,
                }
            } else if d == 3 {
                match RemoveProposal::spec_dec(s, j) {
                    Some((p, k)) => Some((ProposalV::Remove(p), k)),
                    None => None,
                }
            } else if d == 4 {
                match PreSharedKeyProposal::spec_dec(s, j) {
                    Some((p, k)) => Some((ProposalV::Psk(p), k)),
                    None => None,
                }
            } else if d == 5 {
                match ReInitProposal::spec_dec(s, j) {
                    Some((p, k)) => Some((ProposalV::ReInit(p), k)),
                    None => None,
                }
            } else if d == 6 {
                match ExternalInitProposal::spec_dec(s, j) {
                    Some((p, k)) => Some((ProposalV::ExternalInit(p), k)),
                    None => None,
                }
            } else if d == 7 {
                match ExtensionList::spec_dec(s, j) {
                    Some((p, k)) => Some((ProposalV::GroupContextExtensions(p), k)),
                    None => None,
                }
            } else {
                None
            },
            None => None,
        }
    }

    open spec fn wire_wf(m: ProposalV) -> bool {
        match m {
            ProposalV::Add(p) => AddProposal::wire_wf(p),
            ProposalV::Update(p) => UpdateProposal::wire_wf(p),
            ProposalV::Remove(p) => RemoveProposal::wire_wf(p),
            ProposalV::Psk(p) => PreSharedKeyProposal::wire_wf(p),
            ProposalV::ReInit(p) => ReInitProposal::wire_wf(p),
            ProposalV::ExternalInit(p) => ExternalInitProposal::wire_wf(p),
            ProposalV::GroupContextExtensions(p) => ExtensionList::wire_wf(p),
        }
    }

    proof fn lemma_rt(pre: Seq<u8>, m: ProposalV, suf: Seq<u8>) {
        match m {
            ProposalV::Add(p) => lemma_rt_proposal_add(pre, p, suf),
            ProposalV::Update(p) => lemma_rt_proposal_update(pre, p, suf),
            ProposalV::Remove(p) => lemma_rt_proposal_remove(pre, p, suf),
            ProposalV::Psk(p) => lemma_rt_proposal_psk(pre, p, suf),
            ProposalV::ReInit(p) => lemma_rt_proposal_reinit(pre, p, suf),
            ProposalV::ExternalInit(p) => lemma_rt_proposal_external_init(pre, p, suf),
            ProposalV::GroupContextExtensions(p) => lemma_rt_proposal_gce(pre, p, suf),
        }
    }

    proof fn lemma_wf(&self) {
        match self {
            Proposal::Add(p) => p.lemma_wf(),
            Proposal::Update(p) => p.lemma_wf(),
            Proposal::Remove(p) => p.lemma_wf(),
            Proposal::Psk(p) => p.lemma_wf(),
            Proposal::ReInit(p) => p.lemma_wf(),
            Proposal::ExternalInit(p) => p.lemma_wf(),
            Proposal::GroupContextExtensions(e) => e.lemma_wf(),
        }
    }

    fn dup(&self) -> (r: Self) {
        match self {
            Proposal::Add(p) => Proposal::Add(p.dup()),
            Proposal::Update(p) => Proposal::Update(p.dup()),
            Proposal::Remove(p) => Proposal::Remove(*p),
            Proposal::Psk(p) => Proposal::Psk(p.dup()),
            Proposal::ReInit(p) => Proposal::ReInit(p.dup()),
            Proposal::ExternalInit(p) => Proposal::ExternalInit(p.dup()),
            Proposal::GroupContextExtensions(e) => Proposal::GroupContextExtensions(e.dup()),
        }
    }

    fn encode(&self, out: &mut Vec<u8>) {
        match self {
            Proposal::Add(p) => {
                enc_u16(out, 1);
                p.encode(out);
                proof {
                    assert(out@ =~= old(out)@ + Self::spec_enc(self@));
                }
            },
            Proposal::Update(p) => {
                enc_u16(out, 2);
                p.encode(out);
                proof {
                    assert(out@ =~= old(out)@ + Self::spec_enc(self@));
                }
            },
            Proposal::Remove(p) => {
                enc_u16(out, 3);
                p.encode(out);
                proof {
                    assert(out@ =~= old(out)@ + Self::spec_enc(self@));
                }
            },
            Proposal::Psk(p) => {
                enc_u16(out, 4);
                p.encode(out);
                proof {
                    assert(out@ =~= old(out)@ + Self::spec_enc(self@));
                }
            },
            Proposal::ReInit(p) => {
                enc_u16(out, 5);
                p.encode(out);
                proof {
                    assert(out@ =~= old(out)@ + Self::spec_enc(self@));
                }
            },
            Proposal::ExternalInit(p) => {
                enc_u16(out, 6);
                p.encode(out);
                proof {
                    assert(out@ =~= old(out)@ + Self::spec_enc(self@));
                }
            },
            Proposal::GroupContextExtensions(e) => {
                enc_u16(out, 7);
                e.encode(out);
                proof {
                    assert(out@ =~= old(out)@ + Self::spec_enc(self@));
                }
            },
        }
    }

    fn decode(s: &Vec<u8>, i: usize) -> (r: Option<(Self, usize)>) {
        match dec_u16(s, i) {
            Some((d, j)) => {
                if d == 1 {
                    match AddProposal::decode(s, j) {
                        Some((p, k)) => Some((Proposal::Add(p), k)),
                        None => None,
                    }
                } else if d == 2 {
                    match UpdateProposal::decode(s, j) {
                        Some((p, k)) => Some((Proposal::Update(p), k)),
                        None => None,
                    }
                } else if d == 3 {
                    match RemoveProposal::decode(s, j) {
                        Some((p, k)) => Some((Proposal::Remove(p), k)),
                        None => None,
                    }
                } else if d == 4 {
                    match PreSharedKeyProposal::decode(s, j) {
                        Some((p, k)) => Some((Proposal::Psk(p), k)),
                        None => None,
                    }
                } else if d == 5 {
                    match ReInitProposal::decode(s, j) {
                        Some((p, k)) => Some((Proposal::ReInit(p), k)),
                        None => None,
                    }
                } else if d == 6 {
                    match ExternalInitProposal::decode(s, j) {
                        Some((p, k)) => Some((Proposal::ExternalInit(p), k)),
                        None => None,
                    }
                } else if d == 7 {
                    match ExtensionList::decode(s, j) {
                        Some((e, k)) => Some((Proposal::GroupContextExtensions(e), k)),
                        None => None,
                    }
                } else {
                    None
                }
            },
            None => None,
        }
    }
}

/// A short hash-derived name for a proposal sent earlier, so that a commit
/// can cite it without repeating it.
#[derive(Clone, Debug, PartialEq, Eq, Hash, PartialOrd, Ord)]
pub struct ProposalRef {
    pub hash_reference: HashReference,
}

impl View for ProposalRef {
    type V = Seq<u8>;

    open spec fn view(&self) -> Seq<u8> {
        self.hash_reference@
    }
}

impl ProposalRef {
    /// The underlying hash reference.
    pub fn as_hash_reference(&self) -> (r: &HashReference)
        ensures
            r@ == self@,
    {
        &self.hash_reference
    }
}

impl WireCode for ProposalRef {
    open spec fn spec_enc(m: Seq<u8>) -> Seq<u8> {
        spec_enc_bytes(m)
    }

    open spec fn spec_dec(s: Seq<u8>, i: int) -> Option<(Seq<u8>, int)> {
        spec_dec_bytes(s, i)
    }

    open spec fn wire_wf(m: Seq<u8>) -> bool {
        fits_wire_len(m.len())
    }

    proof fn lemma_rt(pre: Seq<u8>, m: Seq<u8>, suf: Seq<u8>) {
        lemma_rt_bytes(pre, m, suf);
    }

    proof fn lemma_wf(&self) {
        self.hash_reference.lemma_wf();
    }

    fn dup(&self) -> (r: Self) {
        ProposalRef { hash_reference: self.hash_reference.dup() }
    }

    fn encode(&self, out: &mut Vec<u8>) {
        self.hash_reference.encode(out);
    }

    fn decode(s: &Vec<u8>, i: usize) -> (r: Option<(Self, usize)>) {
        match HashReference::decode(s, i) {
            Some((hash_reference, j)) => Some((ProposalRef { hash_reference }, j)),
            None => None,
        }
    }
}

impl Proposal {
    /// The reference that names this proposal: the hash-derived reference of
    /// its encoding.
    pub fn to_reference(&self, cipher_suite: CipherSuite) -> (r: ProposalRef)
        ensures
            r@ == spec_ref_of(Proposal::spec_enc(self@)),
            wf_hash_ref(r@),
    {
        let mut bytes: Vec<u8> = Vec::new();
        self.encode(&mut bytes);
        proof {
            assert(bytes@ =~= Proposal::spec_enc(self@));
        }
        ProposalRef {
            hash_reference: HashReference::from_value(&bytes, cipher_suite),
        }
    }

    pub fn is_add(&self) -> (r: bool)
        ensures
            r == (self@ is Add),
    {
        matches!(self, Proposal::Add(_))
    }

    pub fn as_add(&self) -> (r: Option<&AddProposal>)
        ensures
            match r {
                Some(p) => self@ matches ProposalV::Add(a) && p@ == a,
                None => !(self@ is Add),
            },
    {
        match self {
            Proposal::Add(add) => Some(add),
            _ => None,
        }
    }

    pub fn is_update(&self) -> (r: bool)
        ensures
            r == (self@ is Update),
    {
        matches!(self, Proposal::Update(_))
    }

    pub fn as_update(&self) -> (r: Option<&UpdateProposal>)
        ensures
            match r {
                Some(p) => self@ matches ProposalV::Update(u) && p@ == u,
                None => !(self@ is Update),
            },
    {
        match self {
            Proposal::Update(update) => Some(update),
            _ => None,
        }
    }

    pub fn is_remove(&self) -> (r: bool)
        ensures
            r == (self@ is Remove),
    {
        matches!(self, Proposal::Remove(_))
    }

    pub fn as_remove(&self) -> (r: Option<&RemoveProposal>)
        ensures
            match r {
                Some(p) => self@ matches ProposalV::Remove(rm) && p@ == rm,
                None => !(self@ is Remove),
            },
    {
        match self {
            Proposal::Remove(removal) => Some(removal),
            _ => None,
        }
    }
}

/// A proposal carried in a commit either in full or by reference.
#[derive(Clone, Debug, PartialEq, Eq)]
pub enum ProposalOrRef {
    Proposal(Proposal),
    Reference(ProposalRef),
}

pub enum ProposalOrRefV {
    Proposal(ProposalV),
    Reference(Seq<u8>),
}

impl View for ProposalOrRef {
    type V = ProposalOrRefV;

    open spec fn view(&self) -> ProposalOrRefV {
        match self {
            ProposalOrRef::Proposal(p) => ProposalOrRefV::Proposal(p@),
            ProposalOrRef::Reference(r) => ProposalOrRefV::Reference(r@),
        }
    }
}

proof fn lemma_rt_por_proposal(pre: Seq<u8>, p: ProposalV, suf: Seq<u8>)
    requires
        Proposal::wire_wf(p),
    ensures
        ({
            let m = ProposalOrRefV::Proposal(p);
            ProposalOrRef::spec_dec(pre + ProposalOrRef::spec_enc(m) + suf, pre.len() as int)
                == Some((m, (pre.len() + ProposalOrRef::spec_enc(m).len()) as int))
        }),
{
    let m = ProposalOrRefV::Proposal(p);
    let payload = Proposal::spec_enc(p);
    let tag = spec_enc_u8(1);
    let s = pre + (tag + payload) + suf;
    lemma_rt_tag8::<Proposal>(pre, 1, p, suf);
    assert(ProposalOrRef::spec_enc(m) == tag + payload);
    assert(ProposalOrRef::spec_dec(s, pre.len() as int) == Some(
        (m, (pre.len() + tag.len() + payload.len()) as int),
    ));
}

proof fn lemma_rt_por_reference(pre: Seq<u8>, p: Seq<u8>, suf: Seq<u8>)
    requires
        ProposalRef::wire_wf(p),
    ensures
        ({
            let m = ProposalOrRefV::Reference(p);
            ProposalOrRef::spec_dec(pre + ProposalOrRef::spec_enc(m) + suf, pre.len() as int)
                == Some((m, (pre.len() + ProposalOrRef::spec_enc(m).len()) as int))
        }),
{
    let m = ProposalOrRefV::Reference(p);
    let payload = ProposalRef::spec_enc(p);
    let tag = spec_enc_u8(2);
    let s = pre + (tag + payload) + suf;
    lemma_rt_tag8::<ProposalRef>(pre, 2, p, suf);
    assert(ProposalOrRef::spec_enc(m) == tag + payload);
    assert(ProposalOrRef::spec_dec(s, pre.len() as int) == Some(
        (m, (pre.len() + tag.len() + payload.len()) as int),
    ));
}

impl WireCode for ProposalOrRef {
    open spec fn spec_enc(m: ProposalOrRefV) -> Seq<u8> {
        match m {
            ProposalOrRefV::Proposal(p) => spec_enc_u8(1) + Proposal::spec_enc(p),
            ProposalOrRefV::Reference(r) => spec_enc_u8(2) + ProposalRef::spec_enc(r),
        }
    }

    open spec fn spec_dec(s: Seq<u8>, i: int) -> Option<(ProposalOrRefV, int)> {
        match spec_dec_u8(s, i) {
            Some((d, j)) => if d == 1 {
                match Proposal::spec_dec(s, j) {
                    Some((p, k)) => Some((ProposalOrRefV::Proposal(p), k)),
                    None => None,
                }
            } else if d == 2 {
                match ProposalRef::spec_dec(s, j) {
                    Some((r, k)) => Some((ProposalOrRefV::Reference(r), k)),
                    None => None,
                }
            } else {
                None
            },
            None => None,
        }
    }

    open spec fn wire_wf(m: ProposalOrRefV) -> bool {
        match m {
            ProposalOrRefV::Proposal(p) => Proposal::wire_wf(p),
            ProposalOrRefV::Reference(r) => ProposalRef::wire_wf(r),
        }
    }

    proof fn lemma_rt(pre: Seq<u8>, m: ProposalOrRefV, suf: Seq<u8>) {
        match m {
            ProposalOrRefV::Proposal(p) => lemma_rt_por_proposal(pre, p, suf),
            ProposalOrRefV::Reference(r) => lemma_rt_por_reference(pre, r, suf),
        }
    }

    proof fn lemma_wf(&self) {
        match self {
            ProposalOrRef::Proposal(p) => p.lemma_wf(),
            ProposalOrRef::Reference(r) => r.lemma_wf(),
        }
    }

    fn dup(&self) -> (r: Self) {
        match self {
            ProposalOrRef::Proposal(p) => ProposalOrRef::Proposal(p.dup()),
            ProposalOrRef::Reference(r) => ProposalOrRef::Reference(r.dup()),
        }
    }

    fn encode(&self, out: &mut Vec<u8>) {
        match self {
            ProposalOrRef::Proposal(p) => {
                enc_u8(out, 1);
                p.encode(out);
                proof {
                    assert(out@ =~= old(out)@ + Self::spec_enc(self@));
                }
            },
            ProposalOrRef::Reference(r) => {
                enc_u8(out, 2);
                r.encode(out);
                proof {
                    assert(out@ =~= old(out)@ + Self::spec_enc(self@));
                }
            },
        }
    }

    fn decode(s: &Vec<u8>, i: usize) -> (r: Option<(Self, usize)>) {
        match dec_u8(s, i) {
            Some((d, j)) => {
                if d == 1 {
                    match Proposal::decode(s, j) {
                        Some((p, k)) => Some((ProposalOrRef::Proposal(p), k)),
                        None => None,
                    }
                } else if d == 2 {
                    match ProposalRef::decode(s, j) {
                        Some((r0, k)) => Some((ProposalOrRef::Reference(r0), k)),
                        None => None,
                    }
                } else {
                    None
                }
            },
            None => None,
        }
    }
}

impl From<AddProposal> for Proposal {
    fn from(ap: AddProposal) -> (r: Proposal) {
        Proposal::Add(ap)
    }
}

impl vstd::std_specs::convert::FromSpecImpl<AddProposal> for Proposal {
    open spec fn obeys_from_spec() -> bool {
        true
    }

    open spec fn from_spec(ap: AddProposal) -> Proposal {
        Proposal::Add(ap)
    }
}

impl From<Proposal> for ProposalOrRef {
    fn from(proposal: Proposal) -> (r: ProposalOrRef) {
        ProposalOrRef::Proposal(proposal)
    }
}

impl vstd::std_specs::convert::FromSpecImpl<Proposal> for ProposalOrRef {
    open spec fn obeys_from_spec() -> bool {
        true
    }

    open spec fn from_spec(proposal: Proposal) -> ProposalOrRef {
        ProposalOrRef::Proposal(proposal)
    }
}

impl From<ProposalRef> for ProposalOrRef {
    fn from(r: ProposalRef) -> (rr: ProposalOrRef) {
        ProposalOrRef::Reference(r)
    }
}

impl vstd::std_specs::convert::FromSpecImpl<ProposalRef> for ProposalOrRef {
    open spec fn obeys_from_spec() -> bool {
        true
    }

    open spec fn from_spec(r: ProposalRef) -> ProposalOrRef {
        ProposalOrRef::Reference(r)
    }
}

/// A proposal waiting for a commit, remembered with who sent it.
#[derive(Clone, Debug, PartialEq, Eq)]
pub struct PendingProposal {
    pub proposal: Proposal,
    pub sender: LeafIndex,
}

pub struct PendingProposalV {
    pub proposal: ProposalV,
    pub sender: LeafIndex,
}

impl View for PendingProposal {
    type V = PendingProposalV;

    open spec fn view(&self) -> PendingProposalV {
        PendingProposalV { proposal: self.proposal@, sender: self.sender }
    }
}

} // verus!
