use vstd::prelude::*;

use crate::codec::{
    copy_bytes, dec_bytes, dec_u16, dec_u32, dec_u64, decode_list, decode_opt, dup_list,
    enc_bytes, enc_u16, enc_u32, enc_u64, encode_list, encode_opt, fits_wire_len, lemma_rt_bytes,
    lemma_rt_list, lemma_rt_opt, lemma_rt_u16, lemma_rt_u32, lemma_rt_u64, lemma_split2,
    lemma_split3, lemma_split5, lemma_split7, spec_dec_bytes, spec_dec_list, spec_dec_opt,
    spec_dec_u16, spec_dec_u32, spec_dec_u64, spec_enc_bytes, spec_enc_list, spec_enc_opt,
    spec_enc_u16, spec_enc_u32, spec_enc_u64, views_of, wire_wf_items, wire_wf_opt, WireCode,
};
use crate::extension::{ExtensionList, ExtensionV};
use crate::hash_reference::HashReference;
use crate::proposal::{LeafIndex, ProposalOrRef, ProposalOrRefV};
use crate::psk::{PreSharedKeyID, PreSharedKeyIDV};
use crate::transcript::ConfirmationTag;
use crate::treekem::{HpkeCiphertext, HpkeCiphertextV, UpdatePath, UpdatePathV};

verus! {

// The wire artifacts a group produces and consumes, and the framing that
// tells authenticated plaintext from encrypted content.

/// Why a message could not be read.
#[derive(Clone, Copy, Debug, PartialEq, Eq, Structural)]
pub enum FramingError {
    /// The bytes are not a whole, well-formed message.
    Malformed,
    /// The message is not of the kind that was asked for.
    WrongKind,
}

// ---------------------------------------------------------------------------
// GroupContext.
// ---------------------------------------------------------------------------

/// The authoritative per-epoch state of a group.
#[derive(Clone, Debug, PartialEq, Eq)]
pub struct GroupContext {
    pub group_id: Vec<u8>,
    pub protocol_version: u16,
    pub cipher_suite: u16,
    pub epoch: u64,
    pub tree_hash: Vec<u8>,
    pub confirmed_transcript_hash: Vec<u8>,
    pub extensions: ExtensionList,
}

pub struct GroupContextV {
    pub group_id: Seq<u8>,
    pub protocol_version: u16,
    pub cipher_suite: u16,
    pub epoch: u64,
    pub tree_hash: Seq<u8>,
    pub confirmed_transcript_hash: Seq<u8>,
    pub extensions: Seq<ExtensionV>,
}

impl View for GroupContext {
    type V = GroupContextV;

    open spec fn view(&self) -> GroupContextV {
        GroupContextV {
            group_id: self.group_id@,
            protocol_version: self.protocol_version,
            cipher_suite: self.cipher_suite,
            epoch: self.epoch,
            tree_hash: self.tree_hash@,
            confirmed_transcript_hash: self.confirmed_transcript_hash@,
            extensions: self.extensions@,
        }
    }
}

impl WireCode for GroupContext {
    open spec fn spec_enc(m: GroupContextV) -> Seq<u8> {
        spec_enc_bytes(m.group_id) + spec_enc_u16(m.protocol_version) + spec_enc_u16(
            m.cipher_suite,
        ) + spec_enc_u64(m.epoch) + spec_enc_bytes(m.tree_hash) + spec_enc_bytes(
            m.confirmed_transcript_hash,
        ) + ExtensionList::spec_enc(m.extensions)
    }

    open spec fn spec_dec(s: Seq<u8>, i: int) -> Option<(GroupContextV, int)> {
        match spec_dec_bytes(s, i) {
            Some((gid, i1)) => match spec_dec_u16(s, i1) {
                Some((pv, i2)) => match spec_dec_u16(s, i2) {
                    Some((cs, i3)) => match spec_dec_u64(s, i3) {
                        Some((epoch, i4)) => match spec_dec_bytes(s, i4) {
                            Some((th, i5)) => match spec_dec_bytes(s, i5) {
                                Some((cth, i6)) => match ExtensionList::spec_dec(s, i6) {
                                    Some((exts, i7)) => Some(
                                        (
                                            GroupContextV {
                                                group_id: gid,
                                                protocol_version: pv,
                                                cipher_suite: cs,
                                                epoch,
                                                tree_hash: th,
                                                confirmed_transcript_hash: cth,
                                                extensions: exts,
                                            },
                                            i7,
                                        ),
                                    ),
                                    None => None,
                                },
                                None => None,
                            },
                            None => None,
                        },
                        None => None,
                    },
                    None => None,
                },
                None => None,
            },
            None => None,
        }
    }

    open spec fn wire_wf(m: GroupContextV) -> bool {
        fits_wire_len(m.group_id.len()) && fits_wire_len(m.tree_hash.len()) && fits_wire_len(
            m.confirmed_transcript_hash.len(),
        ) && ExtensionList::wire_wf(m.extensions)
    }

    proof fn lemma_rt(pre: Seq<u8>, m: GroupContextV, suf: Seq<u8>) {
        let e1 = spec_enc_bytes(m.group_id);
        let e2 = spec_enc_u16(m.protocol_version);
        let e3 = spec_enc_u16(m.cipher_suite);
        let e4 = spec_enc_u64(m.epoch);
        let e5 = spec_enc_bytes(m.tree_hash);
        let e6 = spec_enc_bytes(m.confirmed_transcript_hash);
        let e7 = ExtensionList::spec_enc(m.extensions);
        lemma_split7(pre, e1, e2, e3, e4, e5, e6, e7, suf);
        lemma_rt_bytes(pre, m.group_id, e2 + (e3 + (e4 + (e5 + (e6 + (e7 + suf))))));
        lemma_rt_u16(pre + e1, m.protocol_version, e3 + (e4 + (e5 + (e6 + (e7 + suf)))));
        lemma_rt_u16(pre + e1 + e2, m.cipher_suite, e4 + (e5 + (e6 + (e7 + suf))));
        lemma_rt_u64(pre + e1 + e2 + e3, m.epoch, e5 + (e6 + (e7 + suf)));
        lemma_rt_bytes(pre + e1 + e2 + e3 + e4, m.tree_hash, e6 + (e7 + suf));
        lemma_rt_bytes(pre + e1 + e2 + e3 + e4 + e5, m.confirmed_transcript_hash, e7 + suf);
        ExtensionList::lemma_rt(pre + e1 + e2 + e3 + e4 + e5 + e6, m.extensions, suf);
    }

    proof fn lemma_wf(&self) {
        crate::codec::lemma_vec_fits(&self.group_id);
        crate::codec::lemma_vec_fits(&self.tree_hash);
        crate::codec::lemma_vec_fits(&self.confirmed_transcript_hash);
        self.extensions.lemma_wf();
    }

    fn dup(&self) -> (r: Self) {
        GroupContext {
            group_id: copy_bytes(&self.group_id),
            protocol_version: self.protocol_version,
            cipher_suite: self.cipher_suite,
            epoch: self.epoch,
            tree_hash: copy_bytes(&self.tree_hash),
            confirmed_transcript_hash: copy_bytes(&self.confirmed_transcript_hash),
            extensions: self.extensions.dup(),
        }
    }

    fn encode(&self, out: &mut Vec<u8>) {
        enc_bytes(out, &self.group_id);
        enc_u16(out, self.protocol_version);
        enc_u16(out, self.cipher_suite);
        enc_u64(out, self.epoch);
        enc_bytes(out, &self.tree_hash);
        enc_bytes(out, &self.confirmed_transcript_hash);
        self.extensions.encode(out);
        proof {
            assert(out@ =~= old(out)@ + Self::spec_enc(self@));
        }
    }

    fn decode(s: &Vec<u8>, i: usize) -> (r: Option<(Self, usize)>) {
        match dec_bytes(s, i) {
            Some((group_id, i1)) => match dec_u16(s, i1) {
                Some((protocol_version, i2)) => match dec_u16(s, i2) {
                    Some((cipher_suite, i3)) => match dec_u64(s, i3) {
                        Some((epoch, i4)) => match dec_bytes(s, i4) {
                            Some((tree_hash, i5)) => match dec_bytes(s, i5) {
                                Some((confirmed_transcript_hash, i6)) => match ExtensionList::decode(
                                    s,
                                    i6,
                                ) {
                                    Some((extensions, i7)) => Some(
                                        (
                                            GroupContext {
                                                group_id,
                                                protocol_version,
                                                cipher_suite,
                                                epoch,
                                                tree_hash,
                                                confirmed_transcript_hash,
                                                extensions,
                                            },
                                            i7,
                                        ),
                                    ),
                                    None => None,
                                },
                                None => None,
                            },
                            None => None,
                        },
                        None => None,
                    },
                    None => None,
                },
                None => None,
            },
            None => None,
        }
    }
}

// ---------------------------------------------------------------------------
// Commit.
// ---------------------------------------------------------------------------

/// A batch of proposals to apply, with the committer's update path when one
/// is carried.
#[derive(Clone, Debug, PartialEq, Eq)]
pub struct Commit {
    pub proposals: Vec<ProposalOrRef>,
    pub path: Option<UpdatePath>,
}

pub struct CommitV {
    pub proposals: Seq<ProposalOrRefV>,
    pub path: Option<UpdatePathV>,
}

impl View for Commit {
    type V = CommitV;

    open spec fn view(&self) -> CommitV {
        CommitV {
            proposals: views_of(self.proposals@),
            path: match &self.path {
                Some(p) => Some(p@),
                None => None,
            },
        }
    }
}

impl WireCode for Commit {
    open spec fn spec_enc(m: CommitV) -> Seq<u8> {
        spec_enc_list::<ProposalOrRef>(m.proposals) + spec_enc_opt::<UpdatePath>(m.path)
    }

    open spec fn spec_dec(s: Seq<u8>, i: int) -> Option<(CommitV, int)> {
        match spec_dec_list::<ProposalOrRef>(s, i) {
            Some((props, j)) => match spec_dec_opt::<UpdatePath>(s, j) {
                Some((path, k)) => Some((CommitV { proposals: props, path }, k)),
                None => None,
            },
            None => None,
        }
    }

    open spec fn wire_wf(m: CommitV) -> bool {
        wire_wf_items::<ProposalOrRef>(m.proposals) && wire_wf_opt::<UpdatePath>(m.path)
    }

    proof fn lemma_rt(pre: Seq<u8>, m: CommitV, suf: Seq<u8>) {
        let e1 = spec_enc_list::<ProposalOrRef>(m.proposals);
        let e2 = spec_enc_opt::<UpdatePath>(m.path);
        lemma_split2(pre, e1, e2, suf);
        lemma_rt_list::<ProposalOrRef>(pre, m.proposals, e2 + suf);
        lemma_rt_opt::<UpdatePath>(pre + e1, m.path, suf);
    }

    proof fn lemma_wf(&self) {
        assert(self.proposals.len() == self.proposals@.len());
        assert forall|k: int| 0 <= k < self@.proposals.len() implies ProposalOrRef::wire_wf(
            #[trigger] self@.proposals[k],
        ) by {
            self.proposals@[k].lemma_wf();
        }
        match &self.path {
            Some(p) => p.lemma_wf(),
            None => {},
        }
    }

    fn dup(&self) -> (r: Self) {
        Commit {
            proposals: dup_list::<ProposalOrRef>(&self.proposals),
            path: match &self.path {
                Some(p) => Some(p.dup()),
                None => None,
            },
        }
    }

    fn encode(&self, out: &mut Vec<u8>) {
        encode_list::<ProposalOrRef>(&self.proposals, out);
        encode_opt::<UpdatePath>(&self.path, out);
        proof {
            assert(out@ =~= old(out)@ + Self::spec_enc(self@));
        }
    }

    fn decode(s: &Vec<u8>, i: usize) -> (r: Option<(Self, usize)>) {
        match decode_list::<ProposalOrRef>(s, i) {
            Some((proposals, j)) => match decode_opt::<UpdatePath>(s, j) {
                Some((path, k)) => Some((Commit { proposals, path }, k)),
                None => None,
            },
            None => None,
        }
    }
}

// ---------------------------------------------------------------------------
// GroupInfo.
// ---------------------------------------------------------------------------

/// What an external joiner is handed: the group's context, extensions, the
/// latest confirmation tag, who signed it and the signature.
#[derive(Clone, Debug, PartialEq, Eq)]
pub struct GroupInfo {
    pub group_context: GroupContext,
    pub extensions: ExtensionList,
    pub confirmation_tag: ConfirmationTag,
    pub signer: LeafIndex,
    pub signature: Vec<u8>,
}

pub struct GroupInfoV {
    pub group_context: GroupContextV,
    pub extensions: Seq<ExtensionV>,
    pub confirmation_tag: Seq<u8>,
    pub signer: LeafIndex,
    pub signature: Seq<u8>,
}

impl View for GroupInfo {
    type V = GroupInfoV;

    open spec fn view(&self) -> GroupInfoV {
        GroupInfoV {
            group_context: self.group_context@,
            extensions: self.extensions@,
            confirmation_tag: self.confirmation_tag@,
            signer: self.signer,
            signature: self.signature@,
        }
    }
}

/// The domain-separation label under which group infos are signed.
pub open spec fn group_info_sign_label() -> Seq<u8> {
    seq![71u8, 114, 111, 117, 112, 73, 110, 102, 111, 84, 66, 83]
}

/// The part of a group info that its signature covers: the signing label,
/// then everything but the signature itself.
pub open spec fn spec_group_info_tbs(m: GroupInfoV) -> Seq<u8> {
    group_info_sign_label() + GroupContext::spec_enc(m.group_context) + ExtensionList::spec_enc(
        m.extensions,
    ) + spec_enc_bytes(m.confirmation_tag) + spec_enc_u32(m.signer)
}

impl GroupInfo {
    /// The bytes the signature covers.
    pub fn signable_content(&self) -> (r: Vec<u8>)
        ensures
            r@ == spec_group_info_tbs(self@),
    {
        let mut out: Vec<u8> = Vec::new();
        out.push(71);
        out.push(114);
        out.push(111);
        out.push(117);
        out.push(112);
        out.push(73);
        out.push(110);
        out.push(102);
        out.push(111);
        out.push(84);
        out.push(66);
        out.push(83);
        proof {
            assert(out@ =~= group_info_sign_label());
        }
        self.group_context.encode(&mut out);
        self.extensions.encode(&mut out);
        enc_bytes(&mut out, &self.confirmation_tag.bytes);
        enc_u32(&mut out, self.signer);
        proof {
            assert(out@ =~= spec_group_info_tbs(self@));
        }
        out
    }

    /// The carried signature.
    pub fn signature(&self) -> (r: &Vec<u8>)
        ensures
            r@ == self@.signature,
    {
        &self.signature
    }

    /// Replaces the carried signature.
    pub fn write_signature(&mut self, signature: Vec<u8>)
        ensures
            final(self)@ == (GroupInfoV { signature: signature@, ..old(self)@ }),
    {
        self.signature = signature;
    }
}

impl WireCode for GroupInfo {
    open spec fn spec_enc(m: GroupInfoV) -> Seq<u8> {
        GroupContext::spec_enc(m.group_context) + ExtensionList::spec_enc(m.extensions)
            + spec_enc_bytes(m.confirmation_tag) + spec_enc_u32(m.signer) + spec_enc_bytes(
            m.signature,
        )
    }

    open spec fn spec_dec(s: Seq<u8>, i: int) -> Option<(GroupInfoV, int)> {
        match GroupContext::spec_dec(s, i) {
            Some((gc, i1)) => match ExtensionList::spec_dec(s, i1) {
                Some((exts, i2)) => match spec_dec_bytes(s, i2) {
                    Some((tag, i3)) => match spec_dec_u32(s, i3) {
                        Some((signer, i4)) => match spec_dec_bytes(s, i4) {
                            Some((sig, i5)) => Some(
                                (
                                    GroupInfoV {
                                        group_context: gc,
                                        extensions: exts,
                                        confirmation_tag: tag,
                                        signer,
                                        signature: sig,
                                    },
                                    i5,
                                ),
                            ),
                            None => None,
                        },
                        None => None,
                    },
                    None => None,
                },
                None => None,
            },
            None => None,
        }
    }

    open spec fn wire_wf(m: GroupInfoV) -> bool {
        GroupContext::wire_wf(m.group_context) && ExtensionList::wire_wf(m.extensions)
            && fits_wire_len(m.confirmation_tag.len()) && fits_wire_len(m.signature.len())
    }

    proof fn lemma_rt(pre: Seq<u8>, m: GroupInfoV, suf: Seq<u8>) {
        let e1 = GroupContext::spec_enc(m.group_context);
        let e2 = ExtensionList::spec_enc(m.extensions);
        let e3 = spec_enc_bytes(m.confirmation_tag);
        let e4 = spec_enc_u32(m.signer);
        let e5 = spec_enc_bytes(m.signature);
        lemma_split5(pre, e1, e2, e3, e4, e5, suf);
        GroupContext::lemma_rt(pre, m.group_context, e2 + (e3 + (e4 + (e5 + suf))));
        ExtensionList::lemma_rt(pre + e1, m.extensions, e3 + (e4 + (e5 + suf)));
        lemma_rt_bytes(pre + e1 + e2, m.confirmation_tag, e4 + (e5 + suf));
        lemma_rt_u32(pre + e1 + e2 + e3, m.signer, e5 + suf);
        lemma_rt_bytes(pre + e1 + e2 + e3 + e4, m.signature, suf);
    }

    proof fn lemma_wf(&self) {
        self.group_context.lemma_wf();
        self.extensions.lemma_wf();
        crate::codec::lemma_vec_fits(&self.confirmation_tag.bytes);
        crate::codec::lemma_vec_fits(&self.signature);
    }

    fn dup(&self) -> (r: Self) {
        GroupInfo {
            group_context: self.group_context.dup(),
            extensions: self.extensions.dup(),
            confirmation_tag: ConfirmationTag { bytes: copy_bytes(&self.confirmation_tag.bytes) },
            signer: self.signer,
            signature: copy_bytes(&self.signature),
        }
    }

    fn encode(&self, out: &mut Vec<u8>) {
        self.group_context.encode(out);
        self.extensions.encode(out);
        enc_bytes(out, &self.confirmation_tag.bytes);
        enc_u32(out, self.signer);
        enc_bytes(out, &self.signature);
        proof {
            assert(out@ =~= old(out)@ + Self::spec_enc(self@));
        }
    }

    fn decode(s: &Vec<u8>, i: usize) -> (r: Option<(Self, usize)>) {
        match GroupContext::decode(s, i) {
            Some((group_context, i1)) => match ExtensionList::decode(s, i1) {
                Some((extensions, i2)) => match dec_bytes(s, i2) {
                    Some((tag_bytes, i3)) => match dec_u32(s, i3) {
                        Some((signer, i4)) => match dec_bytes(s, i4) {
                            Some((signature, i5)) => Some(
                                (
                                    GroupInfo {
                                        group_context,
                                        extensions,
                                        confirmation_tag: ConfirmationTag { bytes: tag_bytes },
                                        signer,
                                        signature,
                                    },
                                    i5,
                                ),
                            ),
                            None => None,
                        },
                        None => None,
                    },
                    None => None,
                },
                None => None,
            },
            None => None,
        }
    }
}

// ---------------------------------------------------------------------------
// Welcome.
// ---------------------------------------------------------------------------

/// The secrets a committed joiner needs, sealed to its key package.
#[derive(Clone, Debug, PartialEq, Eq)]
pub struct EncryptedGroupSecrets {
    pub new_member: HashReference,
    pub encrypted_group_secrets: HpkeCiphertext,
}

pub struct EncryptedGroupSecretsV {
    pub new_member: Seq<u8>,
    pub encrypted_group_secrets: HpkeCiphertextV,
}

impl View for EncryptedGroupSecrets {
    type V = EncryptedGroupSecretsV;

    open spec fn view(&self) -> EncryptedGroupSecretsV {
        EncryptedGroupSecretsV {
            new_member: self.new_member@,
            encrypted_group_secrets: self.encrypted_group_secrets@,
        }
    }
}

impl WireCode for EncryptedGroupSecrets {
    open spec fn spec_enc(m: EncryptedGroupSecretsV) -> Seq<u8> {
        spec_enc_bytes(m.new_member) + HpkeCiphertext::spec_enc(m.encrypted_group_secrets)
    }

    open spec fn spec_dec(s: Seq<u8>, i: int) -> Option<(EncryptedGroupSecretsV, int)> {
        match spec_dec_bytes(s, i) {
            Some((nm, j)) => match HpkeCiphertext::spec_dec(s, j) {
                Some((ct, k)) => Some(
                    (EncryptedGroupSecretsV { new_member: nm, encrypted_group_secrets: ct }, k),
                ),
                None => None,
            },
            None => None,
        }
    }

    open spec fn wire_wf(m: EncryptedGroupSecretsV) -> bool {
        fits_wire_len(m.new_member.len()) && HpkeCiphertext::wire_wf(m.encrypted_group_secrets)
    }

    proof fn lemma_rt(pre: Seq<u8>, m: EncryptedGroupSecretsV, suf: Seq<u8>) {
        let e1 = spec_enc_bytes(m.new_member);
        let e2 = HpkeCiphertext::spec_enc(m.encrypted_group_secrets);
        lemma_split2(pre, e1, e2, suf);
        lemma_rt_bytes(pre, m.new_member, e2 + suf);
        HpkeCiphertext::lemma_rt(pre + e1, m.encrypted_group_secrets, suf);
    }

    proof fn lemma_wf(&self) {
        self.new_member.lemma_wf();
        self.encrypted_group_secrets.lemma_wf();
    }

    fn dup(&self) -> (r: Self) {
        EncryptedGroupSecrets {
            new_member: self.new_member.dup(),
            encrypted_group_secrets: self.encrypted_group_secrets.dup(),
        }
    }

    fn encode(&self, out: &mut Vec<u8>) {
        enc_bytes(out, &self.new_member.bytes);
        self.encrypted_group_secrets.encode(out);
        proof {
            assert(out@ =~= old(out)@ + Self::spec_enc(self@));
        }
    }

    fn decode(s: &Vec<u8>, i: usize) -> (r: Option<(Self, usize)>) {
        match dec_bytes(s, i) {
            Some((bytes, j)) => match HpkeCiphertext::decode(s, j) {
                Some((encrypted_group_secrets, k)) => Some(
                    (
                        EncryptedGroupSecrets {
                            new_member: HashReference { bytes },
                            encrypted_group_secrets,
                        },
                        k,
                    ),
                ),
                None => None,
            },
            None => None,
        }
    }
}

/// The secrets a joiner derives its epoch from, as carried inside a welcome.
#[derive(Clone, Debug, PartialEq, Eq)]
pub struct GroupSecrets {
    pub joiner_secret: Vec<u8>,
    pub path_secret: Option<Vec<u8>>,
    pub psks: Vec<PreSharedKeyID>,
}

pub struct GroupSecretsV {
    pub joiner_secret: Seq<u8>,
    pub path_secret: Option<Seq<u8>>,
    pub psks: Seq<PreSharedKeyIDV>,
}

impl View for GroupSecrets {
    type V = GroupSecretsV;

    open spec fn view(&self) -> GroupSecretsV {
        GroupSecretsV {
            joiner_secret: self.joiner_secret@,
            path_secret: match &self.path_secret {
                Some(p) => Some(p@),
                None => None,
            },
            psks: views_of(self.psks@),
        }
    }
}

impl WireCode for GroupSecrets {
    open spec fn spec_enc(m: GroupSecretsV) -> Seq<u8> {
        spec_enc_bytes(m.joiner_secret) + spec_enc_opt::<Vec<u8>>(m.path_secret)
            + spec_enc_list::<PreSharedKeyID>(m.psks)
    }

    open spec fn spec_dec(s: Seq<u8>, i: int) -> Option<(GroupSecretsV, int)> {
        match spec_dec_bytes(s, i) {
            Some((js, i1)) => match spec_dec_opt::<Vec<u8>>(s, i1) {
                Some((ps, i2)) => match spec_dec_list::<PreSharedKeyID>(s, i2) {
                    Some((psks, i3)) => Some(
                        (GroupSecretsV { joiner_secret: js, path_secret: ps, psks }, i3),
                    ),
                    None => None,
                },
                None => None,
            },
            None => None,
        }
    }

    open spec fn wire_wf(m: GroupSecretsV) -> bool {
        fits_wire_len(m.joiner_secret.len()) && wire_wf_opt::<Vec<u8>>(m.path_secret)
            && wire_wf_items::<PreSharedKeyID>(m.psks)
    }

    proof fn lemma_rt(pre: Seq<u8>, m: GroupSecretsV, suf: Seq<u8>) {
        let e1 = spec_enc_bytes(m.joiner_secret);
        let e2 = spec_enc_opt::<Vec<u8>>(m.path_secret);
        let e3 = spec_enc_list::<PreSharedKeyID>(m.psks);
        lemma_split3(pre, e1, e2, e3, suf);
        lemma_rt_bytes(pre, m.joiner_secret, e2 + (e3 + suf));
        lemma_rt_opt::<Vec<u8>>(pre + e1, m.path_secret, e3 + suf);
        lemma_rt_list::<PreSharedKeyID>(pre + e1 + e2, m.psks, suf);
    }

    proof fn lemma_wf(&self) {
        crate::codec::lemma_vec_fits(&self.joiner_secret);
        match &self.path_secret {
            Some(p) => {
                assert(p.len() == p@.len());
            },
            None => {},
        }
        assert(self.psks.len() == self.psks@.len());
        assert forall|k: int| 0 <= k < self@.psks.len() implies PreSharedKeyID::wire_wf(
            #[trigger] self@.psks[k],
        ) by {
            self.psks@[k].lemma_wf();
        }
    }

    fn dup(&self) -> (r: Self) {
        GroupSecrets {
            joiner_secret: copy_bytes(&self.joiner_secret),
            path_secret: match &self.path_secret {
                Some(p) => Some(copy_bytes(p)),
                None => None,
            },
            psks: dup_list::<PreSharedKeyID>(&self.psks),
        }
    }

    fn encode(&self, out: &mut Vec<u8>) {
        enc_bytes(out, &self.joiner_secret);
        encode_opt::<Vec<u8>>(&self.path_secret, out);
        encode_list::<PreSharedKeyID>(&self.psks, out);
        proof {
            assert(out@ =~= old(out)@ + Self::spec_enc(self@));
        }
    }

    fn decode(s: &Vec<u8>, i: usize) -> (r: Option<(Self, usize)>) {
        match dec_bytes(s, i) {
            Some((joiner_secret, i1)) => match decode_opt::<Vec<u8>>(s, i1) {
                Some((path_secret, i2)) => match decode_list::<PreSharedKeyID>(s, i2) {
                    Some((psks, i3)) => Some(
                        (GroupSecrets { joiner_secret, path_secret, psks }, i3),
                    ),
                    None => None,
                },
                None => None,
            },
            None => None,
        }
    }
}

/// What new members receive: sealed group secrets and the sealed group info.
#[derive(Clone, Debug, PartialEq, Eq)]
pub struct Welcome {
    pub cipher_suite: u16,
    pub secrets: Vec<EncryptedGroupSecrets>,
    pub encrypted_group_info: Vec<u8>,
}

pub struct WelcomeV {
    pub cipher_suite: u16,
    pub secrets: Seq<EncryptedGroupSecretsV>,
    pub encrypted_group_info: Seq<u8>,
}

impl View for Welcome {
    type V = WelcomeV;

    open spec fn view(&self) -> WelcomeV {
        WelcomeV {
            cipher_suite: self.cipher_suite,
            secrets: views_of(self.secrets@),
            encrypted_group_info: self.encrypted_group_info@,
        }
    }
}

impl WireCode for Welcome {
    open spec fn spec_enc(m: WelcomeV) -> Seq<u8> {
        spec_enc_u16(m.cipher_suite) + spec_enc_list::<EncryptedGroupSecrets>(m.secrets)
            + spec_enc_bytes(m.encrypted_group_info)
    }

    open spec fn spec_dec(s: Seq<u8>, i: int) -> Option<(WelcomeV, int)> {
        match spec_dec_u16(s, i) {
            Some((cs, i1)) => match spec_dec_list::<EncryptedGroupSecrets>(s, i1) {
                Some((secrets, i2)) => match spec_dec_bytes(s, i2) {
                    Some((egi, i3)) => Some(
                        (
                            WelcomeV {
                                cipher_suite: cs,
                                secrets,
                                encrypted_group_info: egi,
                            },
                            i3,
                        ),
                    ),
                    None => None,
                },
                None => None,
            },
            None => None,
        }
    }

    open spec fn wire_wf(m: WelcomeV) -> bool {
        wire_wf_items::<EncryptedGroupSecrets>(m.secrets) && fits_wire_len(
            m.encrypted_group_info.len(),
        )
    }

    proof fn lemma_rt(pre: Seq<u8>, m: WelcomeV, suf: Seq<u8>) {
        let e1 = spec_enc_u16(m.cipher_suite);
        let e2 = spec_enc_list::<EncryptedGroupSecrets>(m.secrets);
        let e3 = spec_enc_bytes(m.encrypted_group_info);
        lemma_split3(pre, e1, e2, e3, suf);
        lemma_rt_u16(pre, m.cipher_suite, e2 + (e3 + suf));
        lemma_rt_list::<EncryptedGroupSecrets>(pre + e1, m.secrets, e3 + suf);
        lemma_rt_bytes(pre + e1 + e2, m.encrypted_group_info, suf);
    }

    proof fn lemma_wf(&self) {
        assert(self.secrets.len() == self.secrets@.len());
        assert forall|k: int| 0 <= k < self@.secrets.len() implies EncryptedGroupSecrets::wire_wf(
            #[trigger] self@.secrets[k],
        ) by {
            self.secrets@[k].lemma_wf();
        }
        crate::codec::lemma_vec_fits(&self.encrypted_group_info);
    }

    fn dup(&self) -> (r: Self) {
        Welcome {
            cipher_suite: self.cipher_suite,
            secrets: dup_list::<EncryptedGroupSecrets>(&self.secrets),
            encrypted_group_info: copy_bytes(&self.encrypted_group_info),
        }
    }

    fn encode(&self, out: &mut Vec<u8>) {
        enc_u16(out, self.cipher_suite);
        encode_list::<EncryptedGroupSecrets>(&self.secrets, out);
        enc_bytes(out, &self.encrypted_group_info);
        proof {
            assert(out@ =~= old(out)@ + Self::spec_enc(self@));
        }
    }

    fn decode(s: &Vec<u8>, i: usize) -> (r: Option<(Self, usize)>) {
        match dec_u16(s, i) {
            Some((cipher_suite, i1)) => match decode_list::<EncryptedGroupSecrets>(s, i1) {
                Some((secrets, i2)) => match dec_bytes(s, i2) {
                    Some((encrypted_group_info, i3)) => Some(
                        (Welcome { cipher_suite, secrets, encrypted_group_info }, i3),
                    ),
                    None => None,
                },
                None => None,
            },
            None => None,
        }
    }
}

} // verus!
