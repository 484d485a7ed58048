use vstd::prelude::*;

use crate::codec::{
    copy_bytes, dec_bytes, dec_u16, dec_u32, dec_u64, dec_u8, decode_opt, enc_bytes, enc_u16,
    enc_u32, enc_u64, enc_u8, encode_opt, fits_wire_len, lemma_rt_bytes, lemma_rt_opt,
    lemma_rt_tag8, lemma_rt_u16, lemma_rt_u32, lemma_rt_u64, lemma_rt_u8, lemma_split4,
    lemma_split6, spec_dec_bytes, spec_dec_opt, spec_dec_u16, spec_dec_u32, spec_dec_u64,
    spec_dec_u8, spec_enc_bytes, spec_enc_opt, spec_enc_u16, spec_enc_u32, spec_enc_u64,
    spec_enc_u8, wire_wf_opt, WireCode,
};
use crate::framing::{Commit, CommitV, FramingError, GroupInfo, GroupInfoV, Welcome, WelcomeV};
use crate::key_package::{KeyPackage, KeyPackageV};
use crate::proposal::{LeafIndex, Proposal, ProposalV};
use crate::transcript::ConfirmationTag;

verus! {

// Message framing: one envelope for everything a group sends, with
// authenticated plaintext and encrypted content told apart by their kind.

/// The identifier of a framed content kind.
#[derive(Clone, Copy, Debug, PartialEq, Eq, Structural)]
pub enum ContentType {
    Application,
    Proposal,
    Commit,
}

impl ContentType {
    pub open spec fn spec_raw(self) -> u8 {
        match self {
            ContentType::Application => 1,
            ContentType::Proposal => 2,
            ContentType::Commit => 3,
        }
    }

    pub fn raw(self) -> (r: u8)
        ensures
            r == self.spec_raw(),
    {
        match self {
            ContentType::Application => 1,
            ContentType::Proposal => 2,
            ContentType::Commit => 3,
        }
    }
}

/// What an authenticated plaintext carries.
#[derive(Clone, Debug, PartialEq, Eq)]
pub enum Content {
    Application(Vec<u8>),
    Proposal(Proposal),
    Commit(Commit),
}

pub enum ContentV {
    Application(Seq<u8>),
    Proposal(ProposalV),
    Commit(CommitV),
}

impl View for Content {
    type V = ContentV;

    open spec fn view(&self) -> ContentV {
        match self {
            Content::Application(a) => ContentV::Application(a@),
            Content::Proposal(p) => ContentV::Proposal(p@),
            Content::Commit(c) => ContentV::Commit(c@),
        }
    }
}

impl Content {
    /// The kind of this content.
    pub fn content_type(&self) -> (r: ContentType)
        ensures
            r == (match self@ {
                ContentV::Application(_) => ContentType::Application,
                ContentV::Proposal(_) => ContentType::Proposal,
                ContentV::Commit(_) => ContentType::Commit,
            }),
    {
        match self {
            Content::Application(_) => ContentType::Application,
            Content::Proposal(_) => ContentType::Proposal,
            Content::Commit(_) => ContentType::Commit,
        }
    }
}

proof fn lemma_rt_content_application(pre: Seq<u8>, a: Seq<u8>, suf: Seq<u8>)
    requires
        fits_wire_len(a.len()),
    ensures
        ({
            let m = ContentV::Application(a);
            Content::spec_dec(pre + Content::spec_enc(m) + suf, pre.len() as int) == Some(
                (m, (pre.len() + Content::spec_enc(m).len()) as int),
            )
        }),
{
    let m = ContentV::Application(a);
    let payload = spec_enc_bytes(a);
    let tag = spec_enc_u8(1);
    let s = pre + (tag + payload) + suf;
    lemma_rt_tag8::<Vec<u8>>(pre, 1, a, suf);
    assert(Content::spec_enc(m) == tag + payload);
    assert(Content::spec_dec(s, pre.len() as int) == Some(
        (m, (pre.len() + tag.len() + payload.len()) as int),
    ));
}

proof fn lemma_rt_content_proposal(pre: Seq<u8>, p: ProposalV, suf: Seq<u8>)
    requires
        Proposal::wire_wf(p),
    ensures
        ({
            let m = ContentV::Proposal(p);
            Content::spec_dec(pre + Content::spec_enc(m) + suf, pre.len() as int) == Some(
                (m, (pre.len() + Content::spec_enc(m).len()) as int),
            )
        }),
{
    let m = ContentV::Proposal(p);
    let payload = Proposal::spec_enc(p);
    let tag = spec_enc_u8(2);
    let s = pre + (tag + payload) + suf;
    lemma_rt_tag8::<Proposal>(pre, 2, p, suf);
    assert(Content::spec_enc(m) == tag + payload);
    assert(Content::spec_dec(s, pre.len() as int) == Some(
        (m, (pre.len() + tag.len() + payload.len()) as int),
    ));
}

proof fn lemma_rt_content_commit(pre: Seq<u8>, c: CommitV, suf: Seq<u8>)
    requires
        Commit::wire_wf(c),
    ensures
        ({
            let m = ContentV::Commit(c);
            Content::spec_dec(pre + Content::spec_enc(m) + suf, pre.len() as int) == Some(
                (m, (pre.len() + Content::spec_enc(m).len()) as int),
            )
        }),
{
    let m = ContentV::Commit(c);
    let payload = Commit::spec_enc(c);
    let tag = spec_enc_u8(3);
    let s = pre + (tag + payload) + suf;
    lemma_rt_tag8::<Commit>(pre, 3, c, suf);
    assert(Content::spec_enc(m) == tag + payload);
    assert(Content::spec_dec(s, pre.len() as int) == Some(
        (m, (pre.len() + tag.len() + payload.len()) as int),
    ));
}

impl WireCode for Content {
    open spec fn spec_enc(m: ContentV) -> Seq<u8> {
        match m {
            ContentV::Application(a) => spec_enc_u8(1) + spec_enc_bytes(a),
            ContentV::Proposal(p) => spec_enc_u8(2) + Proposal::spec_enc(p),
            ContentV::Commit(c) => spec_enc_u8(3) + Commit::spec_enc(c),
        }
    }

    open spec fn spec_dec(s: Seq<u8>, i: int) -> Option<(ContentV, int)> {
        match spec_dec_u8(s, i) {
            Some((d, j)) => if d == 1 {
                match spec_dec_bytes(s, j) {
                    Some((a, k)) => Some((ContentV::Application(a), k)),
                    None => None,
                }
            } else if d == 2 {
                match Proposal::spec_dec(s, j) {
                    Some((p, k)) => Some((ContentV::Proposal(p), k)),
                    None => None,
                }
            } else if d == 3 {
                match Commit::spec_dec(s, j) {
                    Some((c, k)) => Some((ContentV::Commit(c), k)),
                    None => None,
                }
            } else {
                None
            },
            None => None,
        }
    }

    open spec fn wire_wf(m: ContentV) -> bool {
        match m {
            ContentV::Application(a) => fits_wire_len(a.len()),
            ContentV::Proposal(p) => Proposal::wire_wf(p),
            ContentV::Commit(c) => Commit::wire_wf(c),
        }
    }

    proof fn lemma_rt(pre: Seq<u8>, m: ContentV, suf: Seq<u8>) {
        match m {
            ContentV::Application(a) => lemma_rt_content_application(pre, a, suf),
            ContentV::Proposal(p) => lemma_rt_content_proposal(pre, p, suf),
            ContentV::Commit(c) => lemma_rt_content_commit(pre, c, suf),
        }
    }

    proof fn lemma_wf(&self) {
        match self {
            Content::Application(a) => crate::codec::lemma_vec_fits(a),
            Content::Proposal(p) => p.lemma_wf(),
            Content::Commit(c) => c.lemma_wf(),
        }
    }

    fn dup(&self) -> (r: Self) {
        match self {
            Content::Application(a) => Content::Application(copy_bytes(a)),
            Content::Proposal(p) => Content::Proposal(p.dup()),
            Content::Commit(c) => Content::Commit(c.dup()),
        }
    }

    fn encode(&self, out: &mut Vec<u8>) {
        match self {
            Content::Application(a) => {
                enc_u8(out, 1);
                enc_bytes(out, a);
                proof {
                    assert(out@ =~= old(out)@ + Self::spec_enc(self@));
                }
            },
            Content::Proposal(p) => {
                enc_u8(out, 2);
                p.encode(out);
                proof {
                    assert(out@ =~= old(out)@ + Self::spec_enc(self@));
                }
            },
            Content::Commit(c) => {
                enc_u8(out, 3);
                c.encode(out);
                proof {
                    assert(out@ =~= old(out)@ + Self::spec_enc(self@));
                }
            },
        }
    }

    fn decode(s: &Vec<u8>, i: usize) -> (r: Option<(Self, usize)>) {
        match dec_u8(s, i) {
            Some((d, j)) => {
                if d == 1 {
                    match dec_bytes(s, j) {
                        Some((a, k)) => Some((Content::Application(a), k)),
                        None => None,
                    }
                } else if d == 2 {
                    match Proposal::decode(s, j) {
                        Some((p, k)) => Some((Content::Proposal(p), k)),
                        None => None,
                    }
                } else if d == 3 {
                    match Commit::decode(s, j) {
                        Some((c, k)) => Some((Content::Commit(c), k)),
                        None => None,
                    }
                } else {
                    None
                }
            },
            None => None,
        }
    }
}

/// An authenticated plaintext: who said what in which epoch, signed, with
/// the confirmation tag when the content is a commit.
#[derive(Clone, Debug, PartialEq, Eq)]
pub struct PublicMessage {
    pub group_id: Vec<u8>,
    pub epoch: u64,
    pub sender: LeafIndex,
    pub content: Content,
    pub signature: Vec<u8>,
    pub confirmation_tag: Option<ConfirmationTag>,
}

pub struct PublicMessageV {
    pub group_id: Seq<u8>,
    pub epoch: u64,
    pub sender: LeafIndex,
    pub content: ContentV,
    pub signature: Seq<u8>,
    pub confirmation_tag: Option<Seq<u8>>,
}

impl View for PublicMessage {
    type V = PublicMessageV;

    open spec fn view(&self) -> PublicMessageV {
        PublicMessageV {
            group_id: self.group_id@,
            epoch: self.epoch,
            sender: self.sender,
            content: self.content@,
            signature: self.signature@,
            confirmation_tag: match &self.confirmation_tag {
                Some(t) => Some(t@),
                None => None,
            },
        }
    }
}

impl WireCode for PublicMessage {
    open spec fn spec_enc(m: PublicMessageV) -> Seq<u8> {
        spec_enc_bytes(m.group_id) + spec_enc_u64(m.epoch) + spec_enc_u32(m.sender)
            + Content::spec_enc(m.content) + spec_enc_bytes(m.signature) + spec_enc_opt::<
            ConfirmationTag,
        >(m.confirmation_tag)
    }

    open spec fn spec_dec(s: Seq<u8>, i: int) -> Option<(PublicMessageV, int)> {
        match spec_dec_bytes(s, i) {
            Some((gid, i1)) => match spec_dec_u64(s, i1) {
                Some((epoch, i2)) => match spec_dec_u32(s, i2) {
                    Some((sender, i3)) => match Content::spec_dec(s, i3) {
                        Some((content, i4)) => match spec_dec_bytes(s, i4) {
                            Some((sig, i5)) => match spec_dec_opt::<ConfirmationTag>(s, i5) {
                                Some((tag, i6)) => Some(
                                    (
                                        PublicMessageV {
                                            group_id: gid,
                                            epoch,
                                            sender,
                                            content,
                                            signature: sig,
                                            confirmation_tag: tag,
                                        },
                                        i6,
                                    ),
                                ),
                                None => None,
                            },
                            None => None,
                        },
                        None => None,
                    },
                    None => None,
                },
                None => None,
            },
            None => None,
        }
    }

    open spec fn wire_wf(m: PublicMessageV) -> bool {
        fits_wire_len(m.group_id.len()) && Content::wire_wf(m.content) && fits_wire_len(
            m.signature.len(),
        ) && wire_wf_opt::<ConfirmationTag>(m.confirmation_tag)
    }

    proof fn lemma_rt(pre: Seq<u8>, m: PublicMessageV, suf: Seq<u8>) {
        let e1 = spec_enc_bytes(m.group_id);
        let e2 = spec_enc_u64(m.epoch);
        let e3 = spec_enc_u32(m.sender);
        let e4 = Content::spec_enc(m.content);
        let e5 = spec_enc_bytes(m.signature);
        let e6 = spec_enc_opt::<ConfirmationTag>(m.confirmation_tag);
        lemma_split6(pre, e1, e2, e3, e4, e5, e6, suf);
        lemma_rt_bytes(pre, m.group_id, e2 + (e3 + (e4 + (e5 + (e6 + suf)))));
        lemma_rt_u64(pre + e1, m.epoch, e3 + (e4 + (e5 + (e6 + suf))));
        lemma_rt_u32(pre + e1 + e2, m.sender, e4 + (e5 + (e6 + suf)));
        Content::lemma_rt(pre + e1 + e2 + e3, m.content, e5 + (e6 + suf));
        lemma_rt_bytes(pre + e1 + e2 + e3 + e4, m.signature, e6 + suf);
        lemma_rt_opt::<ConfirmationTag>(pre + e1 + e2 + e3 + e4 + e5, m.confirmation_tag, suf);
    }

    proof fn lemma_wf(&self) {
        crate::codec::lemma_vec_fits(&self.group_id);
        self.content.lemma_wf();
        crate::codec::lemma_vec_fits(&self.signature);
        match &self.confirmation_tag {
            Some(t) => t.lemma_wf(),
            None => {},
        }
    }

    fn dup(&self) -> (r: Self) {
        PublicMessage {
            group_id: copy_bytes(&self.group_id),
            epoch: self.epoch,
            sender: self.sender,
            content: self.content.dup(),
            signature: copy_bytes(&self.signature),
            confirmation_tag: match &self.confirmation_tag {
                Some(t) => Some(t.dup()),
                None => None,
            },
        }
    }

    fn encode(&self, out: &mut Vec<u8>) {
        enc_bytes(out, &self.group_id);
        enc_u64(out, self.epoch);
        enc_u32(out, self.sender);
        self.content.encode(out);
        enc_bytes(out, &self.signature);
        encode_opt::<ConfirmationTag>(&self.confirmation_tag, out);
        proof {
            assert(out@ =~= old(out)@ + Self::spec_enc(self@));
        }
    }

    fn decode(s: &Vec<u8>, i: usize) -> (r: Option<(Self, usize)>) {
        match dec_bytes(s, i) {
            Some((group_id, i1)) => match dec_u64(s, i1) {
                Some((epoch, i2)) => match dec_u32(s, i2) {
                    Some((sender, i3)) => match Content::decode(s, i3) {
                        Some((content, i4)) => match dec_bytes(s, i4) {
                            Some((signature, i5)) => match decode_opt::<ConfirmationTag>(s, i5) {
                                Some((confirmation_tag, i6)) => Some(
                                    (
                                        PublicMessage {
                                            group_id,
                                            epoch,
                                            sender,
                                            content,
                                            signature,
                                            confirmation_tag,
                                        },
                                        i6,
                                    ),
                                ),
                                None => None,
                            },
                            None => None,
                        },
                        None => None,
                    },
                    None => None,
                },
                None => None,
            },
            None => None,
        }
    }
}

/// Encrypted content: only the framing that routes it is in the clear.
#[derive(Clone, Debug, PartialEq, Eq)]
pub struct PrivateMessage {
    pub group_id: Vec<u8>,
    pub epoch: u64,
    pub content_type: u8,
    pub ciphertext: Vec<u8>,
}

pub struct PrivateMessageV {
    pub group_id: Seq<u8>,
    pub epoch: u64,
    pub content_type: u8,
    pub ciphertext: Seq<u8>,
}

impl View for PrivateMessage {
    type V = PrivateMessageV;

    open spec fn view(&self) -> PrivateMessageV {
        PrivateMessageV {
            group_id: self.group_id@,
            epoch: self.epoch,
            content_type: self.content_type,
            ciphertext: self.ciphertext@,
        }
    }
}

impl WireCode for PrivateMessage {
    open spec fn spec_enc(m: PrivateMessageV) -> Seq<u8> {
        spec_enc_bytes(m.group_id) + spec_enc_u64(m.epoch) + spec_enc_u8(m.content_type)
            + spec_enc_bytes(m.ciphertext)
    }

    open spec fn spec_dec(s: Seq<u8>, i: int) -> Option<(PrivateMessageV, int)> {
        match spec_dec_bytes(s, i) {
            Some((gid, i1)) => match spec_dec_u64(s, i1) {
                Some((epoch, i2)) => match spec_dec_u8(s, i2) {
                    Some((ct, i3)) => match spec_dec_bytes(s, i3) {
                        Some((cip, i4)) => Some(
                            (
                                PrivateMessageV {
                                    group_id: gid,
                                    epoch,
                                    content_type: ct,
                                    ciphertext: cip,
                                },
                                i4,
                            ),
                        ),
                        None => None,
                    },
                    None => None,
                },
                None => None,
            },
            None => None,
        }
    }

    open spec fn wire_wf(m: PrivateMessageV) -> bool {
        fits_wire_len(m.group_id.len()) && fits_wire_len(m.ciphertext.len())
    }

    proof fn lemma_rt(pre: Seq<u8>, m: PrivateMessageV, suf: Seq<u8>) {
        let e1 = spec_enc_bytes(m.group_id);
        let e2 = spec_enc_u64(m.epoch);
        let e3 = spec_enc_u8(m.content_type);
        let e4 = spec_enc_bytes(m.ciphertext);
        lemma_split4(pre, e1, e2, e3, e4, suf);
        lemma_rt_bytes(pre, m.group_id, e2 + (e3 + (e4 + suf)));
        lemma_rt_u64(pre + e1, m.epoch, e3 + (e4 + suf));
        lemma_rt_u8(pre + e1 + e2, m.content_type, e4 + suf);
        lemma_rt_bytes(pre + e1 + e2 + e3, m.ciphertext, suf);
    }

    proof fn lemma_wf(&self) {
        crate::codec::lemma_vec_fits(&self.group_id);
        crate::codec::lemma_vec_fits(&self.ciphertext);
    }

    fn dup(&self) -> (r: Self) {
        PrivateMessage {
            group_id: copy_bytes(&self.group_id),
            epoch: self.epoch,
            content_type: self.content_type,
            ciphertext: copy_bytes(&self.ciphertext),
        }
    }

    fn encode(&self, out: &mut Vec<u8>) {
        enc_bytes(out, &self.group_id);
        enc_u64(out, self.epoch);
        enc_u8(out, self.content_type);
        enc_bytes(out, &self.ciphertext);
        proof {
            assert(out@ =~= old(out)@ + Self::spec_enc(self@));
        }
    }

    fn decode(s: &Vec<u8>, i: usize) -> (r: Option<(Self, usize)>) {
        match dec_bytes(s, i) {
            Some((group_id, i1)) => match dec_u64(s, i1) {
                Some((epoch, i2)) => match dec_u8(s, i2) {
                    Some((content_type, i3)) => match dec_bytes(s, i3) {
                        Some((ciphertext, i4)) => Some(
                            (PrivateMessage { group_id, epoch, content_type, ciphertext }, i4),
                        ),
                        None => None,
                    },
                    None => None,
                },
                None => None,
            },
            None => None,
        }
    }
}

/// Everything a group puts on the wire, under one version-prefixed envelope.
#[derive(Clone, Debug, PartialEq, Eq)]
pub enum MLSMessagePayload {
    Plain(PublicMessage),
    Cipher(PrivateMessage),
    Welcome(Welcome),
    GroupInfo(GroupInfo),
    KeyPackage(KeyPackage),
}

pub enum MLSMessagePayloadV {
    Plain(PublicMessageV),
    Cipher(PrivateMessageV),
    Welcome(WelcomeV),
    GroupInfo(GroupInfoV),
    KeyPackage(KeyPackageV),
}

impl View for MLSMessagePayload {
    type V = MLSMessagePayloadV;

    open spec fn view(&self) -> MLSMessagePayloadV {
        match self {
            MLSMessagePayload::Plain(p) => MLSMessagePayloadV::Plain(p@),
            MLSMessagePayload::Cipher(c) => MLSMessagePayloadV::Cipher(c@),
            MLSMessagePayload::Welcome(w) => MLSMessagePayloadV::Welcome(w@),
            MLSMessagePayload::GroupInfo(g) => MLSMessagePayloadV::GroupInfo(g@),
            MLSMessagePayload::KeyPackage(k) => MLSMessagePayloadV::KeyPackage(k@),
        }
    }
}

proof fn lemma_rt_payload_case<T: WireCode>(
    pre: Seq<u8>,
    d: u8,
    v: T::V,
    suf: Seq<u8>,
)
    requires
        T::wire_wf(v),
    ensures
        ({
            let s = pre + (spec_enc_u8(d) + T::spec_enc(v)) + suf;
            spec_dec_u8(s, pre.len() as int) == Some(
                (d, (pre.len() + spec_enc_u8(d).len()) as int),
            ) && T::spec_dec(s, (pre.len() + spec_enc_u8(d).len()) as int) == Some(
                (v, (pre.len() + spec_enc_u8(d).len() + T::spec_enc(v).len()) as int),
            )
        }),
{
    lemma_rt_tag8::<T>(pre, d, v, suf);
}

impl WireCode for MLSMessagePayload {
    open spec fn spec_enc(m: MLSMessagePayloadV) -> Seq<u8> {
        match m {
            MLSMessagePayloadV::Plain(p) => spec_enc_u8(1) + PublicMessage::spec_enc(p),
            MLSMessagePayloadV::Cipher(c) => spec_enc_u8(2) + PrivateMessage::spec_enc(c),
            MLSMessagePayloadV::Welcome(w) => spec_enc_u8(3) + Welcome::spec_enc(w),
            MLSMessagePayloadV::GroupInfo(g) => spec_enc_u8(4) + GroupInfo::spec_enc(g),
            MLSMessagePayloadV::KeyPackage(k) => spec_enc_u8(5) + KeyPackage::spec_enc(k),
        }
    }

    open spec fn spec_dec(s: Seq<u8>, i: int) -> Option<(MLSMessagePayloadV, int)> {
        match spec_dec_u8(s, i) {
            Some((d, j)) => if d == 1 {
                match PublicMessage::spec_dec(s, j) {
                    Some((p, k)) => Some((MLSMessagePayloadV::Plain(p), k)),
                    None => None,
                }
            } else if d == 2 {
                match PrivateMessage::spec_dec(s, j) {
                    Some((c, k)) => Some((MLSMessagePayloadV::Cipher(c), k)),
                    None => None,
                }
            } else if d == 3 {
                match Welcome::spec_dec(s, j) {
                    Some((w, k)) => Some((MLSMessagePayloadV::Welcome(w), k)),
                    None => None,
                }
            } else if d == 4 {
                match GroupInfo::spec_dec(s, j) {
                    Some((g, k)) => Some((MLSMessagePayloadV::GroupInfo(g), k)),
                    None => None,
                }
            } else if d == 5 {
                match KeyPackage::spec_dec(s, j) {
                    Some((kp, k)) => Some((MLSMessagePayloadV::KeyPackage(kp), k)),
                    None => None,
                }
            } else {
                None
            },
            None => None,
        }
    }

    open spec fn wire_wf(m: MLSMessagePayloadV) -> bool {
        match m {
            MLSMessagePayloadV::Plain(p) => PublicMessage::wire_wf(p),
            MLSMessagePayloadV::Cipher(c) => PrivateMessage::wire_wf(c),
            MLSMessagePayloadV::Welcome(w) => Welcome::wire_wf(w),
            MLSMessagePayloadV::GroupInfo(g) => GroupInfo::wire_wf(g),
            MLSMessagePayloadV::KeyPackage(k) => KeyPackage::wire_wf(k),
        }
    }

    proof fn lemma_rt(pre: Seq<u8>, m: MLSMessagePayloadV, suf: Seq<u8>) {
        match m {
            MLSMessagePayloadV::Plain(p) => {
                lemma_rt_payload_case::<PublicMessage>(pre, 1, p, suf);
            },
            MLSMessagePayloadV::Cipher(c) => {
                lemma_rt_payload_case::<PrivateMessage>(pre, 2, c, suf);
            },
            MLSMessagePayloadV::Welcome(w) => {
                lemma_rt_payload_case::<Welcome>(pre, 3, w, suf);
            },
            MLSMessagePayloadV::GroupInfo(g) => {
                lemma_rt_payload_case::<GroupInfo>(pre, 4, g, suf);
            },
            MLSMessagePayloadV::KeyPackage(k) => {
                lemma_rt_payload_case::<KeyPackage>(pre, 5, k, suf);
            },
        }
    }

    proof fn lemma_wf(&self) {
        match self {
            MLSMessagePayload::Plain(p) => p.lemma_wf(),
            MLSMessagePayload::Cipher(c) => c.lemma_wf(),
            MLSMessagePayload::Welcome(w) => w.lemma_wf(),
            MLSMessagePayload::GroupInfo(g) => g.lemma_wf(),
            MLSMessagePayload::KeyPackage(k) => k.lemma_wf(),
        }
    }

    fn dup(&self) -> (r: Self) {
        match self {
            MLSMessagePayload::Plain(p) => MLSMessagePayload::Plain(p.dup()),
            MLSMessagePayload::Cipher(c) => MLSMessagePayload::Cipher(c.dup()),
            MLSMessagePayload::Welcome(w) => MLSMessagePayload::Welcome(w.dup()),
            MLSMessagePayload::GroupInfo(g) => MLSMessagePayload::GroupInfo(g.dup()),
            MLSMessagePayload::KeyPackage(k) => MLSMessagePayload::KeyPackage(k.dup()),
        }
    }

    fn encode(&self, out: &mut Vec<u8>) {
        match self {
            MLSMessagePayload::Plain(p) => {
                enc_u8(out, 1);
                p.encode(out);
                proof {
                    assert(out@ =~= old(out)@ + Self::spec_enc(self@));
                }
            },
            MLSMessagePayload::Cipher(c) => {
                enc_u8(out, 2);
                c.encode(out);
                proof {
                    assert(out@ =~= old(out)@ + Self::spec_enc(self@));
                }
            },
            MLSMessagePayload::Welcome(w) => {
                enc_u8(out, 3);
                w.encode(out);
                proof {
                    assert(out@ =~= old(out)@ + Self::spec_enc(self@));
                }
            },
            MLSMessagePayload::GroupInfo(g) => {
                enc_u8(out, 4);
                g.encode(out);
                proof {
                    assert(out@ =~= old(out)@ + Self::spec_enc(self@));
                }
            },
            MLSMessagePayload::KeyPackage(k) => {
                enc_u8(out, 5);
                k.encode(out);
                proof {
                    assert(out@ =~= old(out)@ + Self::spec_enc(self@));
                }
            },
        }
    }

    fn decode(s: &Vec<u8>, i: usize) -> (r: Option<(Self, usize)>) {
        match dec_u8(s, i) {
            Some((d, j)) => {
                if d == 1 {
                    match PublicMessage::decode(s, j) {
                        Some((p, k)) => Some((MLSMessagePayload::Plain(p), k)),
                        None => None,
                    }
                } else if d == 2 {
                    match PrivateMessage::decode(s, j) {
                        Some((c, k)) => Some((MLSMessagePayload::Cipher(c), k)),
                        None => None,
                    }
                } else if d == 3 {
                    match Welcome::decode(s, j) {
                        Some((w, k)) => Some((MLSMessagePayload::Welcome(w), k)),
                        None => None,
                    }
                } else if d == 4 {
                    match GroupInfo::decode(s, j) {
                        Some((g, k)) => Some((MLSMessagePayload::GroupInfo(g), k)),
                        None => None,
                    }
                } else if d == 5 {
                    match KeyPackage::decode(s, j) {
                        Some((kp, k)) => Some((MLSMessagePayload::KeyPackage(kp), k)),
                        None => None,
                    }
                } else {
                    None
                }
            },
            None => None,
        }
    }
}

/// The envelope: a protocol version and one payload.
#[derive(Clone, Debug, PartialEq, Eq)]
pub struct MLSMessage {
    pub version: u16,
    pub payload: MLSMessagePayload,
}

pub struct MLSMessageV {
    pub version: u16,
    pub payload: MLSMessagePayloadV,
}

impl View for MLSMessage {
    type V = MLSMessageV;

    open spec fn view(&self) -> MLSMessageV {
        MLSMessageV { version: self.version, payload: self.payload@ }
    }
}

impl WireCode for MLSMessage {
    open spec fn spec_enc(m: MLSMessageV) -> Seq<u8> {
        spec_enc_u16(m.version) + MLSMessagePayload::spec_enc(m.payload)
    }

    open spec fn spec_dec(s: Seq<u8>, i: int) -> Option<(MLSMessageV, int)> {
        match spec_dec_u16(s, i) {
            Some((v, j)) => match MLSMessagePayload::spec_dec(s, j) {
                Some((p, k)) => Some((MLSMessageV { version: v, payload: p }, k)),
                None => None,
            },
            None => None,
        }
    }

    open spec fn wire_wf(m: MLSMessageV) -> bool {
        MLSMessagePayload::wire_wf(m.payload)
    }

    proof fn lemma_rt(pre: Seq<u8>, m: MLSMessageV, suf: Seq<u8>) {
        let e1 = spec_enc_u16(m.version);
        let e2 = MLSMessagePayload::spec_enc(m.payload);
        crate::codec::lemma_split2(pre, e1, e2, suf);
        lemma_rt_u16(pre, m.version, e2 + suf);
        MLSMessagePayload::lemma_rt(pre + e1, m.payload, suf);
    }

    proof fn lemma_wf(&self) {
        self.payload.lemma_wf();
    }

    fn dup(&self) -> (r: Self) {
        MLSMessage { version: self.version, payload: self.payload.dup() }
    }

    fn encode(&self, out: &mut Vec<u8>) {
        enc_u16(out, self.version);
        self.payload.encode(out);
        proof {
            assert(out@ =~= old(out)@ + Self::spec_enc(self@));
        }
    }

    fn decode(s: &Vec<u8>, i: usize) -> (r: Option<(Self, usize)>) {
        match dec_u16(s, i) {
            Some((version, j)) => match MLSMessagePayload::decode(s, j) {
                Some((payload, k)) => Some((MLSMessage { version, payload }, k)),
                None => None,
            },
            None => None,
        }
    }
}

impl MLSMessage {
    /// The encoded message.
    pub fn to_bytes(&self) -> (r: Vec<u8>)
        ensures
            r@ == Self::spec_enc(self@),
    {
        let mut out: Vec<u8> = Vec::new();
        self.encode(&mut out);
        proof {
            assert(out@ =~= Self::spec_enc(self@));
        }
        out
    }

    /// Decodes one whole message; fails exactly when the bytes are not one
    /// whole encoded message.
    pub fn from_bytes(bytes: &Vec<u8>) -> (r: Result<MLSMessage, FramingError>)
        ensures
            match r {
                Ok(m) => Self::spec_dec(bytes@, 0) == Some((m@, bytes@.len() as int)),
                Err(e) => e == FramingError::Malformed && (Self::spec_dec(bytes@, 0) is None
                    || (Self::spec_dec(bytes@, 0) matches Some((_, j)) && j != bytes@.len())),
            },
    {
        match Self::decode(bytes, 0) {
            Some((m, j)) => {
                if j == bytes.len() {
                    Ok(m)
                } else {
                    Err(FramingError::Malformed)
                }
            },
            None => Err(FramingError::Malformed),
        }
    }

    /// The welcome inside, when the message is one.
    pub fn into_welcome(self) -> (r: Result<Welcome, FramingError>)
        ensures
            match r {
                Ok(w) => self@.payload matches MLSMessagePayloadV::Welcome(wv) && w@ == wv,
                Err(e) => e == FramingError::WrongKind && !(self@.payload is Welcome),
            },
    {
        match self.payload {
            MLSMessagePayload::Welcome(w) => Ok(w),
            _ => Err(FramingError::WrongKind),
        }
    }

    /// The group info inside, when the message is one.
    pub fn into_group_info(self) -> (r: Result<GroupInfo, FramingError>)
        ensures
            match r {
                Ok(g) => self@.payload matches MLSMessagePayloadV::GroupInfo(gv) && g@ == gv,
                Err(e) => e == FramingError::WrongKind && !(self@.payload is GroupInfo),
            },
    {
        match self.payload {
            MLSMessagePayload::GroupInfo(g) => Ok(g),
            _ => Err(FramingError::WrongKind),
        }
    }

    /// The key package inside, when the message is one.
    pub fn into_key_package(self) -> (r: Result<KeyPackage, FramingError>)
        ensures
            match r {
                Ok(k) => self@.payload matches MLSMessagePayloadV::KeyPackage(kv) && k@ == kv,
                Err(e) => e == FramingError::WrongKind && !(self@.payload is KeyPackage),
            },
    {
        match self.payload {
            MLSMessagePayload::KeyPackage(k) => Ok(k),
            _ => Err(FramingError::WrongKind),
        }
    }

    /// The authenticated plaintext inside, when the message is one.
    pub fn into_plaintext(self) -> (r: Result<PublicMessage, FramingError>)
        ensures
            match r {
                Ok(p) => self@.payload matches MLSMessagePayloadV::Plain(pv) && p@ == pv,
                Err(e) => e == FramingError::WrongKind && !(self@.payload is Plain),
            },
    {
        match self.payload {
            MLSMessagePayload::Plain(p) => Ok(p),
            _ => Err(FramingError::WrongKind),
        }
    }

    /// The encrypted message inside, when the message is one.
    pub fn into_ciphertext(self) -> (r: Result<PrivateMessage, FramingError>)
        ensures
            match r {
                Ok(c) => self@.payload matches MLSMessagePayloadV::Cipher(cv) && c@ == cv,
                Err(e) => e == FramingError::WrongKind && !(self@.payload is Cipher),
            },
    {
        match self.payload {
            MLSMessagePayload::Cipher(c) => Ok(c),
            _ => Err(FramingError::WrongKind),
        }
    }
}

} // verus!
