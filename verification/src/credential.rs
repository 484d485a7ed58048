use vstd::prelude::*;

use crate::codec::{
    copy_bytes, dec_bytes, dec_u16, decode_list, dup_list, enc_bytes, enc_u16, encode_list,
    fits_wire_len,
    lemma_rt_bytes, lemma_rt_list, lemma_rt_tag16, lemma_rt_u16, lemma_split3, spec_dec_bytes, spec_dec_list, spec_dec_u16,
    spec_enc_bytes, spec_enc_list, spec_enc_u16, views_of, wire_wf_items, WireCode,
};
use crate::crypto::{ed25519_verify, ed25519_verify_of};

verus! {

/// Why a credential could not be built or used.
#[derive(Clone, Copy, Debug, PartialEq, Eq, Structural)]
pub enum CredentialError {
    /// The key bytes do not have the shape the scheme asks for.
    InvalidKeyBytes,
    /// Keys inside certificate chains are read by an outside X.509 component,
    /// not by this library.
    CertificateError,
}

/// The signature schemes this library supports.
#[derive(Clone, Copy, Debug, PartialEq, Eq, Structural)]
pub enum SignatureScheme {
    Ed25519,
}

impl SignatureScheme {
    /// The wire identifier of the scheme.
    pub open spec fn spec_raw(self) -> u16 {
        2055
    }

    pub fn raw(self) -> (r: u16)
        ensures
            r == self.spec_raw(),
    {
        match self {
            SignatureScheme::Ed25519 => 2055,
        }
    }

    pub fn from_raw(raw: u16) -> (r: Option<SignatureScheme>)
        ensures
            r == if raw == 2055 {
                Some(SignatureScheme::Ed25519)
            } else {
                None::<SignatureScheme>
            },
    {
        if raw == 2055 {
            Some(SignatureScheme::Ed25519)
        } else {
            None
        }
    }

    /// The byte length of the scheme's public keys.
    pub fn public_key_size(self) -> (r: usize)
        ensures
            r == 32,
    {
        32
    }
}

/// A bare identity: opaque identity bytes bound to a raw signature public
/// key under a scheme.
#[derive(Clone, Debug, PartialEq, Eq)]
pub struct BasicCredential {
    pub identity: Vec<u8>,
    pub signature_scheme: SignatureScheme,
    pub signature_key: Vec<u8>,
}

pub struct BasicCredentialV {
    pub identity: Seq<u8>,
    pub signature_scheme: SignatureScheme,
    pub signature_key: Seq<u8>,
}

impl View for BasicCredential {
    type V = BasicCredentialV;

    open spec fn view(&self) -> BasicCredentialV {
        BasicCredentialV {
            identity: self.identity@,
            signature_scheme: self.signature_scheme,
            signature_key: self.signature_key@,
        }
    }
}

impl BasicCredential {
    /// Binds `identity` to a public signature key.  Succeeds exactly when the
    /// key has the scheme's size.
    pub fn new(identity: Vec<u8>, signature_scheme: SignatureScheme, signature_key: Vec<u8>) -> (r:
        Result<BasicCredential, CredentialError>)
        ensures
            match r {
                Ok(c) => signature_key@.len() == 32 && c@ == (BasicCredentialV {
                    identity: identity@,
                    signature_scheme,
                    signature_key: signature_key@,
                }),
                Err(e) => e == CredentialError::InvalidKeyBytes && signature_key@.len() != 32,
            },
    {
        if signature_key.len() != signature_scheme.public_key_size() {
            return Err(CredentialError::InvalidKeyBytes);
        }
        Ok(BasicCredential { identity, signature_scheme, signature_key })
    }

    /// The raw public signature key the credential asserts.
    pub fn public_key(&self) -> (r: &Vec<u8>)
        ensures
            r@ == self@.signature_key,
    {
        &self.signature_key
    }

    /// Wraps the credential in the general credential type.
    pub fn into_credential(self) -> (r: Credential)
        ensures
            r == Credential::Basic(self),
    {
        Credential::Basic(self)
    }
}

impl WireCode for BasicCredential {
    open spec fn spec_enc(m: BasicCredentialV) -> Seq<u8> {
        spec_enc_bytes(m.identity) + spec_enc_u16(m.signature_scheme.spec_raw()) + spec_enc_bytes(
            m.signature_key,
        )
    }

    open spec fn spec_dec(s: Seq<u8>, i: int) -> Option<(BasicCredentialV, int)> {
        match spec_dec_bytes(s, i) {
            Some((identity, j)) => match spec_dec_u16(s, j) {
                Some((raw, k)) => if raw == 2055 {
                    match spec_dec_bytes(s, k) {
                        Some((key, l)) => Some(
                            (
                                BasicCredentialV {
                                    identity,
                                    signature_scheme: SignatureScheme::Ed25519,
                                    signature_key: key,
                                },
                                l,
                            ),
                        ),
                        None => None,
                    }
                } else {
                    None
                },
                None => None,
            },
            None => None,
        }
    }

    open spec fn wire_wf(m: BasicCredentialV) -> bool {
        fits_wire_len(m.identity.len()) && fits_wire_len(m.signature_key.len())
    }

    proof fn lemma_rt(pre: Seq<u8>, m: BasicCredentialV, suf: Seq<u8>) {
        let e1 = spec_enc_bytes(m.identity);
        let e2 = spec_enc_u16(m.signature_scheme.spec_raw());
        let e3 = spec_enc_bytes(m.signature_key);
        lemma_split3(pre, e1, e2, e3, suf);
        lemma_rt_bytes(pre, m.identity, e2 + (e3 + suf));
        lemma_rt_u16(pre + e1, m.signature_scheme.spec_raw(), e3 + suf);
        lemma_rt_bytes(pre + e1 + e2, m.signature_key, suf);
    }

    proof fn lemma_wf(&self) {
        crate::codec::lemma_vec_fits(&self.identity);
        crate::codec::lemma_vec_fits(&self.signature_key);
    }

    fn dup(&self) -> (r: Self) {
        BasicCredential {
            identity: copy_bytes(&self.identity),
            signature_scheme: self.signature_scheme,
            signature_key: copy_bytes(&self.signature_key),
        }
    }

    fn encode(&self, out: &mut Vec<u8>) {
        enc_bytes(out, &self.identity);
        enc_u16(out, self.signature_scheme.raw());
        enc_bytes(out, &self.signature_key);
        proof {
            assert(out@ =~= old(out)@ + Self::spec_enc(self@));
        }
    }

    fn decode(s: &Vec<u8>, i: usize) -> (r: Option<(Self, usize)>) {
        match dec_bytes(s, i) {
            Some((identity, j)) => match dec_u16(s, j) {
                Some((raw, k)) => match SignatureScheme::from_raw(raw) {
                    Some(signature_scheme) => match dec_bytes(s, k) {
                        Some((signature_key, l)) => Some(
                            (BasicCredential { identity, signature_scheme, signature_key }, l),
                        ),
                        None => None,
                    },
                    None => None,
                },
                None => None,
            },
            None => None,
        }
    }
}

/// A chain of DER-encoded certificates, leaf first.  The library carries the
/// chain opaquely; reading keys out of it belongs to an outside X.509
/// component.
#[derive(Clone, Debug, PartialEq, Eq)]
pub struct CertificateChain {
    pub certs: Vec<Vec<u8>>,
}

impl View for CertificateChain {
    type V = Seq<Seq<u8>>;

    open spec fn view(&self) -> Seq<Seq<u8>> {
        views_of(self.certs@)
    }
}

impl CertificateChain {
    /// The leaf certificate's DER bytes; fails on an empty chain.
    pub fn leaf(&self) -> (r: Result<&Vec<u8>, CredentialError>)
        ensures
            match r {
                Ok(c) => self@.len() > 0 && c@ == self@[0],
                Err(e) => e == CredentialError::CertificateError && self@.len() == 0,
            },
    {
        if self.certs.len() == 0 {
            Err(CredentialError::CertificateError)
        } else {
            Ok(&self.certs[0])
        }
    }

    /// Wraps the chain in the general credential type.
    pub fn into_credential(self) -> (r: Credential)
        ensures
            r == Credential::Certificate(self),
    {
        Credential::Certificate(self)
    }
}

impl WireCode for CertificateChain {
    open spec fn spec_enc(m: Seq<Seq<u8>>) -> Seq<u8> {
        spec_enc_list::<Vec<u8>>(m)
    }

    open spec fn spec_dec(s: Seq<u8>, i: int) -> Option<(Seq<Seq<u8>>, int)> {
        spec_dec_list::<Vec<u8>>(s, i)
    }

    open spec fn wire_wf(m: Seq<Seq<u8>>) -> bool {
        wire_wf_items::<Vec<u8>>(m)
    }

    proof fn lemma_rt(pre: Seq<u8>, m: Seq<Seq<u8>>, suf: Seq<u8>) {
        lemma_rt_list::<Vec<u8>>(pre, m, suf);
    }

    proof fn lemma_wf(&self) {
        assert(self.certs.len() == self.certs@.len());
        assert forall|k: int| 0 <= k < self@.len() implies Vec::<u8>::wire_wf(
            #[trigger] self@[k],
        ) by {
            self.certs@[k].lemma_wf();
        }
    }

    fn dup(&self) -> (r: Self) {
        CertificateChain { certs: dup_list::<Vec<u8>>(&self.certs) }
    }

    fn encode(&self, out: &mut Vec<u8>) {
        encode_list::<Vec<u8>>(&self.certs, out);
    }

    fn decode(s: &Vec<u8>, i: usize) -> (r: Option<(Self, usize)>) {
        match decode_list::<Vec<u8>>(s, i) {
            Some((certs, j)) => Some((CertificateChain { certs }, j)),
            None => None,
        }
    }
}

/// What a member presents to assert an identity.
#[derive(Clone, Debug, PartialEq, Eq)]
pub enum Credential {
    Basic(BasicCredential),
    Certificate(CertificateChain),
}

pub enum CredentialV {
    Basic(BasicCredentialV),
    Certificate(Seq<Seq<u8>>),
}

impl View for Credential {
    type V = CredentialV;

    open spec fn view(&self) -> CredentialV {
        match self {
            Credential::Basic(b) => CredentialV::Basic(b@),
            Credential::Certificate(c) => CredentialV::Certificate(c@),
        }
    }
}

/// The identity bytes a credential asserts; certificate chains assert their
/// leaf certificate.
pub open spec fn spec_identity_of(m: CredentialV) -> Seq<u8> {
    match m {
        CredentialV::Basic(b) => b.identity,
        CredentialV::Certificate(c) => if c.len() > 0 {
            c[0]
        } else {
            Seq::empty()
        },
    }
}

impl Credential {
    /// The raw public signature key, for credentials whose key the library
    /// itself can read.
    pub fn public_key(&self) -> (r: Result<&Vec<u8>, CredentialError>)
        ensures
            match r {
                Ok(k) => self@ matches CredentialV::Basic(b) && k@ == b.signature_key,
                Err(e) => e == CredentialError::CertificateError && self@ matches CredentialV::Certificate(_),
            },
    {
        match self {
            Credential::Basic(b) => Ok(&b.signature_key),
            Credential::Certificate(_) => Err(CredentialError::CertificateError),
        }
    }

    /// Whether `signature` over `data` verifies under the credential's key.
    /// The verdict for a basic credential is the scheme's; a certificate
    /// credential is refused here, since its key is read outside.
    pub fn verify(&self, signature: &Vec<u8>, data: &Vec<u8>) -> (r: Result<
        bool,
        CredentialError,
    >)
        ensures
            match r {
                Ok(v) => self@ matches CredentialV::Basic(b) && v == ed25519_verify_of(
                    b.signature_key,
                    signature@,
                    data@,
                ),
                Err(e) => e == CredentialError::CertificateError && self@ matches CredentialV::Certificate(_),
            },
    {
        match self {
            Credential::Basic(b) => Ok(
                ed25519_verify(b.signature_key.as_slice(), signature.as_slice(), data.as_slice()),
            ),
            Credential::Certificate(_) => Err(CredentialError::CertificateError),
        }
    }
}

impl WireCode for Credential {
    open spec fn spec_enc(m: CredentialV) -> Seq<u8> {
        match m {
            CredentialV::Basic(b) => spec_enc_u16(1) + BasicCredential::spec_enc(b),
            CredentialV::Certificate(c) => spec_enc_u16(2) + CertificateChain::spec_enc(c),
        }
    }

    open spec fn spec_dec(s: Seq<u8>, i: int) -> Option<(CredentialV, int)> {
        match spec_dec_u16(s, i) {
            Some((d, j)) => if d == 1 {
                match BasicCredential::spec_dec(s, j) {
                    Some((b, k)) => Some((CredentialV::Basic(b), k)),
                    None => None,
                }
            } else if d == 2 {
                match CertificateChain::spec_dec(s, j) {
                    Some((c, k)) => Some((CredentialV::Certificate(c), k)),
                    None => None,
                }
            } else {
                None
            },
            None => None,
        }
    }

    open spec fn wire_wf(m: CredentialV) -> bool {
        match m {
            CredentialV::Basic(b) => BasicCredential::wire_wf(b),
            CredentialV::Certificate(c) => CertificateChain::wire_wf(c),
        }
    }

    proof fn lemma_rt(pre: Seq<u8>, m: CredentialV, suf: Seq<u8>) {
        match m {
            CredentialV::Basic(b) => lemma_rt_credential_basic(pre, b, suf),
            CredentialV::Certificate(c) => lemma_rt_credential_certificate(pre, c, suf),
        }
    }

    proof fn lemma_wf(&self) {
        match self {
            Credential::Basic(b) => b.lemma_wf(),
            Credential::Certificate(c) => c.lemma_wf(),
        }
    }

    fn dup(&self) -> (r: Self) {
        match self {
            Credential::Basic(b) => Credential::Basic(b.dup()),
            Credential::Certificate(c) => Credential::Certificate(c.dup()),
        }
    }

    fn encode(&self, out: &mut Vec<u8>) {
        match self {
            Credential::Basic(b) => {
                enc_u16(out, 1);
                b.encode(out);
                proof {
                    assert(out@ =~= old(out)@ + Self::spec_enc(self@));
                }
            },
            Credential::Certificate(c) => {
                enc_u16(out, 2);
                c.encode(out);
                proof {
                    assert(out@ =~= old(out)@ + Self::spec_enc(self@));
                }
            },
        }
    }

    fn decode(s: &Vec<u8>, i: usize) -> (r: Option<(Self, usize)>) {
        match dec_u16(s, i) {
            Some((d, j)) => {
                if d == 1 {
                    match BasicCredential::decode(s, j) {
                        Some((b, k)) => Some((Credential::Basic(b), k)),
                        None => None,
                    }
                } else if d == 2 {
                    match CertificateChain::decode(s, j) {
                        Some((c, k)) => Some((Credential::Certificate(c), k)),
                        None => None,
                    }
                } else {
                    None
                }
            },
            None => None,
        }
    }
}

proof fn lemma_rt_credential_certificate(pre: Seq<u8>, c: Seq<Seq<u8>>, suf: Seq<u8>)
    requires
        CertificateChain::wire_wf(c),
    ensures
        ({
            let m = CredentialV::Certificate(c);
            Credential::spec_dec(pre + Credential::spec_enc(m) + suf, pre.len() as int)
                == Some((m, (pre.len() + Credential::spec_enc(m).len()) as int))
        }),
{
    let m = CredentialV::Certificate(c);
    let payload = CertificateChain::spec_enc(c);
    let tag = spec_enc_u16(2);
    let s = pre + (tag + payload) + suf;
    lemma_rt_tag16::<CertificateChain>(pre, 2, c, suf);
    assert(Credential::spec_enc(m) == tag + payload);
    assert(Credential::spec_dec(s, pre.len() as int) == Some(
        (m, (pre.len() + tag.len() + payload.len()) as int),
    ));
}

proof fn lemma_rt_credential_basic(pre: Seq<u8>, b: BasicCredentialV, suf: Seq<u8>)
    requires
        BasicCredential::wire_wf(b),
    ensures
        ({
            let m = CredentialV::Basic(b);
            Credential::spec_dec(pre + Credential::spec_enc(m) + suf, pre.len() as int)
                == Some((m, (pre.len() + Credential::spec_enc(m).len()) as int))
        }),
{
    let m = CredentialV::Basic(b);
    let payload = BasicCredential::spec_enc(b);
    let tag = spec_enc_u16(1);
    let s = pre + (tag + payload) + suf;
    lemma_rt_tag16::<BasicCredential>(pre, 1, b, suf);
    assert(Credential::spec_enc(m) == tag + payload);
    assert(Credential::spec_dec(s, pre.len() as int) == Some(
        (m, (pre.len() + tag.len() + payload.len()) as int),
    ));
}

} // verus!
