use vstd::prelude::*;

use crate::codec::{
    bytes_eq, copy_bytes, dec_bytes, dec_u16, enc_bytes, enc_u16, fits_wire_len, lemma_rt_bytes,
    lemma_rt_u16,
    lemma_split7, spec_dec_bytes, spec_dec_u16, spec_enc_bytes, spec_enc_u16, WireCode,
};
use crate::credential::{Credential, CredentialV};
use crate::crypto::{ed25519_sign, ed25519_sign_of, ed25519_verify, ed25519_verify_of, CipherSuite};
use crate::extension::{ExtensionList, ExtensionV};
use crate::hash_reference::{spec_ref_of, wf_hash_ref, HashReference};
use crate::lifetime::Lifetime;

verus! {

/// The reference under which a key package is stored and cited.
pub type KeyPackageRef = HashReference;

/// What a prospective or current member publishes: an initial public
/// encryption key and a credential, bound by a self-signature, valid for a
/// window of time.
#[derive(Clone, Debug, PartialEq, Eq)]
pub struct KeyPackage {
    pub version: u16,
    pub cipher_suite: u16,
    pub hpke_init_key: Vec<u8>,
    pub credential: Credential,
    pub lifetime: Lifetime,
    pub extensions: ExtensionList,
    pub signature: Vec<u8>,
}

pub struct KeyPackageV {
    pub version: u16,
    pub cipher_suite: u16,
    pub hpke_init_key: Seq<u8>,
    pub credential: CredentialV,
    pub lifetime: Lifetime,
    pub extensions: Seq<ExtensionV>,
    pub signature: Seq<u8>,
}

impl View for KeyPackage {
    type V = KeyPackageV;

    open spec fn view(&self) -> KeyPackageV {
        KeyPackageV {
            version: self.version,
            cipher_suite: self.cipher_suite,
            hpke_init_key: self.hpke_init_key@,
            credential: self.credential@,
            lifetime: self.lifetime,
            extensions: self.extensions@,
            signature: self.signature@,
        }
    }
}

/// The part of a key package that its self-signature covers: everything but
/// the signature itself.
pub open spec fn spec_kp_tbs(m: KeyPackageV) -> Seq<u8> {
    spec_enc_u16(m.version) + spec_enc_u16(m.cipher_suite) + spec_enc_bytes(m.hpke_init_key)
        + Credential::spec_enc(m.credential) + Lifetime::spec_enc(m.lifetime)
        + ExtensionList::spec_enc(m.extensions)
}

/// Whether the key package's self-signature verifies under the signature key
/// its own credential asserts.  A certificate credential's key is read by an
/// outside X.509 component, so nothing is claimed of it here.
pub open spec fn spec_kp_sig_valid(m: KeyPackageV) -> bool {
    match m.credential {
        CredentialV::Basic(b) => ed25519_verify_of(b.signature_key, m.signature, spec_kp_tbs(m)),
        CredentialV::Certificate(_) => false,
    }
}

impl KeyPackage {
    /// The bytes the self-signature covers.
    pub fn tbs(&self) -> (r: Vec<u8>)
        ensures
            r@ == spec_kp_tbs(self@),
    {
        let mut out: Vec<u8> = Vec::new();
        enc_u16(&mut out, self.version);
        enc_u16(&mut out, self.cipher_suite);
        enc_bytes(&mut out, &self.hpke_init_key);
        self.credential.encode(&mut out);
        self.lifetime.encode(&mut out);
        self.extensions.encode(&mut out);
        proof {
            assert(out@ =~= spec_kp_tbs(self@));
        }
        out
    }

    /// Signs the package in place with an Ed25519 signing key.
    pub fn sign(&mut self, secret: &Vec<u8>)
        requires
            secret@.len() == 32,
        ensures
            final(self)@.signature == ed25519_sign_of(secret@, spec_kp_tbs(old(self)@)),
            final(self)@ == (KeyPackageV { signature: final(self)@.signature, ..old(self)@ }),
    {
        let tbs = self.tbs();
        self.signature = ed25519_sign(secret.as_slice(), tbs.as_slice());
    }

    /// Whether the self-signature verifies under the credential's own key.
    pub fn has_valid_signature(&self) -> (r: bool)
        ensures
            r == spec_kp_sig_valid(self@),
    {
        match &self.credential {
            Credential::Basic(b) => {
                let tbs = self.tbs();
                ed25519_verify(b.signature_key.as_slice(), self.signature.as_slice(), tbs.as_slice())
            },
            Credential::Certificate(_) => false,
        }
    }

    /// The encoded package.
    pub fn to_bytes(&self) -> (r: Vec<u8>)
        ensures
            r@ == Self::spec_enc(self@),
    {
        let mut out: Vec<u8> = Vec::new();
        self.encode(&mut out);
        proof {
            assert(out@ =~= Self::spec_enc(self@));
        }
        out
    }

    /// The reference that names this package: the hash-derived reference of
    /// its encoding.
    pub fn to_reference(&self) -> (r: KeyPackageRef)
        ensures
            r@ == spec_ref_of(Self::spec_enc(self@)),
            wf_hash_ref(r@),
    {
        let bytes = self.to_bytes();
        HashReference::from_value(&bytes, CipherSuite::Curve25519Aes128)
    }
}

impl WireCode for KeyPackage {
    open spec fn spec_enc(m: KeyPackageV) -> Seq<u8> {
        spec_enc_u16(m.version) + spec_enc_u16(m.cipher_suite) + spec_enc_bytes(m.hpke_init_key)
            + Credential::spec_enc(m.credential) + Lifetime::spec_enc(m.lifetime)
            + ExtensionList::spec_enc(m.extensions) + spec_enc_bytes(m.signature)
    }

    open spec fn spec_dec(s: Seq<u8>, i: int) -> Option<(KeyPackageV, int)> {
        match spec_dec_u16(s, i) {
            Some((version, i1)) => match spec_dec_u16(s, i1) {
                Some((cipher_suite, i2)) => match spec_dec_bytes(s, i2) {
                    Some((init_key, i3)) => match Credential::spec_dec(s, i3) {
                        Some((credential, i4)) => match Lifetime::spec_dec(s, i4) {
                            Some((lifetime, i5)) => match ExtensionList::spec_dec(s, i5) {
                                Some((extensions, i6)) => match spec_dec_bytes(s, i6) {
                                    Some((signature, i7)) => Some(
                                        (
                                            KeyPackageV {
                                                version,
                                                cipher_suite,
                                                hpke_init_key: init_key,
                                                credential,
                                                lifetime,
                                                extensions,
                                                signature,
                                            },
                                            i7,
                                        ),
                                    ),
                                    None => None,
                                },
                                None => None,
                            },
                            None => None,
                        },
                        None => None,
                    },
                    None => None,
                },
                None => None,
            },
            None => None,
        }
    }

    open spec fn wire_wf(m: KeyPackageV) -> bool {
        fits_wire_len(m.hpke_init_key.len()) && Credential::wire_wf(m.credential)
            && ExtensionList::wire_wf(m.extensions) && fits_wire_len(m.signature.len())
    }

    proof fn lemma_rt(pre: Seq<u8>, m: KeyPackageV, suf: Seq<u8>) {
        let e1 = spec_enc_u16(m.version);
        let e2 = spec_enc_u16(m.cipher_suite);
        let e3 = spec_enc_bytes(m.hpke_init_key);
        let e4 = Credential::spec_enc(m.credential);
        let e5 = Lifetime::spec_enc(m.lifetime);
        let e6 = ExtensionList::spec_enc(m.extensions);
        let e7 = spec_enc_bytes(m.signature);
        lemma_split7(pre, e1, e2, e3, e4, e5, e6, e7, suf);
        lemma_rt_u16(pre, m.version, e2 + (e3 + (e4 + (e5 + (e6 + (e7 + suf))))));
        lemma_rt_u16(pre + e1, m.cipher_suite, e3 + (e4 + (e5 + (e6 + (e7 + suf)))));
        lemma_rt_bytes(pre + e1 + e2, m.hpke_init_key, e4 + (e5 + (e6 + (e7 + suf))));
        Credential::lemma_rt(pre + e1 + e2 + e3, m.credential, e5 + (e6 + (e7 + suf)));
        Lifetime::lemma_rt(pre + e1 + e2 + e3 + e4, m.lifetime, e6 + (e7 + suf));
        ExtensionList::lemma_rt(pre + e1 + e2 + e3 + e4 + e5, m.extensions, e7 + suf);
        lemma_rt_bytes(pre + e1 + e2 + e3 + e4 + e5 + e6, m.signature, suf);
    }

    proof fn lemma_wf(&self) {
        crate::codec::lemma_vec_fits(&self.hpke_init_key);
        crate::codec::lemma_vec_fits(&self.signature);
        self.credential.lemma_wf();
        self.extensions.lemma_wf();
    }

    fn dup(&self) -> (r: Self) {
        KeyPackage {
            version: self.version,
            cipher_suite: self.cipher_suite,
            hpke_init_key: copy_bytes(&self.hpke_init_key),
            credential: self.credential.dup(),
            lifetime: self.lifetime,
            extensions: self.extensions.dup(),
            signature: copy_bytes(&self.signature),
        }
    }

    fn encode(&self, out: &mut Vec<u8>) {
        enc_u16(out, self.version);
        enc_u16(out, self.cipher_suite);
        enc_bytes(out, &self.hpke_init_key);
        self.credential.encode(out);
        self.lifetime.encode(out);
        self.extensions.encode(out);
        enc_bytes(out, &self.signature);
        proof {
            assert(out@ =~= old(out)@ + Self::spec_enc(self@));
        }
    }

    fn decode(s: &Vec<u8>, i: usize) -> (r: Option<(Self, usize)>) {
        match dec_u16(s, i) {
            Some((version, i1)) => match dec_u16(s, i1) {
                Some((cipher_suite, i2)) => match dec_bytes(s, i2) {
                    Some((hpke_init_key, i3)) => match Credential::decode(s, i3) {
                        Some((credential, i4)) => match Lifetime::decode(s, i4) {
                            Some((lifetime, i5)) => match ExtensionList::decode(s, i5) {
                                Some((extensions, i6)) => match dec_bytes(s, i6) {
                                    Some((signature, i7)) => Some(
                                        (
                                            KeyPackage {
                                                version,
                                                cipher_suite,
                                                hpke_init_key,
                                                credential,
                                                lifetime,
                                                extensions,
                                                signature,
                                            },
                                            i7,
                                        ),
                                    ),
                                    None => None,
                                },
                                None => None,
                            },
                            None => None,
                        },
                        None => None,
                    },
                    None => None,
                },
                None => None,
            },
            None => None,
        }
    }
}

/// A generated key package together with the private key of its initial
/// public key.
#[derive(Clone, Debug, PartialEq, Eq)]
pub struct KeyPackageGeneration {
    pub key_package: KeyPackage,
    pub secret_key: Vec<u8>,
}

pub struct KeyPackageGenerationV {
    pub key_package: KeyPackageV,
    pub secret_key: Seq<u8>,
}

impl View for KeyPackageGeneration {
    type V = KeyPackageGenerationV;

    open spec fn view(&self) -> KeyPackageGenerationV {
        KeyPackageGenerationV { key_package: self.key_package@, secret_key: self.secret_key@ }
    }
}

/// Why a key package store refused a request.  The in-memory store never
/// fails; the type names what a fallible store may report.
#[derive(Clone, Copy, Debug, PartialEq, Eq, Structural)]
pub enum KeyPackageError {
    NotFound,
}

/// Where generated key packages wait to be looked up by reference.  The
/// library ships the in-memory store; users may implement their own.
pub trait KeyPackageRepository {
    type Error;

    fn insert(&mut self, key_pkg_gen: KeyPackageGeneration) -> Result<(), Self::Error>;

    fn get(&self, key_pkg: &KeyPackageRef) -> Result<Option<KeyPackageGeneration>, Self::Error>;
}

/// An in-memory key package store, keyed by each package's reference.
#[derive(Clone, Debug)]
pub struct InMemoryKeyPackageRepository {
    entries: Vec<(KeyPackageRef, KeyPackageGeneration)>,
}

/// The stored generation under a key, if any: the first entry with that key.
pub open spec fn spec_repo_find(
    entries: Seq<(Seq<u8>, KeyPackageGenerationV)>,
    key: Seq<u8>,
) -> Option<KeyPackageGenerationV>
    decreases entries.len(),
{
    if entries.len() == 0 {
        None
    } else if entries[0].0 == key {
        Some(entries[0].1)
    } else {
        spec_repo_find(entries.drop_first(), key)
    }
}

impl View for InMemoryKeyPackageRepository {
    type V = Seq<(Seq<u8>, KeyPackageGenerationV)>;

    closed spec fn view(&self) -> Seq<(Seq<u8>, KeyPackageGenerationV)> {
        self.entries@.map_values(|e: (KeyPackageRef, KeyPackageGeneration)| (e.0@, e.1@))
    }
}

impl InMemoryKeyPackageRepository {
    /// An empty store.
    pub fn new() -> (r: InMemoryKeyPackageRepository)
        ensures
            r@ == Seq::<(Seq<u8>, KeyPackageGenerationV)>::empty(),
    {
        let r = InMemoryKeyPackageRepository { entries: Vec::new() };
        proof {
            assert(r@ =~= Seq::<(Seq<u8>, KeyPackageGenerationV)>::empty());
        }
        r
    }

    /// Stores a generation under its package's own reference, replacing what
    /// that reference held before.
    #[verifier::loop_isolation(false)]
    pub fn insert(&mut self, key_pkg_gen: KeyPackageGeneration) -> (r: Result<
        (),
        KeyPackageError,
    >)
        ensures
            r is Ok,
            spec_repo_find(
                final(self)@,
                spec_ref_of(KeyPackage::spec_enc(key_pkg_gen@.key_package)),
            ) == Some(key_pkg_gen@),
            forall|key: Seq<u8>|
                key != spec_ref_of(KeyPackage::spec_enc(key_pkg_gen@.key_package))
                    ==> #[trigger] spec_repo_find(final(self)@, key) == spec_repo_find(
                    old(self)@,
                    key,
                ),
    {
        let key = key_pkg_gen.key_package.to_reference();
        let mut k: usize = 0;
        let n = self.entries.len();
        proof {
            assert(self@.len() == n);
        }
        loop
            invariant
                k <= n,
                n == self.entries.len(),
                *self == *old(self),
                forall|i: int| 0 <= i < k ==> #[trigger] self@[i].0 != key@,
            decreases n - k,
        {
            if k == n {
                break;
            }
            proof {
                assert(self@[k as int] == (self.entries@[k as int].0@, self.entries@[
                    k as int].1@));
            }
            if bytes_eq(&self.entries[k].0.bytes, &key.bytes) {
                let ghost before = self@;
                self.entries.set(k, (key.dup(), key_pkg_gen));
                proof {
                    assert forall|i: int| 0 <= i < before.len() && i != k implies self@[i]
                        == before[i] by {}
                    assert(self@[k as int] == (key@, key_pkg_gen@));
                    lemma_repo_find_set(before, self@, k as int, key@);
                }
                return Ok(());
            }
            k = k + 1;
        }
        let ghost before = self@;
        self.entries.push((key.dup(), key_pkg_gen));
        proof {
            assert(self@ =~= before.push((key@, key_pkg_gen@)));
            lemma_repo_find_push(before, key@, key_pkg_gen@);
        }
        Ok(())
    }

    /// The generation stored under a reference, if any.
    #[verifier::loop_isolation(false)]
    pub fn get(&self, r: &KeyPackageRef) -> (res: Option<KeyPackageGeneration>)
        ensures
            match res {
                Some(g) => spec_repo_find(self@, r@) == Some(g@),
                None => spec_repo_find(self@, r@) is None,
            },
    {
        let mut k: usize = 0;
        let n = self.entries.len();
        proof {
            assert(self@.len() == n);
            assert(self@.skip(0) =~= self@);
        }
        loop
            invariant
                k <= n,
                spec_repo_find(self@, r@) == spec_repo_find(self@.skip(k as int), r@),
            decreases n - k,
        {
            if k == n {
                proof {
                    assert(self@.skip(n as int) =~= Seq::<(
                        Seq<u8>,
                        KeyPackageGenerationV,
                    )>::empty());
                }
                return None;
            }
            proof {
                assert(self@.skip(k as int)[0] == self@[k as int]);
                assert(self@[k as int] == (self.entries@[k as int].0@, self.entries@[
                    k as int].1@));
                assert(self@.skip(k as int).drop_first() =~= self@.skip(k as int + 1));
            }
            if bytes_eq(&self.entries[k].0.bytes, &r.bytes) {
                let g = KeyPackageGeneration {
                    key_package: self.entries[k].1.key_package.dup(),
                    secret_key: copy_bytes(&self.entries[k].1.secret_key),
                };
                return Some(g);
            }
            k = k + 1;
        }
    }
}

/// Replacing the first entry that holds `key` rebinds `key` and leaves every
/// other key's lookup unchanged.
proof fn lemma_repo_find_set(
    before: Seq<(Seq<u8>, KeyPackageGenerationV)>,
    after: Seq<(Seq<u8>, KeyPackageGenerationV)>,
    k: int,
    key: Seq<u8>,
)
    requires
        0 <= k < before.len(),
        after.len() == before.len(),
        forall|i: int| 0 <= i < k ==> #[trigger] before[i].0 != key,
        before[k].0 == key,
        after[k].0 == key,
        forall|i: int| 0 <= i < before.len() && i != k ==> #[trigger] after[i] == before[i],
    ensures
        spec_repo_find(after, key) == Some(after[k].1),
        forall|other: Seq<u8>|
            other != key ==> #[trigger] spec_repo_find(after, other) == spec_repo_find(
                before,
                other,
            ),
    decreases before.len(),
{
    if k == 0 {
        assert(spec_repo_find(after, key) == Some(after[0].1));
        assert forall|other: Seq<u8>| other != key implies #[trigger] spec_repo_find(after, other)
            == spec_repo_find(before, other) by {
            assert forall|i: int| 0 <= i < after.drop_first().len() implies #[trigger] after.drop_first()[i]
                == before.drop_first()[i] by {
                assert(after.drop_first()[i] == after[i + 1]);
                assert(before.drop_first()[i] == before[i + 1]);
            }
            assert(after.drop_first() =~= before.drop_first());
        }
    } else {
        let b1 = before.drop_first();
        let a1 = after.drop_first();
        assert(after[0] == before[0]);
        assert forall|i: int| 0 <= i < k - 1 implies #[trigger] b1[i].0 != key by {
            assert(b1[i] == before[i + 1]);
        }
        assert(b1[k - 1] == before[k]);
        assert(a1[k - 1] == after[k]);
        assert forall|i: int| 0 <= i < b1.len() && i != k - 1 implies #[trigger] a1[i] == b1[i] by {
            assert(a1[i] == after[i + 1]);
            assert(b1[i] == before[i + 1]);
        }
        lemma_repo_find_set(b1, a1, k - 1, key);
        assert(before[0].0 != key);
        assert(spec_repo_find(after, key) == spec_repo_find(a1, key));
        assert(spec_repo_find(after, key) == Some(after[k].1));
        assert forall|other: Seq<u8>| other != key implies #[trigger] spec_repo_find(after, other)
            == spec_repo_find(before, other) by {
            if after[0].0 == other {
            } else {
                assert(spec_repo_find(a1, other) == spec_repo_find(b1, other));
            }
        }
    }
}

/// Appending an entry with a fresh key binds the new key and leaves every
/// other key's lookup unchanged.
proof fn lemma_repo_find_push(
    before: Seq<(Seq<u8>, KeyPackageGenerationV)>,
    key: Seq<u8>,
    gen: KeyPackageGenerationV,
)
    requires
        forall|i: int| 0 <= i < before.len() ==> #[trigger] before[i].0 != key,
    ensures
        spec_repo_find(before.push((key, gen)), key) == Some(gen),
        forall|other: Seq<u8>|
            other != key ==> #[trigger] spec_repo_find(before.push((key, gen)), other)
                == spec_repo_find(before, other),
    decreases before.len(),
{
    let p = before.push((key, gen));
    if before.len() == 0 {
        assert(p[0] == (key, gen));
        assert(spec_repo_find(p, key) == Some(gen));
        assert forall|other: Seq<u8>| other != key implies #[trigger] spec_repo_find(p, other)
            == spec_repo_find(before, other) by {
            assert(p.drop_first() =~= Seq::<(Seq<u8>, KeyPackageGenerationV)>::empty());
            assert(spec_repo_find(p.drop_first(), other) is None);
            assert(spec_repo_find(p, other) is None);
        }
    } else {
        let b1 = before.drop_first();
        assert(p[0] == before[0]);
        assert forall|i: int| 0 <= i < b1.len() implies #[trigger] b1[i].0 != key by {
            assert(b1[i] == before[i + 1]);
        }
        lemma_repo_find_push(b1, key, gen);
        assert(p.drop_first() =~= b1.push((key, gen)));
        assert(before[0].0 != key);
        assert(spec_repo_find(p, key) == spec_repo_find(b1.push((key, gen)), key));
        assert forall|other: Seq<u8>| other != key implies #[trigger] spec_repo_find(p, other)
            == spec_repo_find(before, other) by {
            if p[0].0 == other {
                assert(spec_repo_find(p, other) == Some(p[0].1));
                assert(spec_repo_find(before, other) == Some(before[0].1));
            } else {
                assert(spec_repo_find(p, other) == spec_repo_find(p.drop_first(), other));
                assert(p.drop_first() == b1.push((key, gen)));
                assert(spec_repo_find(b1.push((key, gen)), other) == spec_repo_find(b1, other));
                assert(spec_repo_find(before, other) == spec_repo_find(b1, other));
            }
        }
    }
}

impl KeyPackageRepository for InMemoryKeyPackageRepository {
    type Error = KeyPackageError;

    fn insert(&mut self, key_pkg_gen: KeyPackageGeneration) -> Result<(), Self::Error> {
        InMemoryKeyPackageRepository::insert(self, key_pkg_gen)
    }

    fn get(&self, key_pkg: &KeyPackageRef) -> Result<Option<KeyPackageGeneration>, Self::Error> {
        Ok(InMemoryKeyPackageRepository::get(self, key_pkg))
    }
}

} // verus!
