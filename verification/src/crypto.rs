use vstd::prelude::*;

verus! {

// The cryptographic primitives are consumed as a capability: each call goes
// through a trusted wrapper, and the deterministic ones are given a name so
// that contracts can speak of their results exactly.

/// The cipher suites this library supports: an X25519 key exchange with
/// SHA-256 hashing, HMAC-SHA-256 tags, AES-128-GCM sealing and Ed25519
/// signatures.
#[derive(Clone, Copy, Debug, PartialEq, Eq, Structural)]
pub enum CipherSuite {
    Curve25519Aes128,
}

impl CipherSuite {
    /// The wire identifier of the suite.
    pub open spec fn spec_raw(self) -> u16 {
        1
    }

    pub fn raw(self) -> (r: u16)
        ensures
            r == self.spec_raw(),
    {
        match self {
            CipherSuite::Curve25519Aes128 => 1,
        }
    }

    /// The suite with a given wire identifier, if it is supported.
    pub fn from_raw(raw: u16) -> (r: Option<CipherSuite>)
        ensures
            r == if raw == 1 {
                Some(CipherSuite::Curve25519Aes128)
            } else {
                None::<CipherSuite>
            },
    {
        if raw == 1 {
            Some(CipherSuite::Curve25519Aes128)
        } else {
            None
        }
    }

    /// The size of the suite's KDF extract output and hash digests.
    pub fn kdf_extract_size(self) -> (r: usize)
        ensures
            r == 32,
    {
        32
    }
}

// ---------------------------------------------------------------------------
// Names for the results of the deterministic primitives.
// ---------------------------------------------------------------------------

pub uninterp spec fn sha256_of(data: Seq<u8>) -> Seq<u8>;

pub uninterp spec fn hmac_sha256_of(key: Seq<u8>, data: Seq<u8>) -> Seq<u8>;

pub uninterp spec fn hkdf_extract_of(salt: Seq<u8>, ikm: Seq<u8>) -> Seq<u8>;

pub uninterp spec fn hkdf_expand_of(prk: Seq<u8>, info: Seq<u8>, len: nat) -> Seq<u8>;

pub uninterp spec fn x25519_public_of(secret: Seq<u8>) -> Seq<u8>;

pub uninterp spec fn x25519_shared_of(a_public: Seq<u8>, b_public: Seq<u8>) -> Seq<u8>;

pub uninterp spec fn aes128_gcm_seal_of(key: Seq<u8>, nonce: Seq<u8>, pt: Seq<u8>) -> Seq<u8>;

pub uninterp spec fn aes128_gcm_open_of(key: Seq<u8>, nonce: Seq<u8>, ct: Seq<u8>) -> Option<
    Seq<u8>,
>;

pub uninterp spec fn ed25519_public_of(secret: Seq<u8>) -> Seq<u8>;

pub uninterp spec fn ed25519_sign_of(secret: Seq<u8>, data: Seq<u8>) -> Seq<u8>;

pub uninterp spec fn ed25519_verify_of(public: Seq<u8>, sig: Seq<u8>, data: Seq<u8>) -> bool;

// ---------------------------------------------------------------------------
// Trusted wrappers over the outside primitives.
// ---------------------------------------------------------------------------

/// Relies on sha2::Sha256::digest: a 32-byte digest that depends on the
/// input alone.
#[verifier::external_body]
pub fn sha256(data: &[u8]) -> (r: Vec<u8>)
    ensures
        r@ == sha256_of(data@),
        r@.len() == 32,
{
    <sha2::Sha256 as sha2::Digest>::digest(data).to_vec()
}

/// Relies on hmac::Hmac over sha2::Sha256: a 32-byte tag that depends on the
/// key and the input alone; any key length is accepted.
#[verifier::external_body]
pub fn hmac_sha256(key: &[u8], data: &[u8]) -> (r: Vec<u8>)
    ensures
        r@ == hmac_sha256_of(key@, data@),
        r@.len() == 32,
{
    let mut m = <hmac::Hmac<sha2::Sha256> as hmac::Mac>::new_from_slice(key).unwrap();
    hmac::Mac::update(&mut m, data);
    hmac::Mac::finalize(m).into_bytes().to_vec()
}

/// Relies on hkdf::Hkdf::<Sha256>::extract: a 32-byte pseudorandom key that
/// depends on the salt and the keying material alone.
#[verifier::external_body]
pub fn hkdf_extract(salt: &[u8], ikm: &[u8]) -> (r: Vec<u8>)
    ensures
        r@ == hkdf_extract_of(salt@, ikm@),
        r@.len() == 32,
{
    let (prk, _) = hkdf::Hkdf::<sha2::Sha256>::extract(Some(salt), ikm);
    prk.to_vec()
}

/// Relies on hkdf::Hkdf::<Sha256>::expand: `len` bytes that depend on the
/// pseudorandom key, the info string and the length alone.  The crate asks
/// for a 32-byte key and at most 255 times 32 bytes of output.
#[verifier::external_body]
pub fn hkdf_expand(prk: &[u8], info: &[u8], len: usize) -> (r: Vec<u8>)
    requires
        prk@.len() == 32,
        len <= 8160,
    ensures
        r@ == hkdf_expand_of(prk@, info@, len as nat),
        r@.len() == len,
{
    let h = hkdf::Hkdf::<sha2::Sha256>::from_prk(prk).unwrap();
    let mut okm = vec![0u8; len];
    h.expand(info, &mut okm).unwrap();
    okm
}

/// Relies on rand::thread_rng's fill_bytes: the bytes are random, so nothing
/// is promised of them beyond their number.
#[verifier::external_body]
pub fn random_bytes(n: usize) -> (r: Vec<u8>)
    ensures
        r@.len() == n,
{
    let mut v = vec![0u8; n];
    rand::RngCore::fill_bytes(&mut rand::thread_rng(), &mut v);
    v
}

/// Relies on x25519_dalek::PublicKey::from a StaticSecret: the 32-byte
/// public key is a function of the 32-byte secret alone.
#[verifier::external_body]
pub fn x25519_public(secret: &[u8]) -> (r: Vec<u8>)
    requires
        secret@.len() == 32,
    ensures
        r@ == x25519_public_of(secret@),
        r@.len() == 32,
{
    let mut sk = [0u8; 32];
    sk.copy_from_slice(secret);
    let p = x25519_dalek::PublicKey::from(&x25519_dalek::StaticSecret::from(sk));
    p.as_bytes().to_vec()
}

/// Relies on x25519_dalek::StaticSecret::diffie_hellman: the 32-byte shared
/// secret depends only on the two key pairs, and both parties compute the
/// same value - each party's secret with the other's public key yields the
/// one shared secret of the two public keys, in either order.
#[verifier::external_body]
pub fn x25519_dh(secret: &[u8], public: &[u8]) -> (r: Vec<u8>)
    requires
        secret@.len() == 32,
        public@.len() == 32,
    ensures
        r@ == x25519_shared_of(x25519_public_of(secret@), public@),
        r@ == x25519_shared_of(public@, x25519_public_of(secret@)),
        r@.len() == 32,
{
    let mut sk = [0u8; 32];
    sk.copy_from_slice(secret);
    let mut pk = [0u8; 32];
    pk.copy_from_slice(public);
    let shared = x25519_dalek::StaticSecret::from(sk).diffie_hellman(
        &x25519_dalek::PublicKey::from(pk),
    );
    shared.as_bytes().to_vec()
}

/// Relies on aes_gcm::Aes128Gcm::encrypt: with a 16-byte key and a 12-byte
/// nonce the ciphertext is a function of key, nonce and plaintext alone, is
/// 16 bytes longer than the plaintext, and decrypting it under the same key
/// and nonce gives the plaintext back.
#[verifier::external_body]
pub fn aes128_gcm_seal(key: &[u8], nonce: &[u8], pt: &[u8]) -> (r: Vec<u8>)
    requires
        key@.len() == 16,
        nonce@.len() == 12,
        pt@.len() <= 0x10000000,
    ensures
        r@ == aes128_gcm_seal_of(key@, nonce@, pt@),
        aes128_gcm_open_of(key@, nonce@, r@) == Some(pt@),
        r@.len() == pt@.len() + 16,
{
    let c = <aes_gcm::Aes128Gcm as aes_gcm::KeyInit>::new_from_slice(key).unwrap();
    aes_gcm::aead::Aead::encrypt(&c, aes_gcm::Nonce::from_slice(nonce), pt).unwrap()
}

/// Relies on aes_gcm::Aes128Gcm::decrypt: with a 16-byte key and a 12-byte
/// nonce the outcome is a function of key, nonce and ciphertext alone.
#[verifier::external_body]
pub fn aes128_gcm_open(key: &[u8], nonce: &[u8], ct: &[u8]) -> (r: Option<Vec<u8>>)
    requires
        key@.len() == 16,
        nonce@.len() == 12,
    ensures
        match r {
            Some(pt) => aes128_gcm_open_of(key@, nonce@, ct@) == Some(pt@),
            None => aes128_gcm_open_of(key@, nonce@, ct@) is None,
        },
{
    let c = <aes_gcm::Aes128Gcm as aes_gcm::KeyInit>::new_from_slice(key).unwrap();
    match aes_gcm::aead::Aead::decrypt(&c, aes_gcm::Nonce::from_slice(nonce), ct) {
        Ok(pt) => Some(pt),
        Err(_) => None,
    }
}

/// Relies on ed25519_dalek::SigningKey::verifying_key: the 32-byte public
/// key is a function of the 32-byte signing key alone.
#[verifier::external_body]
pub fn ed25519_public(secret: &[u8]) -> (r: Vec<u8>)
    requires
        secret@.len() == 32,
    ensures
        r@ == ed25519_public_of(secret@),
        r@.len() == 32,
{
    let mut sk = [0u8; 32];
    sk.copy_from_slice(secret);
    let vk = ed25519_dalek::SigningKey::from_bytes(&sk).verifying_key();
    vk.to_bytes().to_vec()
}

/// Relies on ed25519_dalek::SigningKey::sign: Ed25519 signing is
/// deterministic, so the 64-byte signature is a function of the signing key
/// and the message alone, and a signature so produced verifies under the
/// same key pair's public key.
#[verifier::external_body]
pub fn ed25519_sign(secret: &[u8], data: &[u8]) -> (r: Vec<u8>)
    requires
        secret@.len() == 32,
    ensures
        r@ == ed25519_sign_of(secret@, data@),
        r@.len() == 64,
        ed25519_verify_of(ed25519_public_of(secret@), r@, data@),
{
    let mut sk = [0u8; 32];
    sk.copy_from_slice(secret);
    let sig = ed25519_dalek::Signer::sign(&ed25519_dalek::SigningKey::from_bytes(&sk), data);
    sig.to_bytes().to_vec()
}

/// Relies on ed25519_dalek::VerifyingKey::verify: the verdict is a function
/// of the public key, the signature and the message alone; a key or a
/// signature of the wrong shape fails.
#[verifier::external_body]
pub fn ed25519_verify(public: &[u8], sig: &[u8], data: &[u8]) -> (r: bool)
    ensures
        r == ed25519_verify_of(public@, sig@, data@),
{
    let Ok(pk_bytes) = <[u8; 32]>::try_from(public) else { return false };
    let Ok(vk) = ed25519_dalek::VerifyingKey::from_bytes(&pk_bytes) else { return false };
    let Ok(signature) = ed25519_dalek::Signature::from_slice(sig) else { return false };
    ed25519_dalek::Verifier::verify(&vk, data, &signature).is_ok()
}

/// Relies on hex::encode: two lowercase digits for each byte.
#[verifier::external_body]
pub fn to_hex(b: &[u8]) -> (r: String)
    ensures
        r@.len() == 2 * b@.len(),
{
    hex::encode(b)
}

} // verus!
