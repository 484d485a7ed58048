use vstd::prelude::*;

use crate::crypto::{ed25519_public, ed25519_public_of, ed25519_sign, ed25519_sign_of, ed25519_verify, ed25519_verify_of};

verus! {

// Which curve a cipher suite signs with is the signer's own logic; the
// curve arithmetic itself belongs to an outside backend.  The one curve
// whose backend this library carries is Ed25519; the NIST curves are served
// by an outside X.509/ECDSA component.

/// Why a signer could not be built or used.
#[derive(Clone, Copy, Debug, PartialEq, Eq, Structural)]
pub enum EcSignerError {
    /// No supported curve signs for this cipher suite.
    UnsupportedCipherSuite,
    /// The key bytes do not have the curve's size.
    InvalidKeyBytes,
    /// The signature did not verify.
    InvalidSignature,
    /// This curve's arithmetic is served by an outside backend.
    CurveNotCarried,
}

/// The curves a signer can be built over.
#[derive(Clone, Copy, Debug, PartialEq, Eq, Structural)]
pub enum Curve {
    P256,
    P384,
    P521,
    Ed25519,
    Ed448,
}

impl Curve {
    /// The curve that signs for a cipher suite identifier, if any.
    pub open spec fn spec_from_cipher_suite(raw: u16) -> Option<Curve> {
        if raw == 1 || raw == 3 {
            Some(Curve::Ed25519)
        } else if raw == 2 {
            Some(Curve::P256)
        } else if raw == 4 || raw == 6 {
            Some(Curve::Ed448)
        } else if raw == 5 {
            Some(Curve::P521)
        } else if raw == 7 {
            Some(Curve::P384)
        } else {
            None
        }
    }

    pub fn from_cipher_suite(raw: u16) -> (r: Option<Curve>)
        ensures
            r == Self::spec_from_cipher_suite(raw),
    {
        if raw == 1 || raw == 3 {
            Some(Curve::Ed25519)
        } else if raw == 2 {
            Some(Curve::P256)
        } else if raw == 4 || raw == 6 {
            Some(Curve::Ed448)
        } else if raw == 5 {
            Some(Curve::P521)
        } else if raw == 7 {
            Some(Curve::P384)
        } else {
            None
        }
    }

    /// The byte length of the curve's secret keys.
    pub open spec fn spec_secret_key_size(self) -> usize {
        match self {
            Curve::P256 => 32,
            Curve::P384 => 48,
            Curve::P521 => 66,
            Curve::Ed25519 => 32,
            Curve::Ed448 => 57,
        }
    }

    pub fn secret_key_size(self) -> (r: usize)
        ensures
            r == self.spec_secret_key_size(),
    {
        match self {
            Curve::P256 => 32,
            Curve::P384 => 48,
            Curve::P521 => 66,
            Curve::Ed25519 => 32,
            Curve::Ed448 => 57,
        }
    }
}

/// A signer bound to the curve its cipher suite asks for.
#[derive(Clone, Copy, Debug, PartialEq, Eq, Structural)]
pub struct EcSigner {
    pub curve: Curve,
}

impl EcSigner {
    /// The signer for a cipher suite.  Succeeds exactly when some supported
    /// curve signs for it.
    pub fn new(cipher_suite: u16) -> (r: Result<EcSigner, EcSignerError>)
        ensures
            match r {
                Ok(s) => Curve::spec_from_cipher_suite(cipher_suite) == Some(s.curve),
                Err(e) => e == EcSignerError::UnsupportedCipherSuite
                    && Curve::spec_from_cipher_suite(cipher_suite) is None,
            },
    {
        match Curve::from_cipher_suite(cipher_suite) {
            Some(curve) => Ok(EcSigner { curve }),
            None => Err(EcSignerError::UnsupportedCipherSuite),
        }
    }

    pub fn secret_key_size(&self) -> (r: usize)
        ensures
            r == self.curve.spec_secret_key_size(),
    {
        self.curve.secret_key_size()
    }

    /// The public key of a secret key, for the curve this library carries.
    pub fn signature_key_derive_public(&self, secret_key: &Vec<u8>) -> (r: Result<
        Vec<u8>,
        EcSignerError,
    >)
        ensures
            match r {
                Ok(pk) => self.curve == Curve::Ed25519 && secret_key@.len() == 32 && pk@
                    == ed25519_public_of(secret_key@),
                Err(e) => e == EcSignerError::CurveNotCarried && self.curve != Curve::Ed25519 || e
                    == EcSignerError::InvalidKeyBytes && secret_key@.len() != 32,
            },
    {
        if !matches!(self.curve, Curve::Ed25519) {
            return Err(EcSignerError::CurveNotCarried);
        }
        if secret_key.len() != 32 {
            return Err(EcSignerError::InvalidKeyBytes);
        }
        Ok(ed25519_public(secret_key.as_slice()))
    }

    /// Signs, for the curve this library carries; the signature verifies
    /// under the same key pair's public key.
    pub fn sign(&self, secret_key: &Vec<u8>, data: &Vec<u8>) -> (r: Result<Vec<u8>, EcSignerError>)
        ensures
            match r {
                Ok(sig) => self.curve == Curve::Ed25519 && secret_key@.len() == 32 && sig@
                    == ed25519_sign_of(secret_key@, data@) && ed25519_verify_of(
                    ed25519_public_of(secret_key@),
                    sig@,
                    data@,
                ),
                Err(e) => e == EcSignerError::CurveNotCarried && self.curve != Curve::Ed25519 || e
                    == EcSignerError::InvalidKeyBytes && secret_key@.len() != 32,
            },
    {
        if !matches!(self.curve, Curve::Ed25519) {
            return Err(EcSignerError::CurveNotCarried);
        }
        if secret_key.len() != 32 {
            return Err(EcSignerError::InvalidKeyBytes);
        }
        Ok(ed25519_sign(secret_key.as_slice(), data.as_slice()))
    }

    /// Verifies, for the curve this library carries: a key of the wrong
    /// shape is a key-decoding error, and otherwise the verdict is exactly
    /// the scheme's.
    pub fn verify(&self, public_key: &Vec<u8>, signature: &Vec<u8>, data: &Vec<u8>) -> (r: Result<
        (),
        EcSignerError,
    >)
        ensures
            match r {
                Ok(()) => self.curve == Curve::Ed25519 && public_key@.len() == 32
                    && ed25519_verify_of(public_key@, signature@, data@),
                Err(e) => e == EcSignerError::CurveNotCarried && self.curve != Curve::Ed25519 || e
                    == EcSignerError::InvalidKeyBytes && self.curve == Curve::Ed25519
                    && public_key@.len() != 32 || e == EcSignerError::InvalidSignature
                    && self.curve == Curve::Ed25519 && public_key@.len() == 32
                    && !ed25519_verify_of(public_key@, signature@, data@),
            },
    {
        if !matches!(self.curve, Curve::Ed25519) {
            return Err(EcSignerError::CurveNotCarried);
        }
        if public_key.len() != 32 {
            return Err(EcSignerError::InvalidKeyBytes);
        }
        if ed25519_verify(public_key.as_slice(), signature.as_slice(), data.as_slice()) {
            Ok(())
        } else {
            Err(EcSignerError::InvalidSignature)
        }
    }
}

} // verus!
