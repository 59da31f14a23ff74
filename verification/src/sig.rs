//! Signature verification against the one fixed public key.
//!
//! The device is provisioned with a single ECDSA public key in SEC1 form.
//! A write's trailing bytes must be a DER-encoded ECDSA signature over the
//! 64-byte challenge; "the bytes do not parse as a signature" and "the
//! signature does not verify" are kept apart, since they surface as
//! different protocol error codes.

use vstd::prelude::*;

verus! {

/// Whether a byte string is a valid SEC1 encoding of a public key point.
pub uninterp spec fn sec1_key_ok(key: Seq<u8>) -> bool;

/// Whether a byte string is a well-formed DER encoding of an ECDSA
/// signature.
pub uninterp spec fn der_ok(sig: Seq<u8>) -> bool;

/// Whether the DER-encoded signature `sig` verifies over message `msg`
/// under the public key encoded by the SEC1 bytes `key`; false when `key`
/// is not a valid key encoding. ECDSA verification is a function of these
/// three byte strings alone.
pub uninterp spec fn sig_valid(key: Seq<u8>, msg: Seq<u8>, sig: Seq<u8>) -> bool;

/// How a signature check over one message came out.
#[derive(Clone, Copy, Debug, PartialEq, Eq, Structural)]
pub enum SigCheck {
    /// The bytes parse as a DER signature and it verifies.
    Valid,
    /// The bytes do not parse as a DER signature.
    MalformedEncoding,
    /// The bytes parse, but the signature does not verify.
    InvalidSignature,
}

/// Stateless verifier holding the one fixed public key as the SEC1 bytes
/// it was provisioned with; its view is those bytes.
pub struct SignatureVerifier {
    key_bytes: Vec<u8>,
}

impl View for SignatureVerifier {
    type V = Seq<u8>;

    closed spec fn view(&self) -> Seq<u8> {
        self.key_bytes@
    }
}

impl SignatureVerifier {
    /// Build the verifier from the provisioned SEC1 public-key bytes;
    /// `None` exactly when they are not a valid key encoding.
    ///
    /// Relies on `k256::ecdsa::VerifyingKey::from_sec1_bytes`: it accepts
    /// exactly the valid SEC1 point encodings (compressed or uncompressed),
    /// deterministically in the bytes alone.
    #[verifier::external_body]
    pub fn new(key_bytes: Vec<u8>) -> (r: Option<SignatureVerifier>)
        ensures
            r is Some <==> sec1_key_ok(key_bytes@),
            r matches Some(v) ==> v@ == key_bytes@,
    {
        match k256::ecdsa::VerifyingKey::from_sec1_bytes(key_bytes.as_slice()) {
            Ok(_) => Some(SignatureVerifier { key_bytes }),
            Err(_) => None,
        }
    }

    /// Check the DER-encoded signature `sig_der` over `msg` under the
    /// fixed key, telling a malformed encoding apart from a signature
    /// that does not verify.
    ///
    /// Relies on `k256::ecdsa::Signature::from_der`, which parses exactly
    /// the well-formed DER-encoded ECDSA signatures, deterministically in
    /// the bytes alone; on `k256::ecdsa::VerifyingKey::from_sec1_bytes`,
    /// which rebuilds the same key from the same bytes; and on
    /// `k256::ecdsa::signature::Verifier::verify` for `VerifyingKey`,
    /// whose verdict is a function of the key, the message and the
    /// signature alone.
    #[verifier::external_body]
    pub fn check(&self, msg: &[u8], sig_der: &[u8]) -> (r: SigCheck)
        ensures
            r == (if !der_ok(sig_der@) {
                SigCheck::MalformedEncoding
            } else if sig_valid(self@, msg@, sig_der@) {
                SigCheck::Valid
            } else {
                SigCheck::InvalidSignature
            }),
    {
        let sig = match k256::ecdsa::Signature::from_der(sig_der) {
            Ok(s) => s,
            Err(_) => return SigCheck::MalformedEncoding,
        };
        let key = match k256::ecdsa::VerifyingKey::from_sec1_bytes(self.key_bytes.as_slice()) {
            Ok(k) => k,
            Err(_) => return SigCheck::InvalidSignature,
        };
        match k256::ecdsa::signature::Verifier::verify(&key, msg, &sig) {
            Ok(()) => SigCheck::Valid,
            Err(_) => SigCheck::InvalidSignature,
        }
    }
}

} // verus!
