//! Cryptographic primitives behind named results: SHA-256 digests and
//! secp256k1 ECDSA key handling, signing and verification. Each executable
//! item here wraps one operation of an outside crate; the names below stand
//! for what those operations return, so that callers' contracts can be exact
//! without restating the algorithms.

use vstd::prelude::*;

verus! {

use k256::ecdsa::signature::Signer;
use k256::ecdsa::signature::Verifier;
use k256::elliptic_curve::sec1::ToEncodedPoint;

/// The SHA-256 digest (32 bytes) of a byte sequence.
pub uninterp spec fn sha256_of(data: Seq<u8>) -> Seq<u8>;

/// Whether 32 bytes are a well-formed secp256k1 secret key
/// (a nonzero scalar; what `SigningKey::from_slice` accepts).
pub uninterp spec fn secret_key_ok(sk: Seq<u8>) -> bool;

/// The uncompressed SEC1 encoding (65 bytes) of the public key derived
/// from a secret key.
pub uninterp spec fn pubkey_of(sk: Seq<u8>) -> Seq<u8>;

/// Whether bytes are a well-formed SEC1 public-key encoding
/// (what `VerifyingKey::from_encoded_point` accepts).
pub uninterp spec fn sec1_pubkey_ok(pk: Seq<u8>) -> bool;

/// Whether 64 bytes parse as an ECDSA signature
/// (what `Signature::from_slice` accepts).
pub uninterp spec fn sig_parses(sig: Seq<u8>) -> bool;

/// The deterministic (RFC 6979) ECDSA signature of a message under a
/// secret key, as 64 bytes `r || s`.
pub uninterp spec fn sig_of(sk: Seq<u8>, msg: Seq<u8>) -> Seq<u8>;

/// Whether a signature verifies for a message under a SEC1 public key
/// (what `VerifyingKey::verify` reports).
pub uninterp spec fn ecdsa_ver(pk: Seq<u8>, msg: Seq<u8>, sig: Seq<u8>) -> bool;

/// Relies on `sha2::Sha256`: the digest is 32 bytes and depends on the
/// input bytes alone.
#[verifier::external_body]
pub(crate) fn sha256(data: &Vec<u8>) -> (r: Vec<u8>)
    ensures
        r@ == sha256_of(data@),
        r@.len() == 32,
{
    let mut hasher = <sha2::Sha256 as sha2::Digest>::new();
    sha2::Digest::update(&mut hasher, data.as_slice());
    <sha2::Sha256 as sha2::Digest>::finalize(hasher).to_vec()
}

/// Relies on `k256::ecdsa::SigningKey::random`: draws a fresh secret key;
/// every outcome is 32 bytes and a well-formed secret key. Nothing else can
/// be said of a random result.
#[verifier::external_body]
pub(crate) fn gen_secret_key() -> (r: Vec<u8>)
    ensures
        r@.len() == 32,
        secret_key_ok(r@),
{
    let mut rng = <rand::rngs::StdRng as rand::SeedableRng>::from_entropy();
    let sk = k256::ecdsa::SigningKey::random(&mut rng);
    sk.to_bytes().to_vec()
}

/// Relies on `k256::ecdsa::SigningKey::from_slice` and `verifying_key`:
/// succeeds exactly on well-formed secret keys and returns the uncompressed
/// SEC1 encoding of the derived public key, which parses back.
#[verifier::external_body]
pub(crate) fn derive_pubkey(sk: &Vec<u8>) -> (r: Option<Vec<u8>>)
    ensures
        r is Some <==> secret_key_ok(sk@),
        r is Some ==> r->0@ == pubkey_of(sk@),
        r is Some ==> pubkey_of(sk@).len() == 65,
        r is Some ==> sec1_pubkey_ok(pubkey_of(sk@)),
{
    let key = k256::ecdsa::SigningKey::from_slice(sk.as_slice()).ok()?;
    Some(key.verifying_key().to_encoded_point(false).as_bytes().to_vec())
}

/// Relies on `k256::ecdsa::SigningKey::from_slice` and `sign` (deterministic
/// per RFC 6979): succeeds exactly on well-formed secret keys; the 64-byte
/// signature depends on key and message alone, parses as a signature, and
/// verifies for that message under the derived public key.
#[verifier::external_body]
pub(crate) fn ecdsa_sign(sk: &Vec<u8>, msg: &Vec<u8>) -> (r: Option<Vec<u8>>)
    ensures
        r is Some <==> secret_key_ok(sk@),
        r is Some ==> r->0@ == sig_of(sk@, msg@),
        r is Some ==> sig_of(sk@, msg@).len() == 64,
        r is Some ==> sig_parses(sig_of(sk@, msg@)),
        r is Some ==> sec1_pubkey_ok(pubkey_of(sk@)),
        r is Some ==> ecdsa_ver(pubkey_of(sk@), msg@, sig_of(sk@, msg@)),
{
    let key = k256::ecdsa::SigningKey::from_slice(sk.as_slice()).ok()?;
    let sig: k256::ecdsa::Signature = key.sign(msg.as_slice());
    Some(sig.to_bytes().to_vec())
}

/// Relies on `k256::EncodedPoint::from_bytes` and
/// `VerifyingKey::from_encoded_point`: reports whether bytes are a
/// well-formed SEC1 public-key encoding.
#[verifier::external_body]
pub(crate) fn pubkey_parses(pk: &Vec<u8>) -> (r: bool)
    ensures
        r == sec1_pubkey_ok(pk@),
{
    match k256::EncodedPoint::from_bytes(pk.as_slice()) {
        Ok(point) => k256::ecdsa::VerifyingKey::from_encoded_point(&point).is_ok(),
        Err(_) => false,
    }
}

/// Relies on `k256::ecdsa::Signature::from_slice`: reports whether bytes
/// parse as a signature.
#[verifier::external_body]
pub(crate) fn signature_parses(sig: &Vec<u8>) -> (r: bool)
    ensures
        r == sig_parses(sig@),
{
    k256::ecdsa::Signature::from_slice(sig.as_slice()).is_ok()
}

/// Relies on `k256::ecdsa::VerifyingKey::verify`: reports whether the
/// signature verifies for the message under the public key. The key and
/// signature are required to parse, so the unwraps cannot fail.
#[verifier::external_body]
pub(crate) fn ecdsa_verify(pk: &Vec<u8>, msg: &Vec<u8>, sig: &Vec<u8>) -> (r: bool)
    requires
        sec1_pubkey_ok(pk@),
        sig_parses(sig@),
    ensures
        r == ecdsa_ver(pk@, msg@, sig@),
{
    let point = k256::EncodedPoint::from_bytes(pk.as_slice()).unwrap();
    let key = k256::ecdsa::VerifyingKey::from_encoded_point(&point).unwrap();
    let signature = k256::ecdsa::Signature::from_slice(sig.as_slice()).unwrap();
    key.verify(msg.as_slice(), &signature).is_ok()
}

} // verus!
