//! The code protocol: canonical messages, code generation (sign) and code
//! checking (verify). A unique code is the hex of an ECDSA signature over
//! the SHA-256 digest of a canonical ASCII message; identifiers appear in
//! messages as lowercase hex, numbers in decimal, with `_` between fields.

use vstd::prelude::*;

verus! {

use crate::crypto::ecdsa_sign;
use crate::crypto::ecdsa_ver;
use crate::crypto::ecdsa_verify;
use crate::crypto::pubkey_of;
use crate::crypto::pubkey_parses;
use crate::crypto::secret_key_ok;
use crate::crypto::sha256;
use crate::crypto::sha256_of;
use crate::crypto::sig_of;
use crate::crypto::sig_parses;
use crate::crypto::signature_parses;
use crate::hexstr::hex_decode;
use crate::hexstr::hex_decoded;
use crate::hexstr::hex_encode;
use crate::hexstr::hex_of;
use crate::hexstr::is_hex_seq;
use crate::hexstr::lemma_hex_of_is_hex_seq;
use crate::hexstr::lemma_hex_round_trip;
use crate::ids::dec_bytes;
use crate::ids::dec_bytes_of;
use crate::ids::hex_bytes;
use crate::ids::hex_bytes_of;
use crate::ids::Id;

/// The ASCII underscore separating message fields.
pub const FIELD_SEPARATOR: u8 = 95;

/// Canonical message a product code signs:
/// `"{product_id}_{serial_no}_{print_version}"`.
pub open spec fn product_msg(pid: Seq<u8>, sn: Seq<u8>, version: nat) -> Seq<u8> {
    hex_bytes_of(pid) + seq![FIELD_SEPARATOR] + hex_bytes_of(sn) + seq![FIELD_SEPARATOR]
        + dec_bytes_of(version)
}

/// Canonical message a reseller code signs:
/// `"{reseller_id}_{timestamp}_{context}"` (context empty when absent).
pub open spec fn reseller_msg(rid: Seq<u8>, timestamp: nat, ctx: Seq<u8>) -> Seq<u8> {
    hex_bytes_of(rid) + seq![FIELD_SEPARATOR] + dec_bytes_of(timestamp) + seq![FIELD_SEPARATOR]
        + ctx
}

/// The bytes a verification context contributes: the UTF-8 of the string,
/// nothing when absent.
pub open spec fn context_bytes(ctx: Option<Seq<char>>) -> Seq<u8> {
    match ctx {
        Some(s) => vstd::utf8::encode_utf8(s),
        None => Seq::empty(),
    }
}

/// Builds the canonical product message.
pub fn build_product_msg(product_id: &Id, serial_no: &Id, version: u8) -> (r: Vec<u8>)
    ensures
        r@ == product_msg(product_id@, serial_no@, version as nat),
{
    let mut msg = hex_bytes(&product_id.bytes);
    msg.push(FIELD_SEPARATOR);
    let mut sn_part = hex_bytes(&serial_no.bytes);
    msg.append(&mut sn_part);
    msg.push(FIELD_SEPARATOR);
    let mut ver_part = dec_bytes(version as u64);
    msg.append(&mut ver_part);
    assert(msg@ =~= product_msg(product_id@, serial_no@, version as nat));
    msg
}

/// Builds the canonical reseller message.
pub fn build_reseller_msg(reseller_id: &Id, timestamp: u64, context: &Option<String>) -> (r: Vec<
    u8,
>)
    ensures
        r@ == reseller_msg(reseller_id@, timestamp as nat, context_bytes(context.deep_view())),
{
    let mut msg = hex_bytes(&reseller_id.bytes);
    msg.push(FIELD_SEPARATOR);
    let mut ts_part = dec_bytes(timestamp);
    msg.append(&mut ts_part);
    msg.push(FIELD_SEPARATOR);
    match context {
        Some(s) => {
            let mut ctx_part = s.as_str().as_bytes_vec();
            msg.append(&mut ctx_part);
        },
        None => {},
    }
    assert(msg@ =~= reseller_msg(
        reseller_id@,
        timestamp as nat,
        context_bytes(context.deep_view()),
    ));
    msg
}

/// Whether a hex code is the valid signature of a canonical message under
/// a hex public key.
pub open spec fn code_valid(pk_hex: Seq<char>, msg: Seq<u8>, code_hex: Seq<char>) -> bool {
    &&& is_hex_seq(pk_hex)
    &&& crate::crypto::sec1_pubkey_ok(hex_decoded(pk_hex))
    &&& is_hex_seq(code_hex)
    &&& sig_parses(hex_decoded(code_hex))
    &&& ecdsa_ver(hex_decoded(pk_hex), sha256_of(msg), hex_decoded(code_hex))
}

/// How a code check can come out.
#[derive(Clone, Copy, PartialEq, Eq, Structural, Debug)]
pub enum CodeCheck {
    /// The stored public key does not decode or parse: storage corruption,
    /// not bad input.
    BadKey,
    /// The presented code does not decode or parse as a signature.
    BadSignature,
    /// Key and code parse, but the signature does not match the message.
    Mismatch,
    /// The code is the message's signature under the key.
    Valid,
}

/// Checks a hex-encoded code against a canonical message and a
/// hex-encoded SEC1 public key.
pub fn check_code(public_key_hex: &str, msg: &Vec<u8>, code: &str) -> (r: CodeCheck)
    ensures
        (r is BadKey) <==> !(is_hex_seq(public_key_hex@) && crate::crypto::sec1_pubkey_ok(
            hex_decoded(public_key_hex@),
        )),
        (r is BadSignature) <==> (is_hex_seq(public_key_hex@) && crate::crypto::sec1_pubkey_ok(
            hex_decoded(public_key_hex@),
        ) && !(is_hex_seq(code@) && sig_parses(hex_decoded(code@)))),
        (r is Valid) <==> code_valid(public_key_hex@, msg@, code@),
{
    let pk_bytes = match hex_decode(public_key_hex) {
        Some(b) => b,
        None => {
            return CodeCheck::BadKey;
        },
    };
    if !pubkey_parses(&pk_bytes) {
        return CodeCheck::BadKey;
    }
    let sig_bytes = match hex_decode(code) {
        Some(b) => b,
        None => {
            return CodeCheck::BadSignature;
        },
    };
    if !signature_parses(&sig_bytes) {
        return CodeCheck::BadSignature;
    }
    let digest = sha256(msg);
    if ecdsa_verify(&pk_bytes, &digest, &sig_bytes) {
        CodeCheck::Valid
    } else {
        CodeCheck::Mismatch
    }
}

/// Why signing could not proceed: the stored key is corrupt.
#[derive(Clone, Copy, PartialEq, Eq, Structural, Debug)]
pub enum SignCodeError {
    /// The stored secret key is not hex.
    MalformedKey,
    /// The bytes are not a usable secret key.
    InvalidKey,
}

/// Signs a canonical message with a hex-encoded secret key and returns the
/// hex-encoded signature — the unique code. The code is guaranteed to
/// check out against the key's public counterpart and this very message.
pub fn sign_code(private_key_hex: &str, msg: &Vec<u8>) -> (r: Result<String, SignCodeError>)
    ensures
        r is Ok <==> is_hex_seq(private_key_hex@) && secret_key_ok(hex_decoded(private_key_hex@)),
        r matches Ok(code) ==> {
            let sk = hex_decoded(private_key_hex@);
            &&& code@ == hex_of(sig_of(sk, sha256_of(msg@)))
            &&& code_valid(hex_of(pubkey_of(sk)), msg@, code@)
        },
        r matches Err(e) ==> (e is MalformedKey <==> !is_hex_seq(private_key_hex@)),
{
    let sk_bytes = match hex_decode(private_key_hex) {
        Some(b) => b,
        None => {
            return Err(SignCodeError::MalformedKey);
        },
    };
    let digest = sha256(msg);
    let sig = match ecdsa_sign(&sk_bytes, &digest) {
        Some(s) => s,
        None => {
            return Err(SignCodeError::InvalidKey);
        },
    };
    let code = hex_encode(&sig);
    proof {
        let sk = hex_decoded(private_key_hex@);
        lemma_hex_of_is_hex_seq(pubkey_of(sk));
        lemma_hex_round_trip(pubkey_of(sk));
        lemma_hex_of_is_hex_seq(sig_of(sk, sha256_of(msg@)));
        lemma_hex_round_trip(sig_of(sk, sha256_of(msg@)));
    }
    Ok(code)
}

/// A code produced by `sign_code` verifies: for a well-formed secret key,
/// the hex signature of a message is a valid code for that message under
/// the hex of the derived public key.
pub proof fn lemma_signed_code_verifies(sk: Seq<u8>, msg: Seq<u8>)
    requires
        secret_key_ok(sk),
        crate::crypto::sec1_pubkey_ok(pubkey_of(sk)),
        sig_parses(sig_of(sk, sha256_of(msg))),
        ecdsa_ver(pubkey_of(sk), sha256_of(msg), sig_of(sk, sha256_of(msg))),
    ensures
        code_valid(hex_of(pubkey_of(sk)), msg, hex_of(sig_of(sk, sha256_of(msg)))),
{
    lemma_hex_of_is_hex_seq(pubkey_of(sk));
    lemma_hex_round_trip(pubkey_of(sk));
    lemma_hex_of_is_hex_seq(sig_of(sk, sha256_of(msg)));
    lemma_hex_round_trip(sig_of(sk, sha256_of(msg)));
}

} // verus!
