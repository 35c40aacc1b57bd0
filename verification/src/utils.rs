//! Identifier generation: a fresh identifier is the 29-byte prefix of the
//! SHA-256 digest of the parent identifier's text (its lowercase hex)
//! joined to the current time with `-`.

use vstd::prelude::*;

verus! {

use crate::crypto::sha256;
use crate::crypto::sha256_of;
use crate::ids::dec_bytes;
use crate::ids::dec_bytes_of;
use crate::ids::hex_bytes;
use crate::ids::hex_bytes_of;
use crate::ids::Id;

/// The ASCII hyphen joining parent text and time.
pub const ID_SEPARATOR: u8 = 45;

/// The input a fresh identifier digests: parent text, `-`, decimal time.
pub open spec fn unique_id_input(parent: Seq<u8>, now: u64) -> Seq<u8> {
    hex_bytes_of(parent) + seq![ID_SEPARATOR] + dec_bytes_of(now as nat)
}

/// The identifier derived from a parent at a time: the first 29 bytes of
/// the digest of `"{parent}-{now}"`.
pub open spec fn unique_id_of(parent: Seq<u8>, now: u64) -> Seq<u8> {
    sha256_of(unique_id_input(parent, now)).take(29)
}

/// Derives a fresh identifier from a parent identifier and the time.
pub fn generate_unique_principal(principal: &Id, now: u64) -> (r: Id)
    ensures
        r@ == unique_id_of(principal@, now),
        r@.len() == 29,
{
    let mut input = hex_bytes(&principal.bytes);
    input.push(ID_SEPARATOR);
    let mut time_part = dec_bytes(now);
    input.append(&mut time_part);
    assert(input@ =~= unique_id_input(principal@, now));
    let digest = sha256(&input);
    let mut bytes: Vec<u8> = Vec::new();
    let mut i: usize = 0;
    while i < 29
        invariant
            i <= 29,
            digest@.len() == 32,
            digest@ == sha256_of(unique_id_input(principal@, now)),
            bytes@ == digest@.take(i as int),
        decreases 29 - i,
    {
        bytes.push(digest[i]);
        assert(bytes@ =~= digest@.take(i + 1));
        i = i + 1;
    }
    Id::from_bytes(bytes)
}

} // verus!

verus! {

/// Greets by name.
pub fn greet(name: String) -> (r: String)
    ensures
        r@ == "Hello, "@ + name@ + "!"@,
{
    let mut s = String::from_str("Hello, ");
    s.append(name.as_str());
    s.append("!");
    assert(s@ =~= "Hello, "@ + name@ + "!"@);
    s
}

} // verus!
