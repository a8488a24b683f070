//! Recipient addresses: Base58 text that carries a locking hash between a
//! version byte and a four-byte checksum.

use vstd::prelude::*;
use vstd::slice::slice_subrange;
use crate::bytes::copy_bytes;

verus! {

/// What `bs58::decode` makes of a text with the default alphabet: the bytes,
/// or `None` where the text is not Base58.
pub uninterp spec fn base58_decoded(text: Seq<char>) -> Option<Seq<u8>>;

/// The bytes before the locking hash in a decoded address.
pub const VERSION_LEN: usize = 1;

/// The bytes after the locking hash in a decoded address.
pub const CHECKSUM_LEN: usize = 4;

/// Calls `bs58::decode(..).into_vec()`.
///
/// Trusted: the result is a function of the text alone, and an error of the
/// decoder comes out as `None`.
#[verifier::external_body]
pub(crate) fn base58_decode(text: &str) -> (payload: Option<Vec<u8>>)
    ensures
        payload.is_some() == base58_decoded(text@).is_some(),
        payload.is_some() ==> payload.unwrap()@ == base58_decoded(text@).unwrap(),
{
    match bs58::decode(text).into_vec() {
        Ok(bytes) => Some(bytes),
        Err(_) => None,
    }
}

/// The locking hash inside a decoded address: what lies between the version
/// byte and the checksum. A payload too short to hold both has none.
pub open spec fn payload_locking_hash(payload: Seq<u8>) -> Option<Seq<u8>> {
    if payload.len() >= VERSION_LEN + CHECKSUM_LEN {
        Some(payload.subrange(VERSION_LEN as int, payload.len() - CHECKSUM_LEN))
    } else {
        None
    }
}

/// The locking hash that an address names, if it names one.
pub open spec fn address_locking_hash(address: Seq<char>) -> Option<Seq<u8>> {
    match base58_decoded(address) {
        Some(payload) => payload_locking_hash(payload),
        None => None,
    }
}

/// Cuts the locking hash out of a decoded address.
pub fn locking_hash_of_payload(payload: &[u8]) -> (hash: Option<Vec<u8>>)
    ensures
        hash.is_some() == payload_locking_hash(payload@).is_some(),
        hash.is_some() ==> hash.unwrap()@ == payload_locking_hash(payload@).unwrap(),
{
    if payload.len() >= VERSION_LEN + CHECKSUM_LEN {
        let inner = slice_subrange(payload, VERSION_LEN, payload.len() - CHECKSUM_LEN);
        Some(copy_bytes(inner))
    } else {
        None
    }
}

/// Decodes an address and returns the locking hash it names.
pub fn locking_hash_of_address(address: &str) -> (hash: Option<Vec<u8>>)
    ensures
        hash.is_some() == address_locking_hash(address@).is_some(),
        hash.is_some() ==> hash.unwrap()@ == address_locking_hash(address@).unwrap(),
{
    match base58_decode(address) {
        Some(payload) => locking_hash_of_payload(payload.as_slice()),
        None => None,
    }
}

} // verus!
