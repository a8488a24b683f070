//! The digest and signature primitives, taken from `ring`.
//!
//! Nothing in this module is proved about the primitives themselves: each
//! wrapper states what the library relies on, and the rest of the crate is
//! verified against those statements.

use vstd::prelude::*;

verus! {

/// The SHA-256 digest of a byte string, as `ring::digest::digest` computes it.
pub uninterp spec fn sha256(data: Seq<u8>) -> Seq<u8>;

/// Whether `ring` accepts `signature` as a fixed-length ECDSA P-256 / SHA-256
/// signature of `message` under the uncompressed public key `public_key`.
pub uninterp spec fn ecdsa_p256_sha256_accepts(
    public_key: Seq<u8>,
    message: Seq<u8>,
    signature: Seq<u8>,
) -> bool;

/// The public key that a PKCS#8 key document holds, as `ring` reads it.
pub uninterp spec fn pkcs8_public_key(pkcs8: Seq<u8>) -> Seq<u8>;

/// The length of a signature: two scalars of 32 bytes.
pub const SIGNATURE_LEN: usize = 64;

/// The primitives hash their input with SHA-256, whose length field holds a
/// bit count in 64 bits: they take fewer than 2^61 bytes.
pub const DIGEST_INPUT_LIMIT: u64 = 0x2000_0000_0000_0000;

/// Whether a byte string of this length can be hashed.
pub open spec fn hashable(len: nat) -> bool {
    len < DIGEST_INPUT_LIMIT
}

/// Calls `ring::digest::digest` with `ring::digest::SHA256`.
///
/// Trusted: the result is the SHA-256 digest of `data`, a function of `data`
/// alone, and is 32 bytes long. `ring` panics on input of 2^61 bytes or more,
/// which the precondition leaves out.
#[verifier::external_body]
pub(crate) fn sha256_digest(data: &[u8]) -> (digest: Vec<u8>)
    requires
        hashable(data@.len()),
    ensures
        digest@ == sha256(data@),
        digest@.len() == 32,
{
    ring::digest::digest(&ring::digest::SHA256, data).as_ref().to_vec()
}

/// Calls `ring::signature::EcdsaKeyPair::from_pkcs8` for
/// `ECDSA_P256_SHA256_FIXED_SIGNING` and returns the pair's public key.
///
/// Trusted: the key returned is the one that the document holds, a function
/// of the document alone; `ring` takes a document only if it holds the public
/// key and that key belongs to the private one. `None` stands for a rejected
/// document or a failing random source.
#[verifier::external_body]
pub(crate) fn public_key_of_pkcs8(pkcs8: &[u8]) -> (public_key: Option<Vec<u8>>)
    ensures
        public_key.is_some() ==> public_key.unwrap()@ == pkcs8_public_key(pkcs8@),
{
    match ring::signature::EcdsaKeyPair::from_pkcs8(
        &ring::signature::ECDSA_P256_SHA256_FIXED_SIGNING,
        pkcs8,
        &ring::rand::SystemRandom::new(),
    ) {
        Ok(key_pair) => Some(ring::signature::KeyPair::public_key(&key_pair).as_ref().to_vec()),
        Err(_) => None,
    }
}

/// Calls `ring::signature::EcdsaKeyPair::from_pkcs8` for
/// `ECDSA_P256_SHA256_FIXED_SIGNING` and then `EcdsaKeyPair::sign`, both with
/// the system's random source.
///
/// Trusted: whichever signature comes back is the two scalars of an ECDSA
/// signature in 32 bytes each, and `ring` accepts it for `message` under the
/// public key of the document. Which signature it is depends on a random
/// nonce and is not stated. `None` stands for a rejected document or a
/// failure of the primitive. `ring` hashes the message, so the precondition
/// bounds its length.
#[verifier::external_body]
pub(crate) fn ecdsa_sign(pkcs8: &[u8], message: &[u8]) -> (signature: Option<Vec<u8>>)
    requires
        hashable(message@.len()),
    ensures
        signature.is_some() ==> signature.unwrap()@.len() == SIGNATURE_LEN,
        signature.is_some() ==> ecdsa_p256_sha256_accepts(
            pkcs8_public_key(pkcs8@),
            message@,
            signature.unwrap()@,
        ),
{
    let rng = ring::rand::SystemRandom::new();
    let algorithm = &ring::signature::ECDSA_P256_SHA256_FIXED_SIGNING;
    match ring::signature::EcdsaKeyPair::from_pkcs8(algorithm, pkcs8, &rng) {
        Ok(key_pair) => match key_pair.sign(&rng, message) {
            Ok(signature) => Some(signature.as_ref().to_vec()),
            Err(_) => None,
        },
        Err(_) => None,
    }
}

/// Calls `ring::signature::UnparsedPublicKey::verify` for
/// `ECDSA_P256_SHA256_FIXED`.
///
/// Trusted: the answer is a function of the three byte strings alone. `ring`
/// hashes the message, so the precondition bounds its length.
#[verifier::external_body]
pub(crate) fn ecdsa_verify(public_key: &[u8], message: &[u8], signature: &[u8]) -> (accepted: bool)
    requires
        hashable(message@.len()),
    ensures
        accepted == ecdsa_p256_sha256_accepts(public_key@, message@, signature@),
{
    ring::signature::UnparsedPublicKey::new(&ring::signature::ECDSA_P256_SHA256_FIXED, public_key)
        .verify(message, signature)
        .is_ok()
}

/// Whether `signature` authorizes `message` under `public_key`: the message is
/// short enough to be hashed and the primitive accepts the signature.
pub open spec fn signature_valid(public_key: Seq<u8>, message: Seq<u8>, signature: Seq<u8>) -> bool {
    hashable(message.len()) && ecdsa_p256_sha256_accepts(public_key, message, signature)
}

/// The locking hash of a public key: its SHA-256 digest.
pub open spec fn pub_key_hash(public_key: Seq<u8>) -> Seq<u8> {
    sha256(public_key)
}

/// Computes the locking hash of a public key.
pub fn hash_pub_key(public_key: &[u8]) -> (hash: Vec<u8>)
    requires
        hashable(public_key@.len()),
    ensures
        hash@ == pub_key_hash(public_key@),
        hash@.len() == 32,
{
    sha256_digest(public_key)
}

/// Signs `message` with the key of a PKCS#8 document. `None` where the
/// message is too long to be hashed or the primitive fails; a signature that
/// comes back has `SIGNATURE_LEN` bytes and is valid for the message under
/// the document's public key.
pub fn sign_message(pkcs8: &[u8], message: &[u8]) -> (signature: Option<Vec<u8>>)
    ensures
        !hashable(message@.len()) ==> signature.is_none(),
        signature.is_some() ==> signature.unwrap()@.len() == SIGNATURE_LEN && signature_valid(
            pkcs8_public_key(pkcs8@),
            message@,
            signature.unwrap()@,
        ),
{
    if fits_digest(message.len()) {
        ecdsa_sign(pkcs8, message)
    } else {
        None
    }
}

/// Whether a length stays below the limit of the digest primitive.
pub fn fits_digest(len: usize) -> (fits: bool)
    ensures
        fits == hashable(len as nat),
{
    (len as u64) < DIGEST_INPUT_LIMIT
}

/// Checks `signature` against `message` under `public_key`.
pub fn check_signature(public_key: &[u8], message: &[u8], signature: &[u8]) -> (valid: bool)
    ensures
        valid == signature_valid(public_key@, message@, signature@),
{
    fits_digest(message.len()) && ecdsa_verify(public_key, message, signature)
}

} // verus!
