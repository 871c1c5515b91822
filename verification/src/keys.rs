use vstd::prelude::*;

use crate::hashing::{keccak, keccak256};

verus! {

/// The 32-byte symmetric key: the Keccak-256 digest of the UTF-8 bytes of the
/// signature string. A function of the signature alone.
pub fn generate_key_from_signature(signature: &[u8]) -> (r: Vec<u8>)
    ensures
        r@ == keccak(signature@),
        r@.len() == 32,
{
    keccak256(signature)
}

/// The 19-byte stream nonce: the first 19 bytes of the Keccak-256 digest of
/// the UTF-8 bytes of the password. A function of the password alone.
pub fn generate_nonce_from_password(password: &[u8]) -> (r: Vec<u8>)
    ensures
        r@ == keccak(password@).take(19),
        r@.len() == 19,
{
    let mut digest = keccak256(password);
    digest.truncate(19);
    digest
}

/// Law: key derivation is deterministic. Any two values that
/// `generate_key_from_signature` returns for the same signature bytes are
/// byte-identical, since each equals the signature's digest.
pub proof fn lemma_key_derivation_deterministic(signature: Seq<u8>, k1: Seq<u8>, k2: Seq<u8>)
    requires
        k1 == keccak(signature),
        k2 == keccak(signature),
    ensures
        k1 == k2,
{
}

/// Law: nonce derivation is deterministic. Any two values that
/// `generate_nonce_from_password` returns for the same password bytes are
/// byte-identical, since each is a prefix of the password's digest.
pub proof fn lemma_nonce_derivation_deterministic(password: Seq<u8>, n1: Seq<u8>, n2: Seq<u8>)
    requires
        n1 == keccak(password).take(19),
        n2 == keccak(password).take(19),
    ensures
        n1 == n2,
{
}

} // verus!
