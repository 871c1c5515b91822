use vstd::prelude::*;

use crate::errors::WabaError;
use crate::hashing::{eth_message, hash_message, keccak, keccak256};
use crate::hexcodec::{
    hex_decode, hex_decode_spec, hex_encode, hex_encode_spec, is_lower_hex_digit,
    lemma_hex_encode_spec_len, lemma_hex_encode_spec_lower,
};

verus! {

/// ASCII lowercasing of one byte: `A`..`Z` map to `a`..`z`, all else unchanged.
pub open spec fn lower_byte(b: u8) -> u8 {
    if 65 <= b <= 90 {
        (b + 32) as u8
    } else {
        b
    }
}

/// ASCII lowercasing of a byte string.
pub open spec fn lower_bytes(s: Seq<u8>) -> Seq<u8> {
    s.map_values(|b: u8| lower_byte(b))
}

/// Normalizes a claimed address to lowercase. Addresses are hexadecimal, so
/// ASCII case folding is all the comparison ever needs.
pub fn to_lowercase_ascii(s: &[u8]) -> (r: Vec<u8>)
    ensures
        r@ == lower_bytes(s@),
{
    let mut out: Vec<u8> = Vec::new();
    let mut i: usize = 0;
    while i < s.len()
        invariant
            i <= s@.len(),
            out@ == lower_bytes(s@).take(i as int),
        decreases s@.len() - i,
    {
        let b = s[i];
        let lb: u8 = if b >= 65 && b <= 90 {
            b + 32
        } else {
            b
        };
        out.push(lb);
        proof {
            assert(lower_bytes(s@)[i as int] == lower_byte(s@[i as int]));
            assert(out@ =~= lower_bytes(s@).take(i + 1));
        }
        i += 1;
    }
    proof {
        assert(out@ =~= lower_bytes(s@));
    }
    out
}

/// Byte-string equality.
pub fn bytes_eq(a: &[u8], b: &[u8]) -> (r: bool)
    ensures
        r == (a@ == b@),
{
    if a.len() != b.len() {
        return false;
    }
    let mut i: usize = 0;
    while i < a.len()
        invariant
            i <= a@.len(),
            a@.len() == b@.len(),
            forall|j: int| 0 <= j < i ==> a@[j] == b@[j],
        decreases a@.len() - i,
    {
        if a[i] != b[i] {
            return false;
        }
        i += 1;
    }
    proof {
        assert(a@ =~= b@);
    }
    true
}

/// The uncompressed public key that secp256k1 recovers from a 32-byte digest,
/// a 64-byte compact signature and a recovery id, or `None` where the curve
/// library rejects the triple. A function of its arguments alone.
pub uninterp spec fn ecdsa_recover(digest: Seq<u8>, sig: Seq<u8>, recid: int) -> Option<Seq<u8>>;

/// Relies on secp256k1: `Message::from_digest` takes a 32-byte digest,
/// `RecoveryId::try_from` accepts exactly 0..=3, `from_compact` wants exactly
/// 64 bytes, `recover_ecdsa` is deterministic recovery, and
/// `serialize_uncompressed` yields 65 bytes.
#[verifier::external_body]
fn secp_recover_uncompressed(digest: &[u8], sig64: &[u8], recid: i32) -> (r: Option<Vec<u8>>)
    ensures
        digest@.len() == 32 && sig64@.len() == 64 && 0 <= recid <= 3 ==> {
            &&& (r is Some <==> ecdsa_recover(digest@, sig64@, recid as int) is Some)
            &&& (r matches Some(pk) ==> Some(pk@) == ecdsa_recover(digest@, sig64@, recid as int)
                && pk@.len() == 65)
        },
        !(digest@.len() == 32 && sig64@.len() == 64 && 0 <= recid <= 3) ==> r is None,
{
    let digest_arr: [u8; 32] = digest.try_into().ok()?;
    let id = secp256k1::ecdsa::RecoveryId::try_from(recid).ok()?;
    let sig = secp256k1::ecdsa::RecoverableSignature::from_compact(sig64, id).ok()?;
    let pk = sig.recover_ecdsa(secp256k1::Message::from_digest(digest_arr)).ok()?;
    Some(pk.serialize_uncompressed().to_vec())
}

/// The wallet address belonging to an uncompressed public key: `0x` followed
/// by the lowercase hex rendering of the last 20 bytes of the Keccak-256
/// digest of the key without its curve-point prefix byte.
pub open spec fn address_of_pubkey(pk: Seq<u8>) -> Seq<u8> {
    seq![48u8, 120u8] + hex_encode_spec(keccak(pk.skip(1)).skip(12))
}

/// What `recover` returns: the address of the recovered key, if any.
pub open spec fn recover_spec(digest: Seq<u8>, sig: Seq<u8>, recid: int) -> Option<Seq<u8>> {
    match ecdsa_recover(digest, sig, recid) {
        Some(pk) => Some(address_of_pubkey(pk)),
        None => None,
    }
}

/// Recovers the signing wallet's address from a signed digest: public-key
/// recovery on the curve, then Ethereum-style address hashing of the
/// uncompressed key. The address is always the 42-byte lowercase rendering
/// `0x` plus 40 hex digits. Fails with `PublicKeyRecoveryFailed` exactly when
/// the curve library rejects the signature.
pub fn recover(message: &[u8], signature: &[u8], recovery_id: i32) -> (r: Result<
    Vec<u8>,
    WabaError,
>)
    requires
        message@.len() == 32,
        signature@.len() == 64,
        0 <= recovery_id <= 3,
    ensures
        r matches Ok(a) ==> recover_spec(message@, signature@, recovery_id as int) == Some(a@)
            && a@.len() == 42 && a@[0] == 48 && a@[1] == 120 && lower_bytes(a@) == a@,
        r is Err ==> r == Err::<Vec<u8>, WabaError>(WabaError::PublicKeyRecoveryFailed)
            && recover_spec(message@, signature@, recovery_id as int) is None,
{
    match secp_recover_uncompressed(message, signature, recovery_id) {
        Some(pk) => {
            let body = &pk.as_slice()[1..65];
            proof {
                assert(body@ =~= pk@.skip(1));
            }
            let digest = keccak256(body);
            let tail = &digest.as_slice()[12..32];
            proof {
                assert(tail@ =~= keccak(pk@.skip(1)).skip(12));
            }
            let hx = hex_encode(tail);
            let mut out: Vec<u8> = Vec::new();
            out.push(48);
            out.push(120);
            out.extend_from_slice(hx.as_slice());
            proof {
                assert(out@ =~= address_of_pubkey(pk@));
                lemma_hex_encode_spec_len(tail@);
                lemma_hex_encode_spec_lower(tail@);
                assert forall|i: int| 0 <= i < out@.len() implies lower_bytes(out@)[i] == out@[i] by {
                    assert(lower_bytes(out@)[i] == lower_byte(out@[i]));
                    if i >= 2 {
                        assert(out@[i] == hex_encode_spec(tail@)[i - 2]);
                        assert(is_lower_hex_digit(out@[i]));
                    }
                }
                assert(lower_bytes(out@) =~= out@);
            }
            Ok(out)
        },
        None => Err(WabaError::PublicKeyRecoveryFailed),
    }
}

/// The digest the wallet signed for a given password.
pub open spec fn personal_digest(password: Seq<u8>) -> Seq<u8> {
    keccak(eth_message(password))
}

/// The exact outcome of the authentication gate for every input:
/// a malformed or non-65-byte signature is `InvalidSignatureFormat`; a
/// recovery byte outside 27..=30 is `InvalidRecoveryId`; a signature the curve
/// rejects is `PublicKeyRecoveryFailed`; a recovered address other than the
/// lowercased claimed address is `SignatureMismatch`; all else succeeds.
pub open spec fn verify_spec(address: Seq<u8>, password: Seq<u8>, signature: Seq<u8>) -> Result<
    (),
    WabaError,
> {
    if signature.len() < 2 {
        Err(WabaError::InvalidSignatureFormat)
    } else {
        match hex_decode_spec(signature.skip(2)) {
            None => Err(WabaError::InvalidSignatureFormat),
            Some(sig) => {
                if sig.len() != 65 {
                    Err(WabaError::InvalidSignatureFormat)
                } else if !(27 <= sig[64] <= 30) {
                    Err(WabaError::InvalidRecoveryId)
                } else {
                    match ecdsa_recover(personal_digest(password), sig.take(64), sig[64] - 27) {
                        None => Err(WabaError::PublicKeyRecoveryFailed),
                        Some(pk) => if address_of_pubkey(pk) == lower_bytes(address) {
                            Ok(())
                        } else {
                            Err(WabaError::SignatureMismatch)
                        },
                    }
                }
            },
        }
    }
}

/// The authentication gate: recovers the wallet address from the signature
/// over the password's personal-message digest and compares it with the
/// claimed address. It reads nothing but its three arguments — no file is
/// opened whichever way it decides — and both encryption and decryption
/// require it to succeed before any file content is touched (the pipeline's
/// invariant `io_started ==> verified` keeps the stages behind it).
pub fn verify_password_from_signature(address: &[u8], password: &[u8], signature: &[u8]) -> (r:
    Result<(), WabaError>)
    ensures
        r == verify_spec(address@, password@, signature@),
{
    if signature.len() < 2 {
        return Err(WabaError::InvalidSignatureFormat);
    }
    let hex_part = &signature[2..signature.len()];
    proof {
        assert(hex_part@ =~= signature@.skip(2));
    }
    let sig_vec = match hex_decode(hex_part) {
        Some(v) => v,
        None => return Err(WabaError::InvalidSignatureFormat),
    };
    if sig_vec.len() != 65 {
        return Err(WabaError::InvalidSignatureFormat);
    }
    let rb: u8 = sig_vec[64];
    if rb < 27 || rb > 30 {
        return Err(WabaError::InvalidRecoveryId);
    }
    let recid: i32 = rb as i32 - 27;
    let digest = hash_message(password);
    let rs = &sig_vec.as_slice()[0..64];
    proof {
        assert(rs@ =~= sig_vec@.take(64));
    }
    match recover(digest.as_slice(), rs, recid) {
        Ok(addr) => {
            let claimed = to_lowercase_ascii(address);
            if bytes_eq(addr.as_slice(), claimed.as_slice()) {
                Ok(())
            } else {
                Err(WabaError::SignatureMismatch)
            }
        },
        Err(e) => Err(e),
    }
}

} // verus!
