use vstd::prelude::*;

use tiny_keccak::Hasher;

verus! {

/// The Keccak-256 digest of a byte sequence. The digest itself is far too
/// involved to state here; the library only relies on it being a fixed
/// function of the input bytes.
pub uninterp spec fn keccak(bytes: Seq<u8>) -> Seq<u8>;

/// Relies on tiny_keccak's Keccak-256: a 32-byte digest that is a function of
/// the input bytes alone.
#[verifier::external_body]
pub(crate) fn keccak256(bytes: &[u8]) -> (r: Vec<u8>)
    ensures
        r@ == keccak(bytes@),
        r@.len() == 32,
{
    let mut output: [u8; 32] = [0u8; 32];
    let mut hasher: tiny_keccak::Keccak = tiny_keccak::Keccak::v256();
    hasher.update(bytes);
    hasher.finalize(&mut output);
    output.to_vec()
}

/// The decimal digits of `n`, most significant first, as ASCII bytes.
pub open spec fn dec_rep(n: nat) -> Seq<u8>
    decreases n,
{
    if n < 10 {
        seq![(n + 48) as u8]
    } else {
        dec_rep(n / 10) + seq![(n % 10 + 48) as u8]
    }
}

/// Renders `n` in decimal ASCII, matching `dec_rep`.
pub fn dec_bytes(n: usize) -> (r: Vec<u8>)
    ensures
        r@ == dec_rep(n as nat),
    decreases n,
{
    if n < 10 {
        let mut v: Vec<u8> = Vec::new();
        v.push((n as u8) + 48);
        assert(v@ =~= dec_rep(n as nat));
        v
    } else {
        let mut v = dec_bytes(n / 10);
        v.push(((n % 10) as u8) + 48);
        assert(v@ =~= dec_rep(n as nat));
        v
    }
}

/// The Ethereum "personal message" prefix, `"\x19Ethereum Signed Message:\n"`.
pub open spec fn eth_prefix() -> Seq<u8> {
    seq![
        25u8, 69u8, 116u8, 104u8, 101u8, 114u8, 101u8, 117u8, 109u8, 32u8, 83u8, 105u8, 103u8,
        110u8, 101u8, 100u8, 32u8, 77u8, 101u8, 115u8, 115u8, 97u8, 103u8, 101u8, 58u8, 10u8,
    ]
}

/// The exact byte string whose digest a wallet signs: the personal-message
/// prefix, then the decimal ASCII length of the message, then the message.
pub open spec fn eth_message(message: Seq<u8>) -> Seq<u8> {
    eth_prefix() + dec_rep(message.len()) + message
}

/// The digest that the wallet signed: Keccak-256 of the prefixed message.
/// Prefixing constrains replay to this specific signing scheme.
pub fn hash_message(message: &[u8]) -> (r: Vec<u8>)
    ensures
        r@ == keccak(eth_message(message@)),
        r@.len() == 32,
{
    let prefix: [u8; 26] = [
        25u8, 69u8, 116u8, 104u8, 101u8, 114u8, 101u8, 117u8, 109u8, 32u8, 83u8, 105u8, 103u8,
        110u8, 101u8, 100u8, 32u8, 77u8, 101u8, 115u8, 115u8, 97u8, 103u8, 101u8, 58u8, 10u8,
    ];
    let mut data: Vec<u8> = Vec::new();
    data.extend_from_slice(&prefix);
    assert(data@ =~= eth_prefix());
    let mut len_digits = dec_bytes(message.len());
    data.append(&mut len_digits);
    data.extend_from_slice(message);
    assert(data@ =~= eth_message(message@));
    keccak256(data.as_slice())
}

} // verus!
