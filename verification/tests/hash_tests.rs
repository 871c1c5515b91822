use wabasen::hashing::hash_message;
use wabasen::keys::{generate_key_from_signature, generate_nonce_from_password};

fn keccak_reference(bytes: &[u8]) -> [u8; 32] {
    let mut out = [0u8; 32];
    let mut hasher = tiny_keccak::Keccak::v256();
    tiny_keccak::Hasher::update(&mut hasher, bytes);
    tiny_keccak::Hasher::finalize(hasher, &mut out);
    out
}

#[test]
fn key_of_empty_input_is_known_keccak_vector() {
    let key = generate_key_from_signature(b"");
    assert_eq!(
        hex::encode(&key),
        "c5d2460186f7233c927e7db2dcc703c0e500b653ca82273b7bfad8045d85a470"
    );
}

#[test]
fn key_is_digest_of_signature_string() {
    let sig = b"0xdeadbeef";
    let key = generate_key_from_signature(sig);
    assert_eq!(key.as_slice(), &keccak_reference(sig)[..]);
    assert_eq!(key.len(), 32);
}

#[test]
fn key_derivation_is_repeatable() {
    let a = generate_key_from_signature(b"0xfeedface");
    let b = generate_key_from_signature(b"0xfeedface");
    assert_eq!(a, b);
}

#[test]
fn nonce_is_digest_prefix_of_password() {
    let pw = b"password";
    let nonce = generate_nonce_from_password(pw);
    assert_eq!(nonce.len(), 19);
    assert_eq!(nonce.as_slice(), &keccak_reference(pw)[..19]);
}

#[test]
fn nonce_derivation_is_repeatable() {
    let a = generate_nonce_from_password(b"password");
    let b = generate_nonce_from_password(b"password");
    assert_eq!(a, b);
}

#[test]
fn personal_message_digest_single_digit_length() {
    // "password" has 8 bytes, so the signed text ends in "8password".
    let mut text = b"\x19Ethereum Signed Message:\n".to_vec();
    text.extend_from_slice(b"8");
    text.extend_from_slice(b"password");
    assert_eq!(hash_message(b"password").as_slice(), &keccak_reference(&text)[..]);
}

#[test]
fn personal_message_digest_two_digit_length() {
    let msg = b"twelve-bytes";
    assert_eq!(msg.len(), 12);
    let mut text = b"\x19Ethereum Signed Message:\n".to_vec();
    text.extend_from_slice(b"12");
    text.extend_from_slice(msg);
    assert_eq!(hash_message(msg).as_slice(), &keccak_reference(&text)[..]);
}

#[test]
fn personal_message_digest_empty_message() {
    let mut text = b"\x19Ethereum Signed Message:\n".to_vec();
    text.extend_from_slice(b"0");
    assert_eq!(hash_message(b"").as_slice(), &keccak_reference(&text)[..]);
}
