use chacha20poly1305::aead::Aead;
use chacha20poly1305::KeyInit;
use wabasen::errors::WabaError;
use wabasen::keys::{generate_key_from_signature, generate_nonce_from_password};
use wabasen::stream::{build_chunk_nonce, decrypt_stream, encrypt_stream};

fn test_key_material() -> (Vec<u8>, Vec<u8>) {
    (
        generate_key_from_signature(b"0xsome-signature-string"),
        generate_nonce_from_password(b"password"),
    )
}

fn round_trip(data: &[u8]) -> Vec<u8> {
    let (key, nonce) = test_key_material();
    let ct = encrypt_stream(&key, &nonce, data).unwrap();
    decrypt_stream(&key, &nonce, &ct).unwrap()
}

#[test]
fn empty_input_is_one_tag_only_final_chunk() {
    let (key, nonce) = test_key_material();
    let ct = encrypt_stream(&key, &nonce, b"").unwrap();
    assert_eq!(ct.len(), 16);
    assert_eq!(decrypt_stream(&key, &nonce, &ct).unwrap(), Vec::<u8>::new());
}

#[test]
fn short_input_round_trips() {
    assert_eq!(round_trip(b"hello"), b"hello".to_vec());
}

#[test]
fn short_input_ciphertext_length_is_input_plus_tag() {
    let (key, nonce) = test_key_material();
    let ct = encrypt_stream(&key, &nonce, b"hello").unwrap();
    assert_eq!(ct.len(), 5 + 16);
}

#[test]
fn exact_chunk_multiple_has_trailing_empty_final_chunk() {
    let (key, nonce) = test_key_material();
    let data = vec![7u8; 4096];
    let ct = encrypt_stream(&key, &nonce, &data).unwrap();
    // One full chunk (4096 + 16) plus a final chunk sealing zero bytes (16).
    assert_eq!(ct.len(), 4112 + 16);
    assert_eq!(decrypt_stream(&key, &nonce, &ct).unwrap(), data);
}

#[test]
fn two_chunk_exact_multiple_round_trips() {
    let (key, nonce) = test_key_material();
    let data: Vec<u8> = (0..8192u32).map(|i| (i % 7) as u8).collect();
    let ct = encrypt_stream(&key, &nonce, &data).unwrap();
    // Two full chunks and the trailing empty final chunk.
    assert_eq!(ct.len(), 8192 + 3 * 16);
    assert_eq!(decrypt_stream(&key, &nonce, &ct).unwrap(), data);
}

#[test]
fn multi_chunk_input_round_trips() {
    let data: Vec<u8> = (0..10000u32).map(|i| (i % 251) as u8).collect();
    assert_eq!(round_trip(&data), data);
    let (key, nonce) = test_key_material();
    let ct = encrypt_stream(&key, &nonce, &data).unwrap();
    // Two full chunks and one 1808-byte final chunk, each with a 16-byte tag.
    assert_eq!(ct.len(), 10000 + 3 * 16);
}

#[test]
fn first_chunk_matches_cipher_called_directly() {
    let (key, nonce) = test_key_material();
    let ct = encrypt_stream(&key, &nonce, b"hello").unwrap();

    let full_nonce = build_chunk_nonce(&nonce, 0, true);
    assert_eq!(full_nonce.len(), 24);
    assert_eq!(&full_nonce[..19], nonce.as_slice());
    assert_eq!(&full_nonce[19..], &[0, 0, 0, 0, 1]);

    let key_arr: [u8; 32] = key.as_slice().try_into().unwrap();
    let nonce_arr: [u8; 24] = full_nonce.as_slice().try_into().unwrap();
    let cipher = chacha20poly1305::XChaCha20Poly1305::new(&chacha20poly1305::Key::from(key_arr));
    let expected = cipher
        .encrypt(&chacha20poly1305::XNonce::from(nonce_arr), &b"hello"[..])
        .unwrap();
    assert_eq!(ct, expected);
}

#[test]
fn counter_renders_big_endian() {
    let nonce = generate_nonce_from_password(b"p");
    let n = build_chunk_nonce(&nonce, 0x01020304, false);
    assert_eq!(&n[19..], &[1, 2, 3, 4, 0]);
}

#[test]
fn tampered_body_byte_is_rejected() {
    let (key, nonce) = test_key_material();
    let data = vec![42u8; 5000];
    let mut ct = encrypt_stream(&key, &nonce, &data).unwrap();
    ct[100] ^= 1;
    assert_eq!(decrypt_stream(&key, &nonce, &ct), Err(WabaError::DecryptionFailed));
}

#[test]
fn tampered_tag_byte_is_rejected() {
    let (key, nonce) = test_key_material();
    let mut ct = encrypt_stream(&key, &nonce, b"hello").unwrap();
    let last = ct.len() - 1;
    ct[last] ^= 0x80;
    assert_eq!(decrypt_stream(&key, &nonce, &ct), Err(WabaError::DecryptionFailed));
}

#[test]
fn tampered_final_chunk_of_long_stream_is_rejected() {
    let (key, nonce) = test_key_material();
    let data = vec![9u8; 4096 + 10];
    let mut ct = encrypt_stream(&key, &nonce, &data).unwrap();
    let idx = ct.len() - 5;
    ct[idx] ^= 1;
    assert_eq!(decrypt_stream(&key, &nonce, &ct), Err(WabaError::DecryptionFailed));
}

#[test]
fn wrong_key_is_rejected() {
    let (key, nonce) = test_key_material();
    let ct = encrypt_stream(&key, &nonce, b"secret").unwrap();
    let other_key = generate_key_from_signature(b"0xanother-signature");
    assert_eq!(decrypt_stream(&other_key, &nonce, &ct), Err(WabaError::DecryptionFailed));
}

#[test]
fn wrong_nonce_is_rejected() {
    let (key, nonce) = test_key_material();
    let ct = encrypt_stream(&key, &nonce, b"secret").unwrap();
    let other_nonce = generate_nonce_from_password(b"other-password");
    assert_eq!(decrypt_stream(&key, &other_nonce, &ct), Err(WabaError::DecryptionFailed));
}

#[test]
fn derivation_determinism_gives_interoperable_streams() {
    // Key material derived twice from the same credentials decrypts what the
    // first derivation encrypted.
    let key1 = generate_key_from_signature(b"0xsig");
    let nonce1 = generate_nonce_from_password(b"password");
    let key2 = generate_key_from_signature(b"0xsig");
    let nonce2 = generate_nonce_from_password(b"password");
    let ct = encrypt_stream(&key1, &nonce1, b"payload").unwrap();
    assert_eq!(decrypt_stream(&key2, &nonce2, &ct).unwrap(), b"payload".to_vec());
}
