use vstd::prelude::*;

use crate::errors::WabaError;
use chacha20poly1305::KeyInit;
use chacha20poly1305::aead::Aead;

verus! {

/// What XChaCha20-Poly1305 seals one chunk to: a ciphertext of the chunk's
/// length plus a 16-byte tag, a function of key, nonce and plaintext alone.
pub uninterp spec fn seal(key: Seq<u8>, nonce: Seq<u8>, pt: Seq<u8>) -> Seq<u8>;

/// What XChaCha20-Poly1305 opens one chunk to: the plaintext exactly when the
/// authentication tag verifies, `None` otherwise. A function of key, nonce and
/// ciphertext alone.
pub uninterp spec fn unseal(key: Seq<u8>, nonce: Seq<u8>, ct: Seq<u8>) -> Option<Seq<u8>>;

/// Relies on chacha20poly1305's XChaCha20-Poly1305 encryption: the ciphertext
/// is the sealed plaintext with a 16-byte postfix tag, and decrypting it under
/// the same key and nonce yields the plaintext back. Sealing a chunk-sized
/// plaintext always succeeds: the cipher refuses only messages of 2^32 - 1 or
/// more 64-byte blocks, far above one chunk.
#[verifier::external_body]
fn aead_encrypt(key: &[u8], nonce: &[u8], plaintext: &[u8]) -> (r: Option<Vec<u8>>)
    requires
        key@.len() == 32,
        nonce@.len() == 24,
        plaintext@.len() <= 4096,
    ensures
        r is Some,
        r matches Some(ct) ==> ct@ == seal(key@, nonce@, plaintext@) && ct@.len() == plaintext@.len()
            + 16 && unseal(key@, nonce@, ct@) == Some(plaintext@),
{
    let k: [u8; 32] = match key.try_into() {
        Ok(a) => a,
        Err(_) => return None,
    };
    let n: [u8; 24] = match nonce.try_into() {
        Ok(a) => a,
        Err(_) => return None,
    };
    let cipher = chacha20poly1305::XChaCha20Poly1305::new(&chacha20poly1305::Key::from(k));
    cipher.encrypt(&chacha20poly1305::XNonce::from(n), plaintext).ok()
}

/// Relies on chacha20poly1305's XChaCha20-Poly1305 decryption: it returns the
/// plaintext exactly when the authentication tag verifies, and is a
/// deterministic function of key, nonce and ciphertext.
#[verifier::external_body]
fn aead_decrypt(key: &[u8], nonce: &[u8], ciphertext: &[u8]) -> (r: Option<Vec<u8>>)
    requires
        key@.len() == 32,
        nonce@.len() == 24,
    ensures
        r matches Some(pt) ==> unseal(key@, nonce@, ciphertext@) == Some(pt@)
            && ciphertext@.len() == pt@.len() + 16,
        r is None ==> unseal(key@, nonce@, ciphertext@) is None,
{
    let k: [u8; 32] = match key.try_into() {
        Ok(a) => a,
        Err(_) => return None,
    };
    let n: [u8; 24] = match nonce.try_into() {
        Ok(a) => a,
        Err(_) => return None,
    };
    let cipher = chacha20poly1305::XChaCha20Poly1305::new(&chacha20poly1305::Key::from(k));
    cipher.decrypt(&chacha20poly1305::XNonce::from(n), ciphertext).ok()
}

/// The 4-byte big-endian rendering of the chunk counter.
pub open spec fn be32(n: u32) -> Seq<u8> {
    seq![(n >> 24) as u8, (n >> 16) as u8, (n >> 8) as u8, n as u8]
}

/// The full 24-byte nonce presented to the cipher for one chunk: the 19-byte
/// stream nonce, the big-endian chunk counter, and a final-chunk flag byte.
/// This is a wire-format contract: no two chunks of a stream, nor a final
/// chunk and a non-final one, ever share an effective nonce.
pub open spec fn chunk_nonce(prefix: Seq<u8>, counter: u32, last: bool) -> Seq<u8> {
    prefix + be32(counter) + seq![
        if last {
            1u8
        } else {
            0u8
        },
    ]
}

/// Law: distinct chunks get distinct nonces. Two chunk nonces built over the
/// same 19-byte stream nonce agree only when both the counter and the
/// final-chunk flag agree, so no two chunks of a stream, nor a final chunk and
/// a non-final one, ever meet the cipher under the same effective nonce.
pub proof fn lemma_chunk_nonce_injective(prefix: Seq<u8>, c1: u32, l1: bool, c2: u32, l2: bool)
    requires
        chunk_nonce(prefix, c1, l1) == chunk_nonce(prefix, c2, l2),
    ensures
        c1 == c2,
        l1 == l2,
{
    let n1 = chunk_nonce(prefix, c1, l1);
    let n2 = chunk_nonce(prefix, c2, l2);
    let k = prefix.len() as int;
    assert(n1[k] == (c1 >> 24) as u8 && n1[k + 1] == (c1 >> 16) as u8 && n1[k + 2] == (c1 >> 8)
        as u8 && n1[k + 3] == c1 as u8);
    assert(n2[k] == (c2 >> 24) as u8 && n2[k + 1] == (c2 >> 16) as u8 && n2[k + 2] == (c2 >> 8)
        as u8 && n2[k + 3] == c2 as u8);
    assert((c1 >> 24) as u8 == (c2 >> 24) as u8 && (c1 >> 16) as u8 == (c2 >> 16) as u8 && (c1
        >> 8) as u8 == (c2 >> 8) as u8 && c1 as u8 == c2 as u8 ==> c1 == c2) by (bit_vector);
    assert(n1[k + 4] == if l1 {
        1u8
    } else {
        0u8
    });
    assert(n2[k + 4] == if l2 {
        1u8
    } else {
        0u8
    });
}

/// Builds the per-chunk nonce, matching `chunk_nonce`.
pub fn build_chunk_nonce(prefix: &[u8], counter: u32, last: bool) -> (r: Vec<u8>)
    requires
        prefix@.len() == 19,
    ensures
        r@ == chunk_nonce(prefix@, counter, last),
        r@.len() == 24,
{
    let mut v: Vec<u8> = Vec::new();
    v.extend_from_slice(prefix);
    v.push((counter >> 24) as u8);
    v.push((counter >> 16) as u8);
    v.push((counter >> 8) as u8);
    v.push(counter as u8);
    v.push(
        if last {
            1
        } else {
            0
        },
    );
    proof {
        assert(v@ =~= chunk_nonce(prefix@, counter, last));
    }
    v
}

/// The whole ciphertext stream for a plaintext: full 4096-byte chunks sealed
/// with the running counter and a cleared flag, then the remainder — possibly
/// empty — sealed with the flag set. Exactly one final chunk is produced.
pub open spec fn seal_stream(key: Seq<u8>, prefix: Seq<u8>, counter: u32, pt: Seq<u8>) -> Seq<u8>
    decreases pt.len(),
{
    if pt.len() < 4096 {
        seal(key, chunk_nonce(prefix, counter, true), pt)
    } else {
        seal(key, chunk_nonce(prefix, counter, false), pt.take(4096)) + seal_stream(
            key,
            prefix,
            ((counter + 1) as u32),
            pt.skip(4096),
        )
    }
}

/// The plaintext a ciphertext stream opens to: full 4112-byte chunks are
/// opened with a cleared flag; a stream ending exactly on a chunk boundary
/// ends with no final chunk; any shorter remainder is opened with the flag
/// set. `None` as soon as any chunk refuses to open.
pub open spec fn unseal_stream(key: Seq<u8>, prefix: Seq<u8>, counter: u32, ct: Seq<u8>) -> Option<
    Seq<u8>,
>
    decreases ct.len(),
{
    if ct.len() == 0 {
        Some(Seq::empty())
    } else if ct.len() >= 4112 {
        match unseal(key, chunk_nonce(prefix, counter, false), ct.take(4112)) {
            Some(pt) => match unseal_stream(key, prefix, ((counter + 1) as u32), ct.skip(4112)) {
                Some(rest) => Some(pt + rest),
                None => None,
            },
            None => None,
        }
    } else {
        unseal(key, chunk_nonce(prefix, counter, true), ct)
    }
}

/// Chunked, authenticated stream encryption. It always succeeds: the cipher
/// seals every chunk-sized plaintext. The ciphertext is exactly `seal_stream`
/// of the plaintext, its length is the plaintext length plus one 16-byte tag
/// per chunk (one full chunk per 4096 plaintext bytes and always one final
/// chunk), and — the round-trip law — it opens back to exactly the plaintext.
pub fn encrypt_stream(key: &[u8], nonce: &[u8], plaintext: &[u8]) -> (r: Result<Vec<u8>, WabaError>)
    requires
        key@.len() == 32,
        nonce@.len() == 19,
        plaintext@.len() < 4096 * 0x1_0000_0000,
    ensures
        r is Ok,
        r matches Ok(ct) ==> ct@ == seal_stream(key@, nonce@, 0, plaintext@) && unseal_stream(
            key@,
            nonce@,
            0,
            ct@,
        ) == Some(plaintext@) && ct@.len() == plaintext@.len() + 16 * (plaintext@.len() / 4096 + 1),
{
    let ghost k = key@;
    let ghost p = nonce@;
    let ghost pt = plaintext@;
    let mut out: Vec<u8> = Vec::new();
    let mut consumed: usize = 0;
    let mut counter: u32 = 0;
    proof {
        assert(pt.skip(0) =~= pt);
        assert(out@ + seal_stream(k, p, 0, pt.skip(0)) =~= seal_stream(k, p, 0, pt));
        assert forall|rest: Seq<u8>| #![trigger unseal_stream(k, p, 0u32, rest)]
            unseal_stream(k, p, 0u32, rest) is Some implies unseal_stream(k, p, 0, out@ + rest)
            == Some(pt.take(0) + unseal_stream(k, p, 0u32, rest).unwrap()) by {
            assert(out@ + rest =~= rest);
            assert(pt.take(0) + unseal_stream(k, p, 0u32, rest).unwrap() =~= unseal_stream(
                k,
                p,
                0u32,
                rest,
            ).unwrap());
        }
    }
    while plaintext.len() - consumed >= 4096
        invariant
            k == key@,
            p == nonce@,
            pt == plaintext@,
            key@.len() == 32,
            nonce@.len() == 19,
            pt.len() < 4096 * 0x1_0000_0000,
            consumed <= pt.len(),
            consumed == 4096 * (counter as int),
            out@.len() == consumed + 16 * (counter as int),
            seal_stream(k, p, 0, pt) == out@ + seal_stream(k, p, counter, pt.skip(consumed as int)),
            forall|rest: Seq<u8>| #![trigger unseal_stream(k, p, counter, rest)]
                unseal_stream(k, p, counter, rest) is Some ==> unseal_stream(k, p, 0, out@ + rest)
                    == Some(pt.take(consumed as int) + unseal_stream(k, p, counter, rest).unwrap()),
        decreases pt.len() - consumed,
    {
        let chunk = &plaintext[consumed..consumed + 4096];
        let n = build_chunk_nonce(nonce, counter, false);
        let ct_chunk = match aead_encrypt(key, n.as_slice(), chunk) {
            Some(c) => c,
            None => {
                return Err(WabaError::EncryptionFailed);
            },
        };
        proof {
            assert(4096 * ((counter + 1) as int) <= pt.len());
            assert(((counter + 1) as int) < 0x1_0000_0000);
        }
        let ghost old_out = out@;
        let ghost i = consumed as int;
        let ghost c = chunk@;
        let ghost s = ct_chunk@;
        let mut ct_chunk = ct_chunk;
        out.append(&mut ct_chunk);
        proof {
            // The sealed chunk is the next piece of the whole stream.
            assert(pt.skip(i).take(4096) =~= c);
            assert(pt.skip(i).skip(4096) =~= pt.skip(i + 4096));
            assert(seal_stream(k, p, counter, pt.skip(i)) == s + seal_stream(
                k,
                p,
                ((counter + 1) as u32),
                pt.skip(i + 4096),
            ));
            assert(old_out + seal_stream(k, p, counter, pt.skip(i)) =~= out@ + seal_stream(
                k,
                p,
                ((counter + 1) as u32),
                pt.skip(i + 4096),
            ));
            // Anything the rest of the stream opens to extends what this chunk opens to.
            assert forall|rest: Seq<u8>| #![trigger unseal_stream(k, p, (counter + 1) as u32, rest)]
                unseal_stream(k, p, ((counter + 1) as u32), rest) is Some implies unseal_stream(
                k,
                p,
                0,
                out@ + rest,
            ) == Some(pt.take(i + 4096) + unseal_stream(
                k,
                p,
                ((counter + 1) as u32),
                rest,
            ).unwrap()) by {
                let joined = s + rest;
                assert(joined.len() >= 4112);
                assert(joined.take(4112) =~= s);
                assert(joined.skip(4112) =~= rest);
                assert(unseal_stream(k, p, counter, joined) == Some(
                    c + unseal_stream(k, p, ((counter + 1) as u32), rest).unwrap(),
                ));
                assert(old_out + joined =~= out@ + rest);
                assert(pt.take(i) + (c + unseal_stream(k, p, ((counter + 1) as u32), rest).unwrap())
                    =~= pt.take(i + 4096) + unseal_stream(
                    k,
                    p,
                    ((counter + 1) as u32),
                    rest,
                ).unwrap());
            }
        }
        counter = counter + 1;
        consumed = consumed + 4096;
    }
    let last_chunk = &plaintext[consumed..plaintext.len()];
    let n = build_chunk_nonce(nonce, counter, true);
    let ct_chunk = match aead_encrypt(key, n.as_slice(), last_chunk) {
        Some(c) => c,
        None => {
            return Err(WabaError::EncryptionFailed);
        },
    };
    let ghost old_out = out@;
    let ghost i = consumed as int;
    let ghost c = last_chunk@;
    let ghost s = ct_chunk@;
    let mut ct_chunk = ct_chunk;
    out.append(&mut ct_chunk);
    proof {
        assert(c =~= pt.skip(i));
        assert(seal_stream(k, p, counter, pt.skip(i)) == s);
        assert(out@ =~= old_out + s);
        assert(out@ == seal_stream(k, p, 0, pt));
        // The final chunk opens under the final-chunk nonce, closing the round trip.
        assert(unseal_stream(k, p, counter, s) == Some(c));
        assert(unseal_stream(k, p, 0, old_out + s) == Some(pt.take(i) + c));
        assert(pt.take(i) + c =~= pt);
        // Chunk count arithmetic for the length clause.
        assert(pt.len() / 4096 == counter as int) by {
            assert(pt.len() == 4096 * (counter as int) + (pt.len() - 4096 * (counter as int)));
            assert(0 <= pt.len() - 4096 * (counter as int) < 4096);
        }
    }
    Ok(out)
}

/// Chunked, authenticated stream decryption: succeeds with exactly the
/// plaintext that `unseal_stream` assigns to the ciphertext, and fails with
/// `DecryptionFailed` exactly when some chunk's tag refuses to verify.
pub fn decrypt_stream(key: &[u8], nonce: &[u8], ciphertext: &[u8]) -> (r: Result<
    Vec<u8>,
    WabaError,
>)
    requires
        key@.len() == 32,
        nonce@.len() == 19,
        ciphertext@.len() < 4112 * 0x1_0000_0000,
    ensures
        r matches Ok(pt) ==> unseal_stream(key@, nonce@, 0, ciphertext@) == Some(pt@),
        r is Err ==> r == Err::<Vec<u8>, WabaError>(WabaError::DecryptionFailed) && unseal_stream(
            key@,
            nonce@,
            0,
            ciphertext@,
        ) is None,
{
    let ghost k = key@;
    let ghost p = nonce@;
    let ghost ct = ciphertext@;
    let mut out: Vec<u8> = Vec::new();
    let mut consumed: usize = 0;
    let mut counter: u32 = 0;
    proof {
        assert(ct.skip(0) =~= ct);
        assert(forall|t: Seq<u8>| Seq::<u8>::empty() + t =~= t);
    }
    while ciphertext.len() - consumed >= 4112
        invariant
            k == key@,
            p == nonce@,
            ct == ciphertext@,
            key@.len() == 32,
            nonce@.len() == 19,
            ct.len() < 4112 * 0x1_0000_0000,
            consumed <= ct.len(),
            consumed == 4112 * (counter as int),
            unseal_stream(k, p, 0, ct) == match unseal_stream(k, p, counter, ct.skip(
                consumed as int,
            )) {
                Some(t) => Some(out@ + t),
                None => None::<Seq<u8>>,
            },
        decreases ct.len() - consumed,
    {
        let chunk = &ciphertext[consumed..consumed + 4112];
        let n = build_chunk_nonce(nonce, counter, false);
        let ghost i = consumed as int;
        proof {
            assert(4112 * ((counter + 1) as int) <= ct.len());
            assert(((counter + 1) as int) < 0x1_0000_0000);
            assert(ct.skip(i).len() >= 4112);
            assert(ct.skip(i).take(4112) =~= chunk@);
            assert(ct.skip(i).skip(4112) =~= ct.skip(i + 4112));
        }
        match aead_decrypt(key, n.as_slice(), chunk) {
            Some(piece) => {
                let ghost old_out = out@;
                let ghost pc = piece@;
                let mut piece = piece;
                out.append(&mut piece);
                proof {
                    assert(unseal(k, chunk_nonce(p, counter, false), ct.skip(i).take(4112))
                        == Some(pc));
                    assert forall|t: Seq<u8>|
                        unseal_stream(k, p, ((counter + 1) as u32), ct.skip(i + 4112)) == Some(
                            t,
                        ) implies old_out + (pc + t) =~= out@ + t by {}
                    assert(unseal_stream(k, p, 0, ct) == match unseal_stream(
                        k,
                        p,
                        ((counter + 1) as u32),
                        ct.skip(i + 4112),
                    ) {
                        Some(t) => Some(out@ + t),
                        None => None::<Seq<u8>>,
                    });
                }
                counter = counter + 1;
                consumed = consumed + 4112;
            },
            None => {
                proof {
                    assert(unseal(k, chunk_nonce(p, counter, false), ct.skip(i).take(4112))
                        is None);
                    assert(unseal_stream(k, p, counter, ct.skip(i)) is None);
                }
                return Err(WabaError::DecryptionFailed);
            },
        }
    }
    let ghost i = consumed as int;
    if ciphertext.len() - consumed == 0 {
        proof {
            assert(ct.skip(i) =~= Seq::<u8>::empty());
            assert(unseal_stream(k, p, counter, ct.skip(i)) == Some(Seq::<u8>::empty()));
            assert(out@ + Seq::<u8>::empty() =~= out@);
        }
        return Ok(out);
    }
    let last = &ciphertext[consumed..ciphertext.len()];
    let n = build_chunk_nonce(nonce, counter, true);
    proof {
        assert(last@ =~= ct.skip(i));
        assert(0 < ct.skip(i).len() < 4112);
    }
    match aead_decrypt(key, n.as_slice(), last) {
        Some(piece) => {
            let ghost pc = piece@;
            let ghost old_out = out@;
            let mut piece = piece;
            out.append(&mut piece);
            proof {
                assert(unseal_stream(k, p, counter, ct.skip(i)) == Some(pc));
                assert(old_out + pc =~= out@);
            }
            Ok(out)
        },
        None => {
            proof {
                assert(unseal_stream(k, p, counter, ct.skip(i)) is None);
            }
            Err(WabaError::DecryptionFailed)
        },
    }
}

/// Law: a plaintext of exactly `chunks` full 4096-byte chunks — the empty
/// plaintext included — seals to some body followed by one final chunk that
/// carries the empty sequence: an exact-multiple input always emits a
/// trailing, empty final chunk.
pub proof fn lemma_exact_multiple_trailing_empty_chunk(
    key: Seq<u8>,
    prefix: Seq<u8>,
    counter: u32,
    chunks: nat,
    pt: Seq<u8>,
)
    requires
        pt.len() == 4096 * chunks,
        counter + chunks < 0x1_0000_0000,
    ensures
        exists|body: Seq<u8>|
            seal_stream(key, prefix, counter, pt) == #[trigger] (body + seal(
                key,
                chunk_nonce(prefix, ((counter + chunks) as u32), true),
                Seq::empty(),
            )),
    decreases chunks,
{
    if chunks == 0 {
        assert(pt =~= Seq::<u8>::empty());
        let body = Seq::<u8>::empty();
        assert(seal_stream(key, prefix, counter, pt) == body + seal(
            key,
            chunk_nonce(prefix, ((counter + chunks) as u32), true),
            Seq::empty(),
        )) by {
            assert(seal_stream(key, prefix, counter, pt) == seal(
                key,
                chunk_nonce(prefix, counter, true),
                pt,
            ));
            assert(body + seal(key, chunk_nonce(prefix, counter, true), Seq::empty()) =~= seal(
                key,
                chunk_nonce(prefix, counter, true),
                Seq::empty(),
            ));
        }
    } else {
        assert(pt.len() >= 4096);
        assert(pt.skip(4096).len() == 4096 * ((chunks - 1) as nat));
        lemma_exact_multiple_trailing_empty_chunk(
            key,
            prefix,
            ((counter + 1) as u32),
            (chunks - 1) as nat,
            pt.skip(4096),
        );
        let rest_final = seal(
            key,
            chunk_nonce(prefix, ((counter + chunks) as u32), true),
            Seq::empty(),
        );
        let body0 = choose|body: Seq<u8>|
            seal_stream(key, prefix, ((counter + 1) as u32), pt.skip(4096)) == #[trigger] (body
                + rest_final);
        let first = seal(key, chunk_nonce(prefix, counter, false), pt.take(4096));
        assert(seal_stream(key, prefix, counter, pt) == first + (body0 + rest_final));
        assert(first + (body0 + rest_final) =~= (first + body0) + rest_final);
        assert(seal_stream(key, prefix, counter, pt) == (first + body0) + rest_final);
    }
}

} // verus!
