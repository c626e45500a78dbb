//! ChaCha20-Poly1305 encryption of chunks, bound to their index.
use vstd::prelude::*;
use chacha20poly1305::aead::{Aead, KeyInit, Payload};
use chacha20poly1305::{ChaCha20Poly1305, Key, Nonce};
use crate::codec::be64;
use crate::error::{DropWireError, crypto_error};

verus! {

/// What ChaCha20-Poly1305 encryption returns: the ciphertext followed by the tag.
pub uninterp spec fn aead_seal(key: Seq<u8>, nonce: Seq<u8>, aad: Seq<u8>, msg: Seq<u8>) -> Seq<u8>;

/// What ChaCha20-Poly1305 decryption returns: the plaintext when the tag checks.
pub uninterp spec fn aead_open(key: Seq<u8>, nonce: Seq<u8>, aad: Seq<u8>, ct: Seq<u8>) -> Option<Seq<u8>>;

/// The crate refuses messages of `u32::MAX` 64-byte blocks or more.
pub open spec fn aead_msg_fits(len: nat) -> bool {
    len / 64 < u32::MAX
}

/// `Aead::encrypt` of `ChaCha20Poly1305`: fails only when the message is too
/// long for the cipher's block counter; otherwise the ciphertext is the message
/// length plus a 16-byte tag, depends on key, nonce, data and message alone,
/// and decrypts under the same key, nonce and data to the message.
#[verifier::external_body]
pub(crate) fn aead_encrypt(key: &[u8; 32], nonce: &[u8; 12], aad: &[u8], msg: &[u8]) -> (r: Result<Vec<u8>, ()>)
    ensures
        r is Ok <==> aead_msg_fits(msg@.len()),
        r matches Ok(c) ==> c@ == aead_seal(key@, nonce@, aad@, msg@) && c@.len() == msg@.len() + 16,
        r matches Ok(c) ==> aead_open(key@, nonce@, aad@, c@) == Some(msg@),
{
    let cipher = ChaCha20Poly1305::new(Key::from_slice(key));
    cipher.encrypt(Nonce::from_slice(nonce), Payload { msg, aad }).map_err(|_| ())
}

/// `Aead::decrypt` of `ChaCha20Poly1305`: fails on input shorter than the tag;
/// on success gives back the plaintext, 16 bytes shorter; and decrypting what
/// encryption produced under the same key, nonce and data gives the message.
#[verifier::external_body]
pub(crate) fn aead_decrypt(key: &[u8; 32], nonce: &[u8; 12], aad: &[u8], ct: &[u8]) -> (r: Result<Vec<u8>, ()>)
    ensures
        r matches Ok(p) ==> aead_open(key@, nonce@, aad@, ct@) == Some(p@),
        r is Err <==> aead_open(key@, nonce@, aad@, ct@) is None,
        ct@.len() < 16 ==> r is Err,
        r matches Ok(p) ==> p@.len() + 16 == ct@.len(),
        r is Err ==> forall|m: Seq<u8>|
            !(aead_msg_fits(m.len()) && ct@ == #[trigger] aead_seal(key@, nonce@, aad@, m)),
        r matches Ok(p) ==> forall|m: Seq<u8>|
            aead_msg_fits(m.len()) && ct@ == #[trigger] aead_seal(key@, nonce@, aad@, m) ==> p@ == m,
{
    let cipher = ChaCha20Poly1305::new(Key::from_slice(key));
    cipher.decrypt(Nonce::from_slice(nonce), Payload { msg: ct, aad }).map_err(|_| ())
}

/// The nonce of chunk `idx`: four zero bytes, then the index big-endian.
pub open spec fn chunk_nonce(idx: u64) -> Seq<u8> {
    seq![0u8, 0u8, 0u8, 0u8] + be64(idx)
}

/// The nonce of chunk `idx`.
fn chunk_nonce_of(idx: u64) -> (n: [u8; 12])
    ensures
        n@ == chunk_nonce(idx),
{
    let n: [u8; 12] = [
        0,
        0,
        0,
        0,
        (idx >> 56) as u8,
        (idx >> 48) as u8,
        (idx >> 40) as u8,
        (idx >> 32) as u8,
        (idx >> 24) as u8,
        (idx >> 16) as u8,
        (idx >> 8) as u8,
        idx as u8,
    ];
    assert(n@ =~= chunk_nonce(idx));
    n
}

/// The index big-endian, the associated data of chunk `idx`.
fn be64_bytes(idx: u64) -> (b: [u8; 8])
    ensures
        b@ == be64(idx),
{
    let b: [u8; 8] = [
        (idx >> 56) as u8,
        (idx >> 48) as u8,
        (idx >> 40) as u8,
        (idx >> 32) as u8,
        (idx >> 24) as u8,
        (idx >> 16) as u8,
        (idx >> 8) as u8,
        idx as u8,
    ];
    assert(b@ =~= be64(idx));
    b
}

/// Encrypts chunk `chunk_idx`, binding the index as nonce and associated data.
pub fn encrypt_chunk(stream_key: &[u8; 32], chunk_idx: u64, plaintext: &[u8]) -> (r: Result<
    Vec<u8>,
    DropWireError,
>)
    ensures
        r is Ok <==> aead_msg_fits(plaintext@.len()),
        r matches Ok(c) ==> c@ == aead_seal(stream_key@, chunk_nonce(chunk_idx), be64(chunk_idx), plaintext@),
        r matches Ok(c) ==> c@.len() == plaintext@.len() + 16,
        r matches Ok(c) ==> aead_open(stream_key@, chunk_nonce(chunk_idx), be64(chunk_idx), c@) == Some(plaintext@),
        r matches Err(e) ==> e is Crypto,
{
    let nonce = chunk_nonce_of(chunk_idx);
    let aad = be64_bytes(chunk_idx);
    match aead_encrypt(stream_key, &nonce, aad.as_slice(), plaintext) {
        Ok(c) => Ok(c),
        Err(_) => Err(crypto_error("Encryption failed")),
    }
}

/// Decrypts chunk `chunk_idx`; a crypto error when the tag does not check
/// (wrong key, wrong index, or altered bytes). What `encrypt_chunk` produced
/// for the same key and index decrypts to the plaintext that was sealed.
pub fn decrypt_chunk(stream_key: &[u8; 32], chunk_idx: u64, ciphertext: &[u8]) -> (r: Result<
    Vec<u8>,
    DropWireError,
>)
    ensures
        r matches Ok(p) ==> aead_open(stream_key@, chunk_nonce(chunk_idx), be64(chunk_idx), ciphertext@) == Some(p@),
        r is Err <==> aead_open(stream_key@, chunk_nonce(chunk_idx), be64(chunk_idx), ciphertext@) is None,
        r matches Ok(p) ==> p@.len() + 16 == ciphertext@.len(),
        ciphertext@.len() < 16 ==> r is Err,
        r matches Err(e) ==> e is Crypto,
        forall|m: Seq<u8>|
            #![trigger aead_seal(stream_key@, chunk_nonce(chunk_idx), be64(chunk_idx), m)]
            aead_msg_fits(m.len()) && ciphertext@ == aead_seal(stream_key@, chunk_nonce(chunk_idx), be64(chunk_idx), m)
                ==> (r matches Ok(p) && p@ == m),
{
    let nonce = chunk_nonce_of(chunk_idx);
    let aad = be64_bytes(chunk_idx);
    match aead_decrypt(stream_key, &nonce, aad.as_slice(), ciphertext) {
        Ok(p) => Ok(p),
        Err(_) => Err(crypto_error("Decryption failed")),
    }
}

} // verus!
