//! The cryptographic primitives the registry is built from.
//!
//! Each function here hands its arguments to a cipher crate and is believed,
//! not proved: its contract says what that crate's source shows. What a
//! primitive computes is given a name, so that the registry's contracts can
//! say exactly which bytes it stores and reads.

use vstd::prelude::*;
use aes_gcm::aead::{Aead, KeyInit};
use aes_gcm::aead::rand_core::RngCore;
use blowfish::cipher::{BlockDecrypt, BlockEncrypt};
use blowfish::cipher::generic_array::GenericArray;
use hmac::Mac;

verus! {

/// The length of the key of every authenticated cipher, in bytes.
pub const AEAD_KEY_LEN: usize = 32;

/// The length of the nonce of every authenticated cipher, in bytes.
pub const AEAD_NONCE_LEN: usize = 12;

/// The number of bytes by which sealing with an authenticated cipher
/// lengthens a value.
pub const AEAD_TAG_LEN: usize = 16;

/// The length of a block of the block ciphers, in bytes.
pub const BLOCK_LEN: usize = 8;

/// The length of the Blowfish key the registry uses, in bytes.
pub const BLOWFISH_KEY_LEN: usize = 32;

/// The length of a Triple-DES key, in bytes.
pub const TDES_KEY_LEN: usize = 24;

/// The length of an HMAC-SHA-256 tag, in bytes.
pub const MAC_LEN: usize = 32;

/// The longest value the authenticated ciphers are known to seal.
pub const AEAD_MAX_PLAINTEXT: usize = 0xFFFF_FFFF;

/// What AES-256-GCM makes of `plaintext` under `key` and `nonce`: the
/// ciphertext followed by its tag, or nothing where the cipher refuses.
pub uninterp spec fn aes256_gcm_sealed(key: Seq<u8>, nonce: Seq<u8>, plaintext: Seq<u8>) -> Option<Seq<u8>>;

/// What AES-256-GCM reads out of `sealed` under `key` and `nonce`: the
/// plaintext, or nothing where the tag does not match.
pub uninterp spec fn aes256_gcm_opened(key: Seq<u8>, nonce: Seq<u8>, sealed: Seq<u8>) -> Option<Seq<u8>>;

/// What ChaCha20-Poly1305 makes of `plaintext` under `key` and `nonce`.
pub uninterp spec fn chacha20_poly1305_sealed(key: Seq<u8>, nonce: Seq<u8>, plaintext: Seq<u8>) -> Option<Seq<u8>>;

/// What ChaCha20-Poly1305 reads out of `sealed` under `key` and `nonce`.
pub uninterp spec fn chacha20_poly1305_opened(key: Seq<u8>, nonce: Seq<u8>, sealed: Seq<u8>) -> Option<Seq<u8>>;

/// The Blowfish encryption of one block under `key`.
pub uninterp spec fn blowfish_block_encrypted(key: Seq<u8>, block: Seq<u8>) -> Seq<u8>;

/// The Blowfish decryption of one block under `key`.
pub uninterp spec fn blowfish_block_decrypted(key: Seq<u8>, block: Seq<u8>) -> Seq<u8>;

/// The Triple-DES (EDE, three keys) encryption of one block under `key`.
pub uninterp spec fn tdes_block_encrypted(key: Seq<u8>, block: Seq<u8>) -> Seq<u8>;

/// The Triple-DES (EDE, three keys) decryption of one block under `key`.
pub uninterp spec fn tdes_block_decrypted(key: Seq<u8>, block: Seq<u8>) -> Seq<u8>;

/// The HMAC-SHA-256 tag of `message` under `key`.
pub uninterp spec fn hmac_sha256_tag(key: Seq<u8>, message: Seq<u8>) -> Seq<u8>;

/// Calls `Aes256Gcm::encrypt` of the `aes-gcm` crate with no associated
/// data. The crate refuses only values longer than 2^36 bytes, appends a
/// 16-byte tag, and its `decrypt` undoes what `encrypt` did.
#[verifier::external_body]
pub(crate) fn aes256_gcm_seal(key: &[u8], nonce: &[u8], plaintext: &[u8]) -> (sealed: Option<
    Vec<u8>,
>)
    requires
        key@.len() == AEAD_KEY_LEN,
        nonce@.len() == AEAD_NONCE_LEN,
    ensures
        match sealed {
            Some(bytes) => {
                &&& aes256_gcm_sealed(key@, nonce@, plaintext@) == Some(bytes@)
                &&& bytes@.len() == plaintext@.len() + AEAD_TAG_LEN
                &&& aes256_gcm_opened(key@, nonce@, bytes@) == Some(plaintext@)
            },
            None => aes256_gcm_sealed(key@, nonce@, plaintext@) is None,
        },
        plaintext@.len() <= AEAD_MAX_PLAINTEXT ==> sealed is Some,
{
    match aes_gcm::Aes256Gcm::new_from_slice(key) {
        Ok(cipher) => match cipher.encrypt(aes_gcm::Nonce::from_slice(nonce), plaintext) {
            Ok(bytes) => Some(bytes),
            Err(_) => None,
        },
        Err(_) => None,
    }
}

/// Calls `Aes256Gcm::decrypt` of the `aes-gcm` crate with no associated
/// data. The crate fails where the tag does not match.
#[verifier::external_body]
pub(crate) fn aes256_gcm_open(key: &[u8], nonce: &[u8], sealed: &[u8]) -> (opened: Option<Vec<u8>>)
    requires
        key@.len() == AEAD_KEY_LEN,
        nonce@.len() == AEAD_NONCE_LEN,
    ensures
        match opened {
            Some(bytes) => aes256_gcm_opened(key@, nonce@, sealed@) == Some(bytes@),
            None => aes256_gcm_opened(key@, nonce@, sealed@) is None,
        },
{
    match aes_gcm::Aes256Gcm::new_from_slice(key) {
        Ok(cipher) => match cipher.decrypt(aes_gcm::Nonce::from_slice(nonce), sealed) {
            Ok(bytes) => Some(bytes),
            Err(_) => None,
        },
        Err(_) => None,
    }
}

/// Calls `ChaCha20Poly1305::encrypt` of the `chacha20poly1305` crate with no
/// associated data. The crate refuses only values of 2^32 - 1 blocks of 64
/// bytes or more, appends a 16-byte tag, and its `decrypt` undoes what
/// `encrypt` did.
#[verifier::external_body]
pub(crate) fn chacha20_poly1305_seal(key: &[u8], nonce: &[u8], plaintext: &[u8]) -> (sealed:
    Option<Vec<u8>>)
    requires
        key@.len() == AEAD_KEY_LEN,
        nonce@.len() == AEAD_NONCE_LEN,
    ensures
        match sealed {
            Some(bytes) => {
                &&& chacha20_poly1305_sealed(key@, nonce@, plaintext@) == Some(bytes@)
                &&& bytes@.len() == plaintext@.len() + AEAD_TAG_LEN
                &&& chacha20_poly1305_opened(key@, nonce@, bytes@) == Some(plaintext@)
            },
            None => chacha20_poly1305_sealed(key@, nonce@, plaintext@) is None,
        },
        plaintext@.len() <= AEAD_MAX_PLAINTEXT ==> sealed is Some,
{
    match chacha20poly1305::ChaCha20Poly1305::new_from_slice(key) {
        Ok(cipher) => match cipher.encrypt(chacha20poly1305::Nonce::from_slice(nonce), plaintext) {
            Ok(bytes) => Some(bytes),
            Err(_) => None,
        },
        Err(_) => None,
    }
}

/// Calls `ChaCha20Poly1305::decrypt` of the `chacha20poly1305` crate with no
/// associated data. The crate fails where the tag does not match.
#[verifier::external_body]
pub(crate) fn chacha20_poly1305_open(key: &[u8], nonce: &[u8], sealed: &[u8]) -> (opened: Option<
    Vec<u8>,
>)
    requires
        key@.len() == AEAD_KEY_LEN,
        nonce@.len() == AEAD_NONCE_LEN,
    ensures
        match opened {
            Some(bytes) => chacha20_poly1305_opened(key@, nonce@, sealed@) == Some(bytes@),
            None => chacha20_poly1305_opened(key@, nonce@, sealed@) is None,
        },
{
    match chacha20poly1305::ChaCha20Poly1305::new_from_slice(key) {
        Ok(cipher) => match cipher.decrypt(chacha20poly1305::Nonce::from_slice(nonce), sealed) {
            Ok(bytes) => Some(bytes),
            Err(_) => None,
        },
        Err(_) => None,
    }
}

/// Calls `encrypt_block` of `blowfish::Blowfish` (big-endian), keyed with
/// `key`. The crate accepts keys of 4 to 56 bytes, maps a block of 8 bytes
/// to a block of 8 bytes, and its `decrypt_block` undoes `encrypt_block`.
#[verifier::external_body]
pub(crate) fn blowfish_encrypt_block(key: &[u8], block: &[u8]) -> (out: Option<Vec<u8>>)
    requires
        4 <= key@.len() <= 56,
        block@.len() == BLOCK_LEN,
    ensures
        out is Some,
        out->0@ == blowfish_block_encrypted(key@, block@),
        out->0@.len() == BLOCK_LEN,
        blowfish_block_decrypted(key@, out->0@) == block@,
{
    match <blowfish::Blowfish>::new_from_slice(key) {
        Ok(cipher) => {
            let mut buffer = GenericArray::clone_from_slice(block);
            cipher.encrypt_block(&mut buffer);
            Some(buffer.to_vec())
        },
        Err(_) => None,
    }
}

/// Calls `decrypt_block` of `blowfish::Blowfish` (big-endian), keyed with
/// `key`. The crate accepts keys of 4 to 56 bytes and maps a block of 8
/// bytes to a block of 8 bytes.
#[verifier::external_body]
pub(crate) fn blowfish_decrypt_block(key: &[u8], block: &[u8]) -> (out: Option<Vec<u8>>)
    requires
        4 <= key@.len() <= 56,
        block@.len() == BLOCK_LEN,
    ensures
        out is Some,
        out->0@ == blowfish_block_decrypted(key@, block@),
        out->0@.len() == BLOCK_LEN,
{
    match <blowfish::Blowfish>::new_from_slice(key) {
        Ok(cipher) => {
            let mut buffer = GenericArray::clone_from_slice(block);
            cipher.decrypt_block(&mut buffer);
            Some(buffer.to_vec())
        },
        Err(_) => None,
    }
}

/// Calls `encrypt_block` of `des::TdesEde3`, keyed with `key`. The crate
/// accepts keys of 24 bytes, maps a block of 8 bytes to a block of 8 bytes,
/// and its `decrypt_block` undoes `encrypt_block`.
#[verifier::external_body]
pub(crate) fn tdes_encrypt_block(key: &[u8], block: &[u8]) -> (out: Option<Vec<u8>>)
    requires
        key@.len() == TDES_KEY_LEN,
        block@.len() == BLOCK_LEN,
    ensures
        out is Some,
        out->0@ == tdes_block_encrypted(key@, block@),
        out->0@.len() == BLOCK_LEN,
        tdes_block_decrypted(key@, out->0@) == block@,
{
    match des::TdesEde3::new_from_slice(key) {
        Ok(cipher) => {
            let mut buffer = GenericArray::clone_from_slice(block);
            cipher.encrypt_block(&mut buffer);
            Some(buffer.to_vec())
        },
        Err(_) => None,
    }
}

/// Calls `decrypt_block` of `des::TdesEde3`, keyed with `key`. The crate
/// accepts keys of 24 bytes and maps a block of 8 bytes to a block of 8
/// bytes.
#[verifier::external_body]
pub(crate) fn tdes_decrypt_block(key: &[u8], block: &[u8]) -> (out: Option<Vec<u8>>)
    requires
        key@.len() == TDES_KEY_LEN,
        block@.len() == BLOCK_LEN,
    ensures
        out is Some,
        out->0@ == tdes_block_decrypted(key@, block@),
        out->0@.len() == BLOCK_LEN,
{
    match des::TdesEde3::new_from_slice(key) {
        Ok(cipher) => {
            let mut buffer = GenericArray::clone_from_slice(block);
            cipher.decrypt_block(&mut buffer);
            Some(buffer.to_vec())
        },
        Err(_) => None,
    }
}

/// Computes an HMAC-SHA-256 tag with `Hmac<Sha256>` of the `hmac` crate,
/// which takes a key of any length and gives a tag of 32 bytes.
#[verifier::external_body]
pub(crate) fn hmac_sha256(key: &[u8], message: &[u8]) -> (tag: Option<Vec<u8>>)
    ensures
        tag is Some,
        tag->0@ == hmac_sha256_tag(key@, message@),
        tag->0@.len() == MAC_LEN,
{
    match <hmac::Hmac<sha2::Sha256> as Mac>::new_from_slice(key) {
        Ok(mut mac) => {
            mac.update(message);
            Some(mac.finalize().into_bytes().to_vec())
        },
        Err(_) => None,
    }
}

/// Draws `count` bytes from the operating system's random number generator
/// with `OsRng::try_fill_bytes`. Nothing is promised of the bytes but their
/// number; no bytes come back where the generator fails.
#[verifier::external_body]
pub(crate) fn random_bytes(count: usize) -> (bytes: Option<Vec<u8>>)
    ensures
        bytes matches Some(b) ==> b@.len() == count,
{
    let mut buffer = vec![0u8; count];
    match aes_gcm::aead::OsRng.try_fill_bytes(&mut buffer) {
        Ok(()) => Some(buffer),
        Err(_) => None,
    }
}

} // verus!
