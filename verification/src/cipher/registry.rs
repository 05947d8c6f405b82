//! Encrypting and decrypting under a tenant's method and key material.
//!
//! A sealed value opens with the nonce it was sealed under, so that it can
//! be read back from the stored bytes and the key material alone:
//!
//! * AES-256 and ChaCha20: nonce of 12 bytes, then the cipher's output,
//!   which ends in its tag of 16 bytes;
//! * Blowfish and Triple-DES: initialisation vector of 8 bytes, then the
//!   chained encryption of the padded value, then the HMAC-SHA-256 tag of
//!   all that precedes it.
//!
//! The cipher key and the key of the tag are both derived from the key
//! material, the method and the purpose, so that no key serves two ends.

use vstd::prelude::*;
use vstd::slice::slice_subrange;
use crate::cipher::bytes::{append, same_bytes};
use crate::cipher::cbc::{cbc_decrypt, cbc_decrypted, cbc_encrypt, cbc_encrypted};
use crate::cipher::padding::{lemma_unpadded_padded, pad, padded, unpad, unpadded};
use crate::cipher::primitives::{
    AEAD_MAX_PLAINTEXT,
    AEAD_NONCE_LEN,
    BLOCK_LEN,
    MAC_LEN,
    aes256_gcm_open,
    aes256_gcm_opened,
    aes256_gcm_seal,
    aes256_gcm_sealed,
    chacha20_poly1305_open,
    chacha20_poly1305_opened,
    chacha20_poly1305_seal,
    chacha20_poly1305_sealed,
    hmac_sha256,
    hmac_sha256_tag,
    random_bytes,
};
use crate::error::ErrorKind;
use crate::models::EncryptionMethod;

verus! {

/// The purpose of the key that the cipher runs under.
pub const PURPOSE_CIPHER: u8 = 1;

/// The purpose of the key that tags are computed under.
pub const PURPOSE_TAG: u8 = 2;

/// The shortest sealed value of a block cipher: vector, one block, tag.
pub const BLOCK_ENVELOPE_MIN: usize = 48;

/// The shortest sealed value of an authenticated cipher: nonce and tag.
pub const AEAD_ENVELOPE_MIN: usize = 28;

/// The key derived from `material` for `method` and `purpose`: the
/// HMAC-SHA-256 tag, under the material, of the method's tag and the
/// purpose, cut to the cipher's key length where it is the cipher key.
pub open spec fn derived_key(method: EncryptionMethod, material: Seq<u8>, purpose: u8) -> Seq<u8> {
    let full = hmac_sha256_tag(material, seq![method.spec_tag(), purpose]);
    if purpose == PURPOSE_CIPHER {
        full.take(method.spec_key_len() as int)
    } else {
        full
    }
}

/// What an authenticated cipher makes of `plaintext`.
pub open spec fn aead_sealed(
    method: EncryptionMethod,
    key: Seq<u8>,
    nonce: Seq<u8>,
    plaintext: Seq<u8>,
) -> Option<Seq<u8>> {
    if method == EncryptionMethod::AES256 {
        aes256_gcm_sealed(key, nonce, plaintext)
    } else {
        chacha20_poly1305_sealed(key, nonce, plaintext)
    }
}

/// What an authenticated cipher reads out of `sealed`.
pub open spec fn aead_opened(
    method: EncryptionMethod,
    key: Seq<u8>,
    nonce: Seq<u8>,
    sealed: Seq<u8>,
) -> Option<Seq<u8>> {
    if method == EncryptionMethod::AES256 {
        aes256_gcm_opened(key, nonce, sealed)
    } else {
        chacha20_poly1305_opened(key, nonce, sealed)
    }
}

/// The part of a block cipher's sealed value that its tag covers: the
/// vector and the chained encryption of the padded value.
pub open spec fn block_body(
    method: EncryptionMethod,
    material: Seq<u8>,
    iv: Seq<u8>,
    plaintext: Seq<u8>,
) -> Seq<u8> {
    iv + cbc_encrypted(method, derived_key(method, material, PURPOSE_CIPHER), iv, padded(plaintext))
}

/// The bytes stored for `plaintext` sealed with `method` under `material`
/// and `nonce`; nothing where the nonce has the wrong length or the cipher
/// refuses the value.
pub open spec fn sealed(
    method: EncryptionMethod,
    material: Seq<u8>,
    nonce: Seq<u8>,
    plaintext: Seq<u8>,
) -> Option<Seq<u8>> {
    if nonce.len() != method.spec_nonce_len() {
        None
    } else if method.is_block() {
        let body = block_body(method, material, nonce, plaintext);
        Some(body + hmac_sha256_tag(derived_key(method, material, PURPOSE_TAG), body))
    } else {
        match aead_sealed(method, derived_key(method, material, PURPOSE_CIPHER), nonce, plaintext) {
            Some(output) => Some(nonce + output),
            None => None,
        }
    }
}

/// Whether `envelope` has the shape of a value sealed with `method`.
pub open spec fn well_shaped(method: EncryptionMethod, envelope: Seq<u8>) -> bool {
    if method.is_block() {
        envelope.len() >= BLOCK_ENVELOPE_MIN && (envelope.len() - BLOCK_ENVELOPE_MIN) % (
        BLOCK_LEN as int) == 0
    } else {
        envelope.len() >= AEAD_ENVELOPE_MIN
    }
}

/// The part of a block cipher's sealed value that its tag covers.
pub open spec fn covered(envelope: Seq<u8>) -> Seq<u8> {
    envelope.take(envelope.len() - MAC_LEN)
}

/// The tag that a block cipher's sealed value ends in.
pub open spec fn carried_tag(envelope: Seq<u8>) -> Seq<u8> {
    envelope.skip(envelope.len() - MAC_LEN)
}

/// The value read out of `envelope` with `method` under `material`;
/// nothing where the envelope is misshapen, its tag does not match, or what
/// lies under the cipher is not a padded value.
pub open spec fn opened(method: EncryptionMethod, material: Seq<u8>, envelope: Seq<u8>) -> Option<
    Seq<u8>,
> {
    if !well_shaped(method, envelope) {
        None
    } else if method.is_block() {
        let body = covered(envelope);
        if hmac_sha256_tag(derived_key(method, material, PURPOSE_TAG), body) != carried_tag(
            envelope,
        ) {
            None
        } else {
            unpadded(
                cbc_decrypted(
                    method,
                    derived_key(method, material, PURPOSE_CIPHER),
                    body.take(BLOCK_LEN as int),
                    body.skip(BLOCK_LEN as int),
                ),
            )
        }
    } else {
        aead_opened(
            method,
            derived_key(method, material, PURPOSE_CIPHER),
            envelope.take(AEAD_NONCE_LEN as int),
            envelope.skip(AEAD_NONCE_LEN as int),
        )
    }
}

/// The HMAC-SHA-256 tag of `message` under `key`.
fn tag_of(key: &[u8], message: &[u8]) -> (tag: Vec<u8>)
    ensures
        tag@ == hmac_sha256_tag(key@, message@),
        tag@.len() == MAC_LEN,
{
    match hmac_sha256(key, message) {
        Some(tag) => tag,
        // A tag can be computed under every key.
        None => vstd::pervasive::unreached(),
    }
}

/// Derives the key for `method` and `purpose` from `material`.
pub fn derive_key(method: EncryptionMethod, material: &[u8], purpose: u8) -> (key: Vec<u8>)
    ensures
        key@ == derived_key(method, material@, purpose),
        key@.len() == if purpose == PURPOSE_CIPHER {
            method.spec_key_len()
        } else {
            MAC_LEN
        },
{
    let mut label: Vec<u8> = Vec::new();
    label.push(method.tag());
    label.push(purpose);
    assert(label@ =~= seq![method.spec_tag(), purpose]);
    let mut key = tag_of(material, label.as_slice());
    if purpose == PURPOSE_CIPHER {
        key.truncate(method.key_len());
    }
    key
}

/// Seals `plaintext` with `method` under `key_material` and the given
/// nonce.
///
/// Fails with `EncryptionFailed` exactly when the nonce does not have the
/// length the method asks for or the cipher refuses the value; a nonce
/// of the right length and a value of at most `AEAD_MAX_PLAINTEXT` bytes
/// are always sealed. What is sealed opens again to `plaintext` under the
/// same method and key material.
pub fn encrypt_with_nonce(
    method: EncryptionMethod,
    key_material: &[u8],
    nonce: &[u8],
    plaintext: &[u8],
) -> (r: Result<Vec<u8>, ErrorKind>)
    ensures
        match r {
            Ok(envelope) => {
                &&& sealed(method, key_material@, nonce@, plaintext@) == Some(envelope@)
                &&& opened(method, key_material@, envelope@) == Some(plaintext@)
            },
            Err(e) => {
                &&& sealed(method, key_material@, nonce@, plaintext@) is None
                &&& e == ErrorKind::EncryptionFailed
            },
        },
        nonce@.len() == method.spec_nonce_len() && (method.is_block() || plaintext@.len()
            <= AEAD_MAX_PLAINTEXT) ==> r is Ok,
{
    if nonce.len() != method.nonce_len() {
        return Err(ErrorKind::EncryptionFailed);
    }
    let key = derive_key(method, key_material, PURPOSE_CIPHER);
    let mut envelope: Vec<u8> = Vec::new();
    append(&mut envelope, nonce);
    assert(envelope@ =~= nonce@);
    if method.is_block_cipher() {
        let whole = pad(plaintext);
        proof {
            lemma_unpadded_padded(plaintext@);
        }
        let chained = cbc_encrypt(method, key.as_slice(), nonce, whole.as_slice());
        append(&mut envelope, chained.as_slice());
        let tag_key = derive_key(method, key_material, PURPOSE_TAG);
        let tag = tag_of(tag_key.as_slice(), envelope.as_slice());
        let ghost body = envelope@;
        append(&mut envelope, tag.as_slice());
        proof {
            assert(body == block_body(method, key_material@, nonce@, plaintext@));
            assert(covered(envelope@) =~= body);
            assert(carried_tag(envelope@) =~= tag@);
            assert(body.take(BLOCK_LEN as int) =~= nonce@);
            assert(body.skip(BLOCK_LEN as int) =~= chained@);
            assert(well_shaped(method, envelope@));
        }
        Ok(envelope)
    } else {
        let output = match method {
            EncryptionMethod::AES256 => aes256_gcm_seal(key.as_slice(), nonce, plaintext),
            _ => chacha20_poly1305_seal(key.as_slice(), nonce, plaintext),
        };
        match output {
            Some(bytes) => {
                append(&mut envelope, bytes.as_slice());
                proof {
                    assert(envelope@.take(AEAD_NONCE_LEN as int) =~= nonce@);
                    assert(envelope@.skip(AEAD_NONCE_LEN as int) =~= bytes@);
                }
                Ok(envelope)
            },
            None => Err(ErrorKind::EncryptionFailed),
        }
    }
}

/// Seals `plaintext` with `method` under `key_material` and a nonce drawn
/// afresh, so that sealing one value twice gives different bytes.
///
/// Whatever nonce was drawn, what is sealed opens again to `plaintext`
/// under the same method and key material. Fails with `EncryptionFailed`
/// when no nonce can be drawn or the cipher refuses the value.
pub fn encrypt(method: EncryptionMethod, key_material: &[u8], plaintext: &[u8]) -> (r: Result<
    Vec<u8>,
    ErrorKind,
>)
    ensures
        match r {
            Ok(envelope) => {
                &&& sealed(
                    method,
                    key_material@,
                    envelope@.take(method.spec_nonce_len() as int),
                    plaintext@,
                ) == Some(envelope@)
                &&& opened(method, key_material@, envelope@) == Some(plaintext@)
            },
            Err(e) => e == ErrorKind::EncryptionFailed,
        },
{
    match random_bytes(method.nonce_len()) {
        Some(nonce) => {
            let r = encrypt_with_nonce(method, key_material, nonce.as_slice(), plaintext);
            proof {
                if r is Ok {
                    lemma_sealed_opens_with_nonce(method, key_material@, nonce@, plaintext@);
                }
            }
            r
        },
        None => Err(ErrorKind::EncryptionFailed),
    }
}

/// Reads the value out of `envelope` with `method` under `key_material`.
///
/// Fails with `DecryptionError` exactly when the envelope is misshapen, its
/// tag does not match under this method and key material, or what lies
/// under the cipher is not a padded value.
pub fn decrypt(method: EncryptionMethod, key_material: &[u8], envelope: &[u8]) -> (r: Result<
    Vec<u8>,
    ErrorKind,
>)
    ensures
        match r {
            Ok(plaintext) => opened(method, key_material@, envelope@) == Some(plaintext@),
            Err(e) => {
                &&& opened(method, key_material@, envelope@) is None
                &&& e == ErrorKind::DecryptionError
            },
        },
{
    let len = envelope.len();
    let key = derive_key(method, key_material, PURPOSE_CIPHER);
    if method.is_block_cipher() {
        if len < BLOCK_ENVELOPE_MIN || (len - BLOCK_ENVELOPE_MIN) % BLOCK_LEN != 0 {
            return Err(ErrorKind::DecryptionError);
        }
        let body = slice_subrange(envelope, 0, len - MAC_LEN);
        let carried = slice_subrange(envelope, len - MAC_LEN, len);
        let tag_key = derive_key(method, key_material, PURPOSE_TAG);
        let tag = tag_of(tag_key.as_slice(), body);
        if !same_bytes(tag.as_slice(), carried) {
            return Err(ErrorKind::DecryptionError);
        }
        let iv = slice_subrange(body, 0, BLOCK_LEN);
        let chained = slice_subrange(body, BLOCK_LEN, body.len());
        let whole = cbc_decrypt(method, key.as_slice(), iv, chained);
        match unpad(whole.as_slice()) {
            Some(plaintext) => Ok(plaintext),
            None => Err(ErrorKind::DecryptionError),
        }
    } else {
        if len < AEAD_ENVELOPE_MIN {
            return Err(ErrorKind::DecryptionError);
        }
        let nonce = slice_subrange(envelope, 0, AEAD_NONCE_LEN);
        let output = slice_subrange(envelope, AEAD_NONCE_LEN, len);
        let opened = match method {
            EncryptionMethod::AES256 => aes256_gcm_open(key.as_slice(), nonce, output),
            _ => chacha20_poly1305_open(key.as_slice(), nonce, output),
        };
        match opened {
            Some(plaintext) => Ok(plaintext),
            None => Err(ErrorKind::DecryptionError),
        }
    }
}

/// A sealed value opens with the nonce it was sealed under.
pub proof fn lemma_sealed_opens_with_nonce(
    method: EncryptionMethod,
    material: Seq<u8>,
    nonce: Seq<u8>,
    plaintext: Seq<u8>,
)
    requires
        sealed(method, material, nonce, plaintext) is Some,
    ensures
        sealed(method, material, nonce, plaintext)->0.take(method.spec_nonce_len() as int)
            == nonce,
{
    let envelope = sealed(method, material, nonce, plaintext)->0;
    assert(envelope.take(method.spec_nonce_len() as int) =~= nonce);
}

/// Sealing under two different nonces gives two different sealed values,
/// whatever the values sealed.
pub proof fn lemma_fresh_nonce_fresh_envelope(
    method: EncryptionMethod,
    material: Seq<u8>,
    nonce_a: Seq<u8>,
    plaintext_a: Seq<u8>,
    nonce_b: Seq<u8>,
    plaintext_b: Seq<u8>,
)
    requires
        nonce_a != nonce_b,
        sealed(method, material, nonce_a, plaintext_a) is Some,
        sealed(method, material, nonce_b, plaintext_b) is Some,
    ensures
        sealed(method, material, nonce_a, plaintext_a) != sealed(
            method,
            material,
            nonce_b,
            plaintext_b,
        ),
{
    lemma_sealed_opens_with_nonce(method, material, nonce_a, plaintext_a);
    lemma_sealed_opens_with_nonce(method, material, nonce_b, plaintext_b);
}

/// Whatever is read out of an envelope was authenticated first: the
/// envelope has the shape of a sealed value, and either the cipher itself
/// accepted its tag, or, with a block cipher, the tag it carries is the one
/// that the tag key derived from this method and key material gives for
/// the bytes it covers. Nothing is handed out on any other path.
pub proof fn lemma_opened_was_authenticated(
    method: EncryptionMethod,
    material: Seq<u8>,
    envelope: Seq<u8>,
)
    requires
        opened(method, material, envelope) is Some,
    ensures
        well_shaped(method, envelope),
        method.is_block() ==> {
            &&& hmac_sha256_tag(derived_key(method, material, PURPOSE_TAG), covered(envelope))
                == carried_tag(envelope)
            &&& opened(method, material, envelope) == unpadded(
                cbc_decrypted(
                    method,
                    derived_key(method, material, PURPOSE_CIPHER),
                    covered(envelope).take(BLOCK_LEN as int),
                    covered(envelope).skip(BLOCK_LEN as int),
                ),
            )
        },
        !method.is_block() ==> opened(method, material, envelope) == aead_opened(
            method,
            derived_key(method, material, PURPOSE_CIPHER),
            envelope.take(AEAD_NONCE_LEN as int),
            envelope.skip(AEAD_NONCE_LEN as int),
        ),
{
}

/// Nothing is read out of bytes that do not have the shape of a sealed
/// value: too short for nonce and tag, or, for a block cipher, not made of
/// whole blocks.
pub proof fn lemma_misshapen_is_rejected(
    method: EncryptionMethod,
    material: Seq<u8>,
    envelope: Seq<u8>,
)
    requires
        !well_shaped(method, envelope),
    ensures
        opened(method, material, envelope) is None,
{
}

/// With a block cipher, nothing is read out of a sealed value under a
/// method or key material whose tag key gives another tag than the one the
/// value carries: a value sealed under one key does not open under
/// another unless the two tags coincide.
pub proof fn lemma_foreign_tag_is_rejected(
    method: EncryptionMethod,
    material: Seq<u8>,
    envelope: Seq<u8>,
)
    requires
        method.is_block(),
        hmac_sha256_tag(derived_key(method, material, PURPOSE_TAG), covered(envelope))
            != carried_tag(envelope),
    ensures
        opened(method, material, envelope) is None,
{
}

} // verus!
