//! Cipher block chaining over the two block ciphers.
//!
//! Every block of the padded value is combined with the block of
//! ciphertext before it (the initialisation vector for the first) and then
//! encrypted, so that equal blocks of a value do not give equal blocks of
//! ciphertext.

use vstd::prelude::*;
use vstd::slice::slice_subrange;
use crate::cipher::bytes::append;
use crate::cipher::primitives::{
    BLOCK_LEN,
    blowfish_block_decrypted,
    blowfish_block_encrypted,
    blowfish_decrypt_block,
    blowfish_encrypt_block,
    tdes_block_decrypted,
    tdes_block_encrypted,
    tdes_decrypt_block,
    tdes_encrypt_block,
};
use crate::models::EncryptionMethod;

verus! {

/// One block as the block cipher `method` encrypts it under `key`.
pub open spec fn block_encrypted(method: EncryptionMethod, key: Seq<u8>, block: Seq<u8>) -> Seq<u8> {
    if method == EncryptionMethod::Blowfish {
        blowfish_block_encrypted(key, block)
    } else {
        tdes_block_encrypted(key, block)
    }
}

/// One block as the block cipher `method` decrypts it under `key`.
pub open spec fn block_decrypted(method: EncryptionMethod, key: Seq<u8>, block: Seq<u8>) -> Seq<u8> {
    if method == EncryptionMethod::Blowfish {
        blowfish_block_decrypted(key, block)
    } else {
        tdes_block_decrypted(key, block)
    }
}

/// The bytes of `a`, each combined with the byte of `b` at its place by
/// exclusive or.
pub open spec fn xored(a: Seq<u8>, b: Seq<u8>) -> Seq<u8> {
    Seq::new(a.len(), |i: int| a[i] ^ b[i])
}

/// Block number `index` of `data`.
pub open spec fn block_at(data: Seq<u8>, index: int) -> Seq<u8> {
    data.subrange(index * BLOCK_LEN, index * BLOCK_LEN + BLOCK_LEN)
}

/// What block number `index` of `data` is chained to: the block before it,
/// or `iv` for the first.
pub open spec fn chained_to(iv: Seq<u8>, data: Seq<u8>, index: int) -> Seq<u8> {
    if index == 0 {
        iv
    } else {
        block_at(data, index - 1)
    }
}

/// The chained encryption of `data`, whose first block is chained to
/// `previous`. Bytes after the last whole block are left out.
pub open spec fn cbc_encrypted(
    method: EncryptionMethod,
    key: Seq<u8>,
    previous: Seq<u8>,
    data: Seq<u8>,
) -> Seq<u8>
    decreases data.len(),
{
    if data.len() < BLOCK_LEN {
        Seq::empty()
    } else {
        let block = block_encrypted(method, key, xored(data.take(BLOCK_LEN as int), previous));
        block + cbc_encrypted(method, key, block, data.skip(BLOCK_LEN as int))
    }
}

/// Block number `index` of the chained decryption of `data`.
pub open spec fn cbc_decrypted_block(
    method: EncryptionMethod,
    key: Seq<u8>,
    iv: Seq<u8>,
    data: Seq<u8>,
    index: int,
) -> Seq<u8> {
    xored(block_decrypted(method, key, block_at(data, index)), chained_to(iv, data, index))
}

/// The chained decryption of the whole blocks of `data`.
pub open spec fn cbc_decrypted(
    method: EncryptionMethod,
    key: Seq<u8>,
    iv: Seq<u8>,
    data: Seq<u8>,
) -> Seq<u8> {
    Seq::new(
        (data.len() / (BLOCK_LEN as nat) * BLOCK_LEN) as nat,
        |i: int|
            cbc_decrypted_block(method, key, iv, data, i / (BLOCK_LEN as int))[i % (
            BLOCK_LEN as int)],
    )
}

/// Combining with the same bytes twice gives the first bytes back.
pub proof fn lemma_xored_twice(a: Seq<u8>, b: Seq<u8>)
    requires
        a.len() == b.len(),
    ensures
        xored(xored(a, b), b) == a,
{
    assert forall|i: int| 0 <= i < a.len() implies xored(xored(a, b), b)[i] == a[i] by {
        let x = a[i];
        let y = b[i];
        assert((x ^ y) ^ y == x) by (bit_vector);
    }
    assert(xored(xored(a, b), b) =~= a);
}

/// Combines two blocks by exclusive or.
fn xor_blocks(a: &[u8], b: &[u8]) -> (out: Vec<u8>)
    requires
        a@.len() == b@.len(),
    ensures
        out@ == xored(a@, b@),
{
    let mut out: Vec<u8> = Vec::new();
    let mut i: usize = 0;
    while i < a.len()
        invariant
            i <= a@.len(),
            a@.len() == b@.len(),
            out@.len() == i,
            forall|k: int| 0 <= k < i ==> out@[k] == a@[k] ^ b@[k],
        decreases a.len() - i,
    {
        out.push(a[i] ^ b[i]);
        i += 1;
    }
    assert(out@ =~= xored(a@, b@));
    out
}

/// Encrypts one block with the block cipher `method`.
fn encrypt_block(method: EncryptionMethod, key: &[u8], block: &[u8]) -> (out: Vec<u8>)
    requires
        method.is_block(),
        key@.len() == method.spec_key_len(),
        block@.len() == BLOCK_LEN,
    ensures
        out@ == block_encrypted(method, key@, block@),
        out@.len() == BLOCK_LEN,
        block_decrypted(method, key@, out@) == block@,
{
    let encrypted = match method {
        EncryptionMethod::Blowfish => blowfish_encrypt_block(key, block),
        _ => tdes_encrypt_block(key, block),
    };
    match encrypted {
        Some(bytes) => bytes,
        // The ciphers take every key of the length asked for above.
        None => vstd::pervasive::unreached(),
    }
}

/// Decrypts one block with the block cipher `method`.
fn decrypt_block(method: EncryptionMethod, key: &[u8], block: &[u8]) -> (out: Vec<u8>)
    requires
        method.is_block(),
        key@.len() == method.spec_key_len(),
        block@.len() == BLOCK_LEN,
    ensures
        out@ == block_decrypted(method, key@, block@),
        out@.len() == BLOCK_LEN,
{
    let decrypted = match method {
        EncryptionMethod::Blowfish => blowfish_decrypt_block(key, block),
        _ => tdes_decrypt_block(key, block),
    };
    match decrypted {
        Some(bytes) => bytes,
        // The ciphers take every key of the length asked for above.
        None => vstd::pervasive::unreached(),
    }
}

/// Encrypts `data`, which fills whole blocks, in chained mode, starting
/// from the initialisation vector `iv`.
///
/// The result has the length of `data`, and decrypting it in chained mode
/// under the same key and vector gives `data` back.
pub(crate) fn cbc_encrypt(method: EncryptionMethod, key: &[u8], iv: &[u8], data: &[u8]) -> (out: Vec<u8>)
    requires
        method.is_block(),
        key@.len() == method.spec_key_len(),
        iv@.len() == BLOCK_LEN,
        data@.len() % (BLOCK_LEN as nat) == 0,
    ensures
        out@ == cbc_encrypted(method, key@, iv@, data@),
        out@.len() == data@.len(),
        cbc_decrypted(method, key@, iv@, out@) == data@,
{
    let blocks = data.len() / BLOCK_LEN;
    let mut out: Vec<u8> = Vec::new();
    let mut previous: Vec<u8> = vstd::slice::slice_to_vec(iv);
    let mut b: usize = 0;
    assert(data@.skip(0) =~= data@);
    while b < blocks
        invariant
            method.is_block(),
            key@.len() == method.spec_key_len(),
            iv@.len() == BLOCK_LEN,
            blocks * BLOCK_LEN == data@.len(),
            data@.len() <= usize::MAX,
            b <= blocks,
            out@.len() == b * BLOCK_LEN,
            previous@.len() == BLOCK_LEN,
            previous@ == chained_to(iv@, out@, b as int),
            cbc_encrypted(method, key@, iv@, data@) == out@ + cbc_encrypted(
                method,
                key@,
                previous@,
                data@.skip(b * BLOCK_LEN),
            ),
            forall|k: int|
                0 <= k < b ==> #[trigger] cbc_decrypted_block(method, key@, iv@, out@, k)
                    == block_at(data@, k),
        decreases blocks - b,
    {
        assert(b * BLOCK_LEN + BLOCK_LEN <= blocks * BLOCK_LEN) by (nonlinear_arith)
            requires
                b < blocks,
        ;
        let start = b * BLOCK_LEN;
        let plain = slice_subrange(data, start, start + BLOCK_LEN);
        let mixed = xor_blocks(plain, previous.as_slice());
        let block = encrypt_block(method, key, mixed.as_slice());
        let ghost before = out@;
        append(&mut out, block.as_slice());
        proof {
            let rest = data@.skip(start as int);
            assert(rest.take(BLOCK_LEN as int) =~= plain@);
            assert(rest.skip(BLOCK_LEN as int) =~= data@.skip(start + BLOCK_LEN));
            assert(out@ + cbc_encrypted(
                method,
                key@,
                block@,
                data@.skip(start + BLOCK_LEN),
            ) =~= before + cbc_encrypted(method, key@, previous@, rest));
            assert(block_at(out@, b as int) =~= block@);
            assert(chained_to(iv@, out@, b as int) =~= previous@) by {
                if b > 0 {
                    assert(block_at(out@, b - 1) =~= block_at(before, b - 1));
                }
            }
            lemma_xored_twice(plain@, previous@);
            assert(plain@ == block_at(data@, b as int));
            assert forall|k: int| 0 <= k < b + 1 implies #[trigger] cbc_decrypted_block(
                method,
                key@,
                iv@,
                out@,
                k,
            ) == block_at(data@, k) by {
                if k < b {
                    assert(block_at(out@, k) =~= block_at(before, k));
                    if k > 0 {
                        assert(block_at(out@, k - 1) =~= block_at(before, k - 1));
                    }
                    assert(cbc_decrypted_block(method, key@, iv@, before, k) == block_at(
                        data@,
                        k,
                    ));
                }
            }
        }
        previous = block;
        b += 1;
    }
    proof {
        assert(data@.skip(data@.len() as int) =~= Seq::<u8>::empty());
        assert(out@ + Seq::<u8>::empty() =~= out@);
        lemma_decrypted_from_blocks(method, key@, iv@, out@, data@);
    }
    out
}

/// A chained decryption whose every block is the block of `data` at its
/// place is `data`.
proof fn lemma_decrypted_from_blocks(
    method: EncryptionMethod,
    key: Seq<u8>,
    iv: Seq<u8>,
    sealed: Seq<u8>,
    data: Seq<u8>,
)
    requires
        sealed.len() == data.len(),
        data.len() % (BLOCK_LEN as nat) == 0,
        forall|k: int|
            0 <= k < data.len() / (BLOCK_LEN as nat) ==> #[trigger] cbc_decrypted_block(
                method,
                key,
                iv,
                sealed,
                k,
            ) == block_at(data, k),
    ensures
        cbc_decrypted(method, key, iv, sealed) == data,
{
    let opened = cbc_decrypted(method, key, iv, sealed);
    assert(opened.len() == data.len());
    assert forall|i: int| 0 <= i < data.len() implies opened[i] == data[i] by {
        let k = i / (BLOCK_LEN as int);
        assert(cbc_decrypted_block(method, key, iv, sealed, k) == block_at(data, k));
        assert(block_at(data, k)[i % (BLOCK_LEN as int)] == data[i]);
    }
    assert(opened =~= data);
}

/// Decrypts the whole blocks of `data` in chained mode, starting from the
/// initialisation vector `iv`.
pub(crate) fn cbc_decrypt(method: EncryptionMethod, key: &[u8], iv: &[u8], data: &[u8]) -> (out: Vec<u8>)
    requires
        method.is_block(),
        key@.len() == method.spec_key_len(),
        iv@.len() == BLOCK_LEN,
        data@.len() % (BLOCK_LEN as nat) == 0,
    ensures
        out@ == cbc_decrypted(method, key@, iv@, data@),
        out@.len() == data@.len(),
{
    let blocks = data.len() / BLOCK_LEN;
    let mut out: Vec<u8> = Vec::new();
    let mut b: usize = 0;
    while b < blocks
        invariant
            method.is_block(),
            key@.len() == method.spec_key_len(),
            iv@.len() == BLOCK_LEN,
            blocks * BLOCK_LEN == data@.len(),
            data@.len() <= usize::MAX,
            b <= blocks,
            out@.len() == b * BLOCK_LEN,
            forall|k: int|
                0 <= k < b ==> #[trigger] block_at(out@, k) == cbc_decrypted_block(
                    method,
                    key@,
                    iv@,
                    data@,
                    k,
                ),
        decreases blocks - b,
    {
        assert(b * BLOCK_LEN + BLOCK_LEN <= blocks * BLOCK_LEN) by (nonlinear_arith)
            requires
                b < blocks,
        ;
        let start = b * BLOCK_LEN;
        let sealed = slice_subrange(data, start, start + BLOCK_LEN);
        let mixed = decrypt_block(method, key, sealed);
        let plain = if b == 0 {
            xor_blocks(mixed.as_slice(), iv)
        } else {
            xor_blocks(mixed.as_slice(), slice_subrange(data, start - BLOCK_LEN, start))
        };
        let ghost before = out@;
        append(&mut out, plain.as_slice());
        proof {
            assert(block_at(out@, b as int) =~= plain@);
            assert forall|k: int| 0 <= k < b + 1 implies #[trigger] block_at(out@, k)
                == cbc_decrypted_block(method, key@, iv@, data@, k) by {
                if k < b {
                    assert(block_at(out@, k) =~= block_at(before, k));
                }
            }
        }
        b += 1;
    }
    proof {
        let wanted = cbc_decrypted(method, key@, iv@, data@);
        assert forall|i: int| 0 <= i < out@.len() implies out@[i] == wanted[i] by {
            let k = i / (BLOCK_LEN as int);
            assert(block_at(out@, k) == cbc_decrypted_block(method, key@, iv@, data@, k));
            assert(block_at(out@, k)[i % (BLOCK_LEN as int)] == out@[i]);
        }
        assert(out@ =~= wanted);
    }
    out
}

} // verus!
