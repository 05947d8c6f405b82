//! Padding of a value to whole cipher blocks.
//!
//! A value is followed by `n` bytes of value `n`, with `n` between 1 and the
//! block length, so that the result fills whole blocks and the padding can
//! be taken off again without knowing the value's length.

use vstd::prelude::*;
use crate::cipher::bytes::bytes_of;
use crate::cipher::primitives::BLOCK_LEN;

verus! {

/// The number of padding bytes that follow a value of `len` bytes.
pub open spec fn pad_count(len: int) -> int {
    BLOCK_LEN - len % (BLOCK_LEN as int)
}

/// `data` followed by its padding.
pub open spec fn padded(data: Seq<u8>) -> Seq<u8> {
    data + Seq::new(pad_count(data.len() as int) as nat, |i: int| pad_count(data.len() as int) as u8)
}

/// Whether `data` ends in the padding of `count` bytes.
pub open spec fn ends_in_padding(data: Seq<u8>, count: int) -> bool {
    &&& 1 <= count <= BLOCK_LEN
    &&& count <= data.len()
    &&& forall|i: int| data.len() - count <= i < data.len() ==> data[i] == count
}

/// `data` without its padding, or nothing where `data` is not a padded
/// value: where it is empty, does not fill whole blocks, or does not end in
/// the padding that its last byte announces.
pub open spec fn unpadded(data: Seq<u8>) -> Option<Seq<u8>> {
    if data.len() == 0 || data.len() % (BLOCK_LEN as nat) != 0 {
        None
    } else if ends_in_padding(data, data.last() as int) {
        Some(data.take(data.len() - data.last()))
    } else {
        None
    }
}

/// Taking the padding off a padded value gives the value back.
pub proof fn lemma_unpadded_padded(data: Seq<u8>)
    ensures
        padded(data).len() == data.len() + pad_count(data.len() as int),
        padded(data).len() % (BLOCK_LEN as nat) == 0,
        1 <= pad_count(data.len() as int) <= BLOCK_LEN,
        unpadded(padded(data)) == Some(data),
{
    let count = pad_count(data.len() as int);
    let p = padded(data);
    assert(p.last() == count as u8);
    assert(ends_in_padding(p, count));
    assert(p.take(p.len() - count) =~= data);
}

/// Pads `data` to whole blocks.
pub fn pad(data: &[u8]) -> (out: Vec<u8>)
    ensures
        out@ == padded(data@),
{
    let count: usize = BLOCK_LEN - data.len() % BLOCK_LEN;
    let mut out: Vec<u8> = Vec::new();
    let mut i: usize = 0;
    while i < data.len()
        invariant
            i <= data.len(),
            out@ == data@.take(i as int),
        decreases data.len() - i,
    {
        out.push(data[i]);
        assert(out@ =~= data@.take(i + 1));
        i += 1;
    }
    assert(data@.take(data.len() as int) =~= data@);
    let mut j: usize = 0;
    while j < count
        invariant
            j <= count,
            count == pad_count(data@.len() as int),
            1 <= count <= BLOCK_LEN,
            out@ == data@ + Seq::new(j as nat, |k: int| count as u8),
        decreases count - j,
    {
        out.push(count as u8);
        assert(out@ =~= data@ + Seq::new((j + 1) as nat, |k: int| count as u8));
        j += 1;
    }
    assert(out@ =~= padded(data@));
    out
}

/// Takes the padding off `data`; gives nothing where `data` is not a padded
/// value.
pub fn unpad(data: &[u8]) -> (out: Option<Vec<u8>>)
    ensures
        bytes_of(out) == unpadded(data@),
{
    let len = data.len();
    if len == 0 || len % BLOCK_LEN != 0 {
        return None;
    }
    let last = data[len - 1];
    let count = last as usize;
    if count < 1 || count > BLOCK_LEN {
        return None;
    }
    let mut i: usize = len - count;
    while i < len
        invariant
            len == data@.len(),
            1 <= count <= BLOCK_LEN,
            count <= len,
            last == data@.last(),
            count == last,
            len - count <= i <= len,
            forall|k: int| len - count <= k < i ==> data@[k] == count,
        decreases len - i,
    {
        if data[i] != last {
            assert(!ends_in_padding(data@, count as int));
            return None;
        }
        i += 1;
    }
    assert(ends_in_padding(data@, count as int));
    let mut out: Vec<u8> = Vec::new();
    let mut j: usize = 0;
    while j < len - count
        invariant
            count <= len,
            len == data@.len(),
            j <= len - count,
            out@ == data@.take(j as int),
        decreases len - count - j,
    {
        out.push(data[j]);
        assert(out@ =~= data@.take(j + 1));
        j += 1;
    }
    Some(out)
}

} // verus!
