//! Reading and writing fixed-width fields at fixed offsets of a byte buffer.

use vstd::prelude::*;
use vstd::bytes::{
    spec_u64_from_le_bytes, spec_u64_to_le_bytes, u64_from_le_bytes, u64_to_le_bytes,
};
use vstd::slice::slice_subrange;
use crate::host::compare_bytes;

verus! {

/// The little-endian integer held in the eight bytes of `data` at `offset`.
pub open spec fn spec_read_u64(data: Seq<u8>, offset: int) -> u64 {
    spec_u64_from_le_bytes(data.subrange(offset, offset + 8))
}

/// `data` with the bytes from `offset` on replaced by `src`.
pub open spec fn spec_splice(data: Seq<u8>, offset: int, src: Seq<u8>) -> Seq<u8> {
    data.subrange(0, offset) + src + data.subrange(offset + src.len(), data.len() as int)
}

/// A buffer of `n` zero bytes.
pub open spec fn spec_zeros(n: nat) -> Seq<u8> {
    Seq::new(n, |i: int| 0u8)
}

/// Two arrays with the same bytes are the same array.
pub proof fn lemma_address_ext(a: [u8; 32], b: [u8; 32])
    ensures
        (a@ == b@) <==> (a == b),
{
    if a@ == b@ {
        assert(a =~= b);
    }
}

/// Splicing keeps the length and changes nothing outside the spliced range.
pub proof fn lemma_splice(data: Seq<u8>, offset: int, src: Seq<u8>)
    requires
        0 <= offset,
        offset + src.len() <= data.len(),
    ensures
        spec_splice(data, offset, src).len() == data.len(),
        spec_splice(data, offset, src).subrange(offset, offset + src.len()) == src,
        forall|i: int| 0 <= i < offset ==> spec_splice(data, offset, src)[i] == data[i],
        forall|i: int|
            offset + src.len() <= i < data.len() ==> spec_splice(data, offset, src)[i] == data[i],
        forall|i: int|
            offset <= i < offset + src.len() ==> spec_splice(data, offset, src)[i] == src[i
                - offset],
{
    assert(spec_splice(data, offset, src).subrange(offset, offset + src.len()) =~= src);
}

/// Reads the little-endian integer at `offset`.
pub fn read_u64(data: &[u8], offset: usize) -> (r: u64)
    requires
        offset + 8 <= data@.len(),
    ensures
        r == spec_read_u64(data@, offset as int),
{
    let len: usize = data.len();
    assert(offset + 8 <= len);
    let field = slice_subrange(data, offset, offset + 8);
    u64_from_le_bytes(field)
}

/// Reads the `N` bytes at `offset`.
pub fn read_array<const N: usize>(data: &[u8], offset: usize) -> (r: [u8; N])
    requires
        offset + N <= data@.len(),
    ensures
        r@ == data@.subrange(offset as int, offset + N),
{
    let len: usize = data.len();
    let mut r: [u8; N] = [0u8; N];
    let mut i: usize = 0;
    while i < N
        invariant
            i <= N,
            offset + N <= data@.len(),
            data@.len() == len,
            forall|j: int| 0 <= j < i ==> r@[j] == data@[offset + j],
        decreases N - i,
    {
        r[i] = data[offset + i];
        i += 1;
    }
    assert(r@ =~= data@.subrange(offset as int, offset + N));
    r
}

/// Overwrites the bytes of `data` from `offset` on with `src`.
pub fn write_bytes(data: &mut Vec<u8>, offset: usize, src: &[u8])
    requires
        offset + src@.len() <= old(data)@.len(),
    ensures
        final(data)@ == spec_splice(old(data)@, offset as int, src@),
{
    let n: usize = src.len();
    let len: usize = data.len();
    let mut i: usize = 0;
    while i < n
        invariant
            i <= n,
            n == src@.len(),
            data@.len() == len,
            data@.len() == old(data)@.len(),
            offset + n <= data@.len(),
            forall|j: int| 0 <= j < i ==> data@[offset + j] == src@[j],
            forall|j: int| 0 <= j < offset ==> data@[j] == old(data)@[j],
            forall|j: int| offset + i <= j < data@.len() ==> data@[j] == old(data)@[j],
        decreases n - i,
    {
        data[offset + i] = src[i];
        i += 1;
    }
    assert(data@ =~= spec_splice(old(data)@, offset as int, src@));
}

/// Writes `value` as a little-endian integer at `offset`.
pub fn write_u64(data: &mut Vec<u8>, offset: usize, value: u64)
    requires
        offset + 8 <= old(data)@.len(),
    ensures
        final(data)@ == spec_splice(old(data)@, offset as int, spec_u64_to_le_bytes(value)),
{
    let bytes = u64_to_le_bytes(value);
    write_bytes(data, offset, bytes.as_slice());
}

/// A fresh buffer of `n` zero bytes.
pub fn zeros(n: usize) -> (r: Vec<u8>)
    ensures
        r@ == spec_zeros(n as nat),
{
    let mut r: Vec<u8> = Vec::new();
    let mut i: usize = 0;
    while i < n
        invariant
            i <= n,
            r@.len() == i,
            forall|j: int| 0 <= j < i ==> r@[j] == 0u8,
        decreases n - i,
    {
        r.push(0u8);
        i += 1;
    }
    assert(r@ =~= spec_zeros(n as nat));
    r
}

/// Full 32-byte comparison of two addresses.
pub fn same_address(a: &[u8; 32], b: &[u8; 32]) -> (r: bool)
    ensures
        r == (a@ == b@),
        r == (*a == *b),
{
    let r = compare_bytes(a.as_slice(), b.as_slice(), 32) == 0;
    proof {
        if r {
            assert(a@ =~= b@);
        }
        lemma_address_ext(*a, *b);
    }
    r
}

} // verus!
