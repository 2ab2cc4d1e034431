//! Fixed-layout field extraction from a bounded byte buffer.
//!
//! Every read carries an explicit bound check against the slice length;
//! nothing here trusts a structure-declared length.

use vstd::prelude::*;

verus! {

/// Little-endian value of two bytes.
pub open spec fn u16_le(b0: u8, b1: u8) -> int {
    b0 + 0x100 * b1
}

/// Little-endian value of four bytes.
pub open spec fn u32_le(b0: u8, b1: u8, b2: u8, b3: u8) -> int {
    b0 + 0x100 * b1 + 0x1_0000 * b2 + 0x100_0000 * b3
}

/// Little-endian value of eight bytes.
pub open spec fn u64_le(s: Seq<u8>) -> int
    recommends
        s.len() == 8,
{
    s[0] + 0x100 * s[1] + 0x1_0000 * s[2] + 0x100_0000 * s[3] + 0x1_0000_0000 * s[4]
        + 0x100_0000_0000 * s[5] + 0x1_0000_0000_0000 * s[6] + 0x100_0000_0000_0000 * s[7]
}

/// Reads a two-byte little-endian field at `offset`.
pub fn read_u16_le(data: &[u8], offset: usize) -> (r: u16)
    requires
        offset + 2 <= data@.len(),
    ensures
        r == u16_le(data@[offset as int], data@[offset as int + 1]),
{
    let lo = data[offset] as u16;
    let hi = data[offset + 1] as u16;
    lo + hi * 0x100
}

/// Reads a four-byte little-endian field at `offset`.
pub fn read_u32_le(data: &[u8], offset: usize) -> (r: u32)
    requires
        offset + 4 <= data@.len(),
    ensures
        r == u32_le(
            data@[offset as int],
            data@[offset as int + 1],
            data@[offset as int + 2],
            data@[offset as int + 3],
        ),
{
    let b0 = data[offset] as u32;
    let b1 = data[offset + 1] as u32;
    let b2 = data[offset + 2] as u32;
    let b3 = data[offset + 3] as u32;
    b0 + b1 * 0x100 + b2 * 0x1_0000 + b3 * 0x100_0000
}

/// Reads an eight-byte little-endian field at `offset`.
pub fn read_u64_le(data: &[u8], offset: usize) -> (r: u64)
    requires
        offset + 8 <= data@.len(),
    ensures
        r == u64_le(data@.subrange(offset as int, offset as int + 8)),
{
    let n = data.len();
    let lo = read_u32_le(data, offset) as u64;
    let hi = read_u32_le(data, offset + 4) as u64;
    let r = lo + hi * 0x1_0000_0000;
    proof {
        let s = data@.subrange(offset as int, offset as int + 8);
        assert(s[0] == data@[offset as int]);
        assert(s[1] == data@[offset as int + 1]);
        assert(s[2] == data@[offset as int + 2]);
        assert(s[3] == data@[offset as int + 3]);
        assert(s[4] == data@[offset as int + 4]);
        assert(s[5] == data@[offset as int + 5]);
        assert(s[6] == data@[offset as int + 6]);
        assert(s[7] == data@[offset as int + 7]);
    }
    r
}

/// Big-endian value of four bytes.
pub open spec fn u32_be(b0: u8, b1: u8, b2: u8, b3: u8) -> int {
    b3 + 0x100 * b2 + 0x1_0000 * b1 + 0x100_0000 * b0
}

/// Reads a four-byte big-endian field at `offset`.
pub fn read_u32_be(data: &[u8], offset: usize) -> (r: u32)
    requires
        offset + 4 <= data@.len(),
    ensures
        r == u32_be(
            data@[offset as int],
            data@[offset as int + 1],
            data@[offset as int + 2],
            data@[offset as int + 3],
        ),
{
    let b0 = data[offset] as u32;
    let b1 = data[offset + 1] as u32;
    let b2 = data[offset + 2] as u32;
    let b3 = data[offset + 3] as u32;
    b3 + b2 * 0x100 + b1 * 0x1_0000 + b0 * 0x100_0000
}

/// Copies `data[start .. start + len]` into an owned buffer.
pub fn copy_range(data: &[u8], start: usize, len: usize) -> (r: Vec<u8>)
    requires
        start + len <= data@.len(),
    ensures
        r@ == data@.subrange(start as int, start as int + len as int),
{
    let n = data.len();
    let mut r: Vec<u8> = Vec::new();
    let mut i: usize = 0;
    while i < len
        invariant
            n == data@.len(),
            start + len <= n,
            i <= len,
            r@.len() == i,
            forall|j: int| 0 <= j < i ==> r@[j] == data@[start + j],
        decreases len - i,
    {
        r.push(data[start + i]);
        i = i + 1;
    }
    proof {
        assert(r@ =~= data@.subrange(start as int, start as int + len as int));
    }
    r
}

/// Equality of two byte sequences, element by element.
pub fn bytes_eq(a: &[u8], b: &[u8]) -> (r: bool)
    ensures
        r == (a@ == b@),
{
    if a.len() != b.len() {
        proof {
            assert(a@.len() != b@.len());
        }
        return false;
    }
    let n = a.len();
    let mut i: usize = 0;
    while i < n
        invariant
            n == a@.len(),
            n == b@.len(),
            i <= n,
            forall|j: int| 0 <= j < i ==> a@[j] == b@[j],
        decreases n - i,
    {
        if a[i] != b[i] {
            proof {
                assert(a@[i as int] != b@[i as int]);
            }
            return false;
        }
        i = i + 1;
    }
    proof {
        assert(a@ =~= b@);
    }
    true
}

} // verus!
