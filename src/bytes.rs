//! Fixed-width integer reads out of byte buffers.
//!
//! The FRIBDAQ ring items are little-endian, the GET frames big-endian. Each
//! reader states the value it returns as an integer formula over the bytes.
use vstd::prelude::*;

verus! {

/// Little-endian 16-bit value at offset `i`.
pub open spec fn le16(b: Seq<u8>, i: int) -> int {
    b[i] as int + b[i + 1] as int * 0x100
}

/// Little-endian 32-bit value at offset `i`.
pub open spec fn le32(b: Seq<u8>, i: int) -> int {
    le16(b, i) + le16(b, i + 2) * 0x1_0000
}

/// Little-endian 64-bit value at offset `i`.
pub open spec fn le64(b: Seq<u8>, i: int) -> int {
    le32(b, i) + le32(b, i + 4) * 0x1_0000_0000
}

/// Big-endian 16-bit value at offset `i`.
pub open spec fn be16(b: Seq<u8>, i: int) -> int {
    b[i] as int * 0x100 + b[i + 1] as int
}

/// Big-endian 24-bit value at offset `i`.
pub open spec fn be24(b: Seq<u8>, i: int) -> int {
    b[i] as int * 0x1_0000 + be16(b, i + 1)
}

/// Big-endian 32-bit value at offset `i`.
pub open spec fn be32(b: Seq<u8>, i: int) -> int {
    be16(b, i) * 0x1_0000 + be16(b, i + 2)
}

/// Big-endian 48-bit value at offset `i`.
pub open spec fn be48(b: Seq<u8>, i: int) -> int {
    be16(b, i) * 0x1_0000_0000 + be32(b, i + 2)
}

pub fn read_le16(b: &Vec<u8>, i: usize) -> (r: u16)
    requires
        i + 2 <= b.len(),
    ensures
        r as int == le16(b@, i as int),
{
    b[i] as u16 + (b[i + 1] as u16) * 0x100
}

pub fn read_le32(b: &Vec<u8>, i: usize) -> (r: u32)
    requires
        i + 4 <= b.len(),
    ensures
        r as int == le32(b@, i as int),
{
    let lo = read_le16(b, i);
    let hi = read_le16(b, i + 2);
    lo as u32 + (hi as u32) * 0x1_0000
}

pub fn read_le64(b: &Vec<u8>, i: usize) -> (r: u64)
    requires
        i + 8 <= b.len(),
    ensures
        r as int == le64(b@, i as int),
{
    let lo = read_le32(b, i);
    let hi = read_le32(b, i + 4);
    lo as u64 + (hi as u64) * 0x1_0000_0000
}

pub fn read_be16(b: &Vec<u8>, i: usize) -> (r: u16)
    requires
        i + 2 <= b.len(),
    ensures
        r as int == be16(b@, i as int),
{
    (b[i] as u16) * 0x100 + b[i + 1] as u16
}

pub fn read_be24(b: &Vec<u8>, i: usize) -> (r: u32)
    requires
        i + 3 <= b.len(),
    ensures
        r as int == be24(b@, i as int),
{
    (b[i] as u32) * 0x1_0000 + read_be16(b, i + 1) as u32
}

pub fn read_be32(b: &Vec<u8>, i: usize) -> (r: u32)
    requires
        i + 4 <= b.len(),
    ensures
        r as int == be32(b@, i as int),
{
    let hi = read_be16(b, i);
    let lo = read_be16(b, i + 2);
    (hi as u32) * 0x1_0000 + lo as u32
}

pub fn read_be48(b: &Vec<u8>, i: usize) -> (r: u64)
    requires
        i + 6 <= b.len(),
    ensures
        r as int == be48(b@, i as int),
{
    let hi = read_be16(b, i);
    let lo = read_be32(b, i + 2);
    (hi as u64) * 0x1_0000_0000 + lo as u64
}

} // verus!

verus! {

/// A fresh vector holding `b[start..end]`.
pub fn copy_range(b: &Vec<u8>, start: usize, end: usize) -> (r: Vec<u8>)
    requires
        start <= end <= b.len(),
    ensures
        r@ == b@.subrange(start as int, end as int),
{
    let mut r: Vec<u8> = Vec::new();
    let mut i: usize = start;
    while i < end
        invariant
            start <= i <= end <= b.len(),
            r@ == b@.subrange(start as int, i as int),
        decreases end - i,
    {
        r.push(b[i]);
        i = i + 1;
    }
    r
}

/// Appends `b[start..end]` to `out`.
pub fn extend_from_range(out: &mut Vec<u8>, b: &Vec<u8>, start: usize, end: usize)
    requires
        start <= end <= b.len(),
    ensures
        final(out)@ == old(out)@ + b@.subrange(start as int, end as int),
{
    let mut i: usize = start;
    while i < end
        invariant
            start <= i <= end <= b.len(),
            out@ == old(out)@ + b@.subrange(start as int, i as int),
        decreases end - i,
    {
        out.push(b[i]);
        i = i + 1;
    }
}

} // verus!
