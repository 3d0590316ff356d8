//! Little-endian integer fields inside byte sequences.
//!
//! Every multi-byte field of a ZIP record is stored least significant byte
//! first. The spec functions here give the value of such a field in plain
//! integer arithmetic, and the executable functions read and write fields
//! with contracts stated over them.

use vstd::prelude::*;

verus! {

/// The value of the two-byte field that starts at index `at` of `bytes`.
pub open spec fn le16(bytes: Seq<u8>, at: int) -> u16 {
    (bytes[at] as int + 0x100 * (bytes[at + 1] as int)) as u16
}

/// The value of the four-byte field that starts at index `at` of `bytes`.
pub open spec fn le32(bytes: Seq<u8>, at: int) -> u32 {
    (le16(bytes, at) as int + 0x1_0000 * (le16(bytes, at + 2) as int)) as u32
}

/// The value of the eight-byte field that starts at index `at` of `bytes`.
pub open spec fn le64(bytes: Seq<u8>, at: int) -> u64 {
    (le32(bytes, at) as int + 0x1_0000_0000 * (le32(bytes, at + 4) as int)) as u64
}

/// The two bytes that store `value`.
pub open spec fn le16_bytes(value: u16) -> Seq<u8> {
    seq![(value % 0x100) as u8, (value / 0x100) as u8]
}

/// The four bytes that store `value`.
pub open spec fn le32_bytes(value: u32) -> Seq<u8> {
    le16_bytes((value % 0x1_0000) as u16) + le16_bytes((value / 0x1_0000) as u16)
}

/// The eight bytes that store `value`.
pub open spec fn le64_bytes(value: u64) -> Seq<u8> {
    le32_bytes((value % 0x1_0000_0000) as u32) + le32_bytes((value / 0x1_0000_0000) as u32)
}

/// A field's value depends only on the bytes it covers: it is the value of
/// the field cut out of the sequence.
pub proof fn lemma_le16_subrange(bytes: Seq<u8>, at: int)
    requires
        0 <= at,
        at + 2 <= bytes.len(),
    ensures
        le16(bytes, at) == le16(bytes.subrange(at, at + 2), 0),
{
}

/// As `lemma_le16_subrange`, for four bytes.
pub proof fn lemma_le32_subrange(bytes: Seq<u8>, at: int)
    requires
        0 <= at,
        at + 4 <= bytes.len(),
    ensures
        le32(bytes, at) == le32(bytes.subrange(at, at + 4), 0),
{
}

/// As `lemma_le16_subrange`, for eight bytes.
pub proof fn lemma_le64_subrange(bytes: Seq<u8>, at: int)
    requires
        0 <= at,
        at + 8 <= bytes.len(),
    ensures
        le64(bytes, at) == le64(bytes.subrange(at, at + 8), 0),
{
}

/// Reading back a stored two-byte value gives the value.
pub proof fn lemma_le16_round_trip(value: u16)
    ensures
        le16_bytes(value).len() == 2,
        le16(le16_bytes(value), 0) == value,
{
}

/// Reading back a stored four-byte value gives the value.
pub proof fn lemma_le32_round_trip(value: u32)
    ensures
        le32_bytes(value).len() == 4,
        le32(le32_bytes(value), 0) == value,
{
    let low = (value % 0x1_0000) as u16;
    let high = (value / 0x1_0000) as u16;
    let bytes = le32_bytes(value);
    lemma_le16_round_trip(low);
    lemma_le16_round_trip(high);
    assert(bytes.subrange(0, 2) =~= le16_bytes(low));
    assert(bytes.subrange(2, 4) =~= le16_bytes(high));
    lemma_le16_subrange(bytes, 0);
    lemma_le16_subrange(bytes, 2);
}

/// Storing the value of four bytes gives the four bytes.
pub proof fn lemma_le32_bytes_of_le32(bytes: Seq<u8>)
    requires
        bytes.len() == 4,
    ensures
        le32_bytes(le32(bytes, 0)) == bytes,
{
    assert(le32_bytes(le32(bytes, 0)) =~= bytes);
}

/// Reading back a stored eight-byte value gives the value.
pub proof fn lemma_le64_round_trip(value: u64)
    ensures
        le64_bytes(value).len() == 8,
        le64(le64_bytes(value), 0) == value,
{
    let low = (value % 0x1_0000_0000) as u32;
    let high = (value / 0x1_0000_0000) as u32;
    let bytes = le64_bytes(value);
    lemma_le32_round_trip(low);
    lemma_le32_round_trip(high);
    assert(bytes.subrange(0, 4) =~= le32_bytes(low));
    assert(bytes.subrange(4, 8) =~= le32_bytes(high));
    lemma_le32_subrange(bytes, 0);
    lemma_le32_subrange(bytes, 4);
}

/// Reads the two-byte field at `at`.
pub fn read_u16(bytes: &[u8], at: usize) -> (value: u16)
    requires
        at + 2 <= bytes.len(),
    ensures
        value == le16(bytes@, at as int),
{
    let low: u16 = bytes[at] as u16;
    let high: u16 = bytes[at + 1] as u16;
    low + 0x100 * high
}

/// Reads the four-byte field at `at`.
pub fn read_u32(bytes: &[u8], at: usize) -> (value: u32)
    requires
        at + 4 <= bytes.len(),
    ensures
        value == le32(bytes@, at as int),
{
    let low: u32 = read_u16(bytes, at) as u32;
    let high: u32 = read_u16(bytes, at + 2) as u32;
    low + 0x1_0000 * high
}

/// Reads the eight-byte field at `at`.
pub fn read_u64(bytes: &[u8], at: usize) -> (value: u64)
    requires
        at + 8 <= bytes.len(),
    ensures
        value == le64(bytes@, at as int),
{
    let low: u64 = read_u32(bytes, at) as u64;
    let high: u64 = read_u32(bytes, at + 4) as u64;
    low + 0x1_0000_0000 * high
}

/// Appends the two bytes that store `value`.
pub fn write_u16(out: &mut Vec<u8>, value: u16)
    ensures
        final(out)@ == old(out)@ + le16_bytes(value),
{
    out.push((value % 0x100) as u8);
    out.push((value / 0x100) as u8);
    assert(out@ =~= old(out)@ + le16_bytes(value));
}

/// Appends the four bytes that store `value`.
pub fn write_u32(out: &mut Vec<u8>, value: u32)
    ensures
        final(out)@ == old(out)@ + le32_bytes(value),
{
    write_u16(out, (value % 0x1_0000) as u16);
    write_u16(out, (value / 0x1_0000) as u16);
    assert(out@ =~= old(out)@ + le32_bytes(value));
}

/// Appends the eight bytes that store `value`.
pub fn write_u64(out: &mut Vec<u8>, value: u64)
    ensures
        final(out)@ == old(out)@ + le64_bytes(value),
{
    write_u32(out, (value % 0x1_0000_0000) as u32);
    write_u32(out, (value / 0x1_0000_0000) as u32);
    assert(out@ =~= old(out)@ + le64_bytes(value));
}

/// Appends every byte of `bytes`.
pub fn write_bytes(out: &mut Vec<u8>, bytes: &[u8])
    ensures
        final(out)@ == old(out)@ + bytes@,
{
    let mut i: usize = 0;
    while i < bytes.len()
        invariant
            i <= bytes@.len(),
            out@ == old(out)@ + bytes@.subrange(0, i as int),
        decreases bytes@.len() - i,
    {
        out.push(bytes[i]);
        i = i + 1;
        assert(out@ =~= old(out)@ + bytes@.subrange(0, i as int));
    }
    assert(bytes@.subrange(0, i as int) =~= bytes@);
}

} // verus!
