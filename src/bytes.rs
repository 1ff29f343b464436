//! Little-endian encoding of the fixed-width fields of the format strings.
use vstd::prelude::*;

verus! {

/// The two bytes of a 16-bit field, least significant first.
pub open spec fn le16(v: int) -> Seq<u8> {
    seq![(v % 256) as u8, ((v / 256) % 256) as u8]
}

/// The four bytes of a 32-bit field, least significant first.
pub open spec fn le32(v: int) -> Seq<u8> {
    le16(v % 0x1_0000) + le16(v / 0x1_0000)
}

/// The eight bytes of a 64-bit field, least significant first.
pub open spec fn le64(v: int) -> Seq<u8> {
    le32(v % 0x1_0000_0000) + le32(v / 0x1_0000_0000)
}

/// Encodes a 32-bit value as four little-endian bytes.
pub fn ndr_fc_long(value: u32) -> (r: [u8; 4])
    ensures
        r@ == le32(value as int),
{
    let lo = (value % 0x1_0000) as u16;
    let hi = (value / 0x1_0000) as u16;
    let r = [(lo % 256) as u8, (lo / 256) as u8, (hi % 256) as u8, (hi / 256) as u8];
    assert(r@ =~= le32(value as int));
    r
}

/// Encodes a 16-bit value as two little-endian bytes.
pub fn ndr_fc_short(value: u16) -> (r: [u8; 2])
    ensures
        r@ == le16(value as int),
{
    let r = [(value % 256) as u8, (value / 256) as u8];
    assert(r@ =~= le16(value as int));
    r
}

/// Appends a 16-bit value to `buf`, least significant byte first.
pub fn push_u16(buf: &mut Vec<u8>, value: u16)
    ensures
        final(buf)@ == old(buf)@ + le16(value as int),
{
    buf.push((value % 256) as u8);
    buf.push((value / 256) as u8);
    assert(final(buf)@ =~= old(buf)@ + le16(value as int));
}

/// Appends a 32-bit value to `buf`, least significant byte first.
pub fn push_u32(buf: &mut Vec<u8>, value: u32)
    ensures
        final(buf)@ == old(buf)@ + le32(value as int),
{
    let ghost start = buf@;
    push_u16(buf, (value % 0x1_0000) as u16);
    push_u16(buf, (value / 0x1_0000) as u16);
    assert(buf@ =~= start + le32(value as int));
}

/// Appends a 64-bit value to `buf`, least significant byte first.
pub fn push_u64(buf: &mut Vec<u8>, value: u64)
    ensures
        final(buf)@ == old(buf)@ + le64(value as int),
{
    let ghost start = buf@;
    push_u32(buf, (value % 0x1_0000_0000) as u32);
    push_u32(buf, (value / 0x1_0000_0000) as u32);
    assert(buf@ =~= start + le64(value as int));
}

} // verus!
