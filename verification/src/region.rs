//! Reading fixed-size fields out of a validated byte window.
//!
//! The walkers never cast a region to a structure; every field is read from
//! explicit offsets after a bounds check, in the little-endian order in which
//! the supported object formats store their header fields.

use vstd::prelude::*;

verus! {

/// The value of two bytes read as a little-endian 16-bit integer.
pub open spec fn spec_le16(s: Seq<u8>) -> u16
    recommends
        s.len() == 2,
{
    (s[0] + s[1] * 0x100) as u16
}

/// The value of four bytes read as a little-endian 32-bit integer.
pub open spec fn spec_le32(s: Seq<u8>) -> u32
    recommends
        s.len() == 4,
{
    (s[0] + s[1] * 0x100 + s[2] * 0x1_0000 + s[3] * 0x100_0000) as u32
}

/// Read the 16-bit field at byte offset `off`.
pub fn read_u16(data: &[u8], off: usize) -> (r: u16)
    requires
        off + 2 <= data@.len(),
    ensures
        r == spec_le16(data@.subrange(off as int, off as int + 2)),
{
    let b0 = data[off] as u16;
    let b1 = data[off + 1] as u16;
    let r = b0 + b1 * 0x100;
    proof {
        let s = data@.subrange(off as int, off as int + 2);
        assert(s[0] == data@[off as int] && s[1] == data@[off as int + 1]);
    }
    r
}

/// Read the 32-bit field at byte offset `off`.
pub fn read_u32(data: &[u8], off: usize) -> (r: u32)
    requires
        off + 4 <= data@.len(),
    ensures
        r == spec_le32(data@.subrange(off as int, off as int + 4)),
{
    let b0 = data[off] as u32;
    let b1 = data[off + 1] as u32;
    let b2 = data[off + 2] as u32;
    let b3 = data[off + 3] as u32;
    let r = b0 + b1 * 0x100 + b2 * 0x1_0000 + b3 * 0x100_0000;
    proof {
        let s = data@.subrange(off as int, off as int + 4);
        assert(s[0] == data@[off as int] && s[1] == data@[off as int + 1]
            && s[2] == data@[off as int + 2] && s[3] == data@[off as int + 3]);
    }
    r
}

/// The little-endian bytes of a 32-bit value; the inverse of `spec_le32`.
pub open spec fn spec_le32_bytes(v: u32) -> Seq<u8> {
    seq![
        (v % 0x100) as u8,
        ((v / 0x100) % 0x100) as u8,
        ((v / 0x1_0000) % 0x100) as u8,
        (v / 0x100_0000) as u8,
    ]
}

/// Reading back the little-endian bytes of a value recovers the value.
pub proof fn lemma_le32_round_trip(v: u32)
    ensures
        spec_le32_bytes(v).len() == 4,
        spec_le32(spec_le32_bytes(v)) == v,
{
    assert(v % 0x100 + ((v / 0x100) % 0x100) * 0x100 + ((v / 0x1_0000) % 0x100) * 0x1_0000
        + (v / 0x100_0000) * 0x100_0000 == v) by (bit_vector);
}

} // verus!
