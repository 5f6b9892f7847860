//! Little-endian byte sequences as numbers, and the writers that produce them.

use byteorder::{LittleEndian, WriteBytesExt};
use vstd::prelude::*;

verus! {

/// The number of values that `width` bytes can hold: 256 to the power `width`.
pub open spec fn radix(width: nat) -> nat
    decreases width,
{
    if width == 0 {
        1
    } else {
        256 * radix((width - 1) as nat)
    }
}

/// The `width` low bytes of `v`, least significant first.
pub open spec fn le_bytes(v: nat, width: nat) -> Seq<u8>
    decreases width,
{
    if width == 0 {
        Seq::empty()
    } else {
        seq![(v % 256) as u8] + le_bytes(v / 256, (width - 1) as nat)
    }
}

/// The number that `bytes` spell, least significant byte first.
pub open spec fn le_value(bytes: Seq<u8>) -> nat
    decreases bytes.len(),
{
    if bytes.len() == 0 {
        0
    } else {
        bytes[0] as nat + 256 * le_value(bytes.drop_first())
    }
}

/// The unsigned number whose `width` bytes are the two's complement form of `v`.
pub open spec fn twos_complement(v: int, width: nat) -> nat {
    if v < 0 {
        (v + radix(width)) as nat
    } else {
        v as nat
    }
}

/// The signed number that `bytes` spell in two's complement, least
/// significant byte first.
pub open spec fn signed_value(bytes: Seq<u8>) -> int {
    let unsigned = le_value(bytes);
    if 2 * unsigned >= radix(bytes.len()) {
        unsigned - radix(bytes.len())
    } else {
        unsigned as int
    }
}

/// Whether `v` can be written as a signed number of `width` bytes.
pub open spec fn fits_signed(v: int, width: nat) -> bool {
    -(radix(width) as int) <= 2 * v < radix(width)
}

/// `radix` at the widths that the encoder uses.
pub proof fn lemma_radix_values()
    ensures
        radix(0) == 1,
        radix(1) == 0x100,
        radix(2) == 0x1_0000,
        radix(4) == 0x1_0000_0000,
        radix(8) == 0x1_0000_0000_0000_0000,
{
    reveal_with_fuel(radix, 9);
}

/// `le_bytes` yields exactly `width` bytes.
pub proof fn lemma_le_bytes_len(v: nat, width: nat)
    ensures
        le_bytes(v, width).len() == width,
    decreases width,
{
    if width > 0 {
        lemma_le_bytes_len(v / 256, (width - 1) as nat);
    }
}

/// Reading back the bytes of a number that fits gives the number.
pub proof fn lemma_le_value_of_le_bytes(v: nat, width: nat)
    requires
        v < radix(width),
    ensures
        le_value(le_bytes(v, width)) == v,
    decreases width,
{
    if width > 0 {
        let rest = le_bytes(v / 256, (width - 1) as nat);
        let all = le_bytes(v, width);
        lemma_le_bytes_len(v / 256, (width - 1) as nat);
        lemma_le_value_of_le_bytes(v / 256, (width - 1) as nat);
        assert(all.drop_first() =~= rest);
        assert(all[0] == (v % 256) as u8);
    }
}

/// Two's complement round trip: a signed number that fits in `width` bytes is
/// read back from its bytes unchanged.
pub proof fn lemma_signed_value_of_le_bytes(v: int, width: nat)
    requires
        fits_signed(v, width),
    ensures
        signed_value(le_bytes(twos_complement(v, width), width)) == v,
{
    lemma_le_bytes_len(twos_complement(v, width), width);
    lemma_le_value_of_le_bytes(twos_complement(v, width), width);
}

/// One byte is its own little-endian form.
pub proof fn lemma_le_bytes_one(b: u8)
    ensures
        le_bytes(b as nat, 1) == seq![b],
{
    reveal_with_fuel(le_bytes, 2);
    assert(le_bytes(b as nat, 1) =~= seq![b]);
}

/// The byte that holds `v` in two's complement.
pub fn i8_bits(v: i8) -> (r: u8)
    ensures
        r == twos_complement(v as int, 1),
{
    proof {
        lemma_radix_values();
        assert((v as u8) as int == (if v < 0 { v + 0x100 } else { v as int })) by (bit_vector);
    }
    v as u8
}

/// The 16-bit word that holds `v` in two's complement.
pub fn i16_bits(v: i16) -> (r: u16)
    ensures
        r == twos_complement(v as int, 2),
{
    proof {
        lemma_radix_values();
        assert((v as u16) as int == (if v < 0 { v + 0x1_0000 } else { v as int })) by (bit_vector);
    }
    v as u16
}

/// The 32-bit word that holds `v` in two's complement.
pub fn i32_bits(v: i32) -> (r: u32)
    ensures
        r == twos_complement(v as int, 4),
{
    proof {
        lemma_radix_values();
        assert((v as u32) as int == (if v < 0 { v + 0x1_0000_0000 } else { v as int }))
            by (bit_vector);
    }
    v as u32
}

/// The 64-bit word that holds `v` in two's complement.
pub fn i64_bits(v: i64) -> (r: u64)
    ensures
        r == twos_complement(v as int, 8),
{
    proof {
        lemma_radix_values();
        assert((v as u64) as int == (if v < 0 {
            v + 0x1_0000_0000_0000_0000
        } else {
            v as int
        })) by (bit_vector);
    }
    v as u64
}

/// Appends the two bytes of `v`, least significant first.
///
/// Trusted: the body calls `byteorder::WriteBytesExt::write_u16` with
/// `LittleEndian` on the vector. That writes `v.to_le_bytes()` with
/// `write_all`, which on a `Vec<u8>` appends and never fails.
#[verifier::external_body]
pub(crate) fn write_u16_le(buf: &mut Vec<u8>, v: u16)
    ensures
        final(buf)@ == old(buf)@ + le_bytes(v as nat, 2),
{
    buf.write_u16::<LittleEndian>(v).unwrap();
}

/// Appends the four bytes of `v`, least significant first.
///
/// Trusted: the body calls `byteorder::WriteBytesExt::write_u32` with
/// `LittleEndian` on the vector. That writes `v.to_le_bytes()` with
/// `write_all`, which on a `Vec<u8>` appends and never fails.
#[verifier::external_body]
pub(crate) fn write_u32_le(buf: &mut Vec<u8>, v: u32)
    ensures
        final(buf)@ == old(buf)@ + le_bytes(v as nat, 4),
{
    buf.write_u32::<LittleEndian>(v).unwrap();
}

/// Appends the eight bytes of `v`, least significant first.
///
/// Trusted: the body calls `byteorder::WriteBytesExt::write_u64` with
/// `LittleEndian` on the vector. That writes `v.to_le_bytes()` with
/// `write_all`, which on a `Vec<u8>` appends and never fails.
#[verifier::external_body]
pub(crate) fn write_u64_le(buf: &mut Vec<u8>, v: u64)
    ensures
        final(buf)@ == old(buf)@ + le_bytes(v as nat, 8),
{
    buf.write_u64::<LittleEndian>(v).unwrap();
}

} // verus!
