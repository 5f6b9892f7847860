//! The byte emitter: the output of an assembler session, which grows at its
//! end and lets bytes that are already there be replaced.

use crate::bytes::{
    fits_signed, i16_bits, i32_bits, i64_bits, i8_bits, le_bytes, lemma_le_bytes_one,
    lemma_radix_values,
    write_u16_le, write_u32_le, write_u64_le,
};
use crate::syntax::{Displacement, Immediate};
use vstd::prelude::*;

verus! {

/// An append-only buffer of machine code.
pub struct Emitter(Vec<u8>);

impl View for Emitter {
    type V = Seq<u8>;

    closed spec fn view(&self) -> Seq<u8> {
        self.0@
    }
}

impl Emitter {
    /// An emitter that holds no byte.
    pub fn new() -> (emitter: Self)
        ensures
            emitter@ == Seq::<u8>::empty(),
    {
        Emitter(Vec::new())
    }

    /// Appends bytes that were made elsewhere.
    pub fn append(&mut self, other: Vec<u8>)
        ensures
            final(self)@ == old(self)@ + other@,
    {
        let mut other = other;
        self.0.append(&mut other);
    }

    /// Appends an immediate: as many bytes as it is wide, least significant
    /// first.
    pub fn emit_imm(&mut self, imm: Immediate)
        ensures
            final(self)@ == old(self)@ + imm.bytes(),
    {
        match imm {
            Immediate::U8(i) => {
                self.emit_byte(i);
                proof {
                    lemma_le_bytes_one(i);
                }
            },
            Immediate::I8(i) => {
                let bits = i8_bits(i);
                self.emit_byte(bits);
                proof {
                    lemma_le_bytes_one(bits);
                }
            },
            Immediate::U16(i) => self.emit_u16(i),
            Immediate::I16(i) => self.emit_u16(i16_bits(i)),
            Immediate::U32(i) => self.emit_u32(i),
            Immediate::I32(i) => self.emit_u32(i32_bits(i)),
            Immediate::U64(i) => self.emit_u64(i),
            Immediate::I64(i) => self.emit_u64(i64_bits(i)),
        }
        assert(self@ =~= old(self)@ + imm.bytes());
    }

    /// Appends an immediate in a field of `width` bytes, least significant
    /// byte first, the sign extended. The field is no narrower than the
    /// immediate, or it is 32 bits wide and the number of the immediate is
    /// within the signed 32-bit range.
    pub fn emit_widened(&mut self, imm: Immediate, width: usize)
        requires
            width == 1 || width == 2 || width == 4 || width == 8,
            imm.width() <= width || (width == 4 && fits_signed(imm.value(), 4)),
        ensures
            final(self)@ == old(self)@ + imm.widened(width as nat),
    {
        proof {
            lemma_radix_values();
        }
        if width == 1 {
            self.emit_imm(imm);
        } else if width == 2 {
            match imm {
                Immediate::U8(i) => self.emit_u16(i as u16),
                Immediate::I8(i) => self.emit_u16(i16_bits(i as i16)),
                _ => self.emit_imm(imm),
            }
        } else if width == 4 {
            match imm {
                Immediate::U8(i) => self.emit_u32(i as u32),
                Immediate::I8(i) => self.emit_u32(i32_bits(i as i32)),
                Immediate::U16(i) => self.emit_u32(i as u32),
                Immediate::I16(i) => self.emit_u32(i32_bits(i as i32)),
                Immediate::U64(i) => self.emit_u32(i as u32),
                Immediate::I64(i) => self.emit_u32(i32_bits(i as i32)),
                _ => self.emit_imm(imm),
            }
        } else {
            match imm {
                Immediate::U8(i) => self.emit_u64(i as u64),
                Immediate::I8(i) => self.emit_u64(i64_bits(i as i64)),
                Immediate::U16(i) => self.emit_u64(i as u64),
                Immediate::I16(i) => self.emit_u64(i64_bits(i as i64)),
                Immediate::U32(i) => self.emit_u64(i as u64),
                Immediate::I32(i) => self.emit_u64(i64_bits(i as i64)),
                _ => self.emit_imm(imm),
            }
        }
    }

    /// Appends a displacement: as many bytes as it is wide, least significant
    /// first, in two's complement.
    pub fn emit_displacement(&mut self, d: Displacement)
        ensures
            final(self)@ == old(self)@ + d.bytes(),
    {
        match d {
            Displacement::Disp8(d) => {
                let bits = i8_bits(d.get());
                self.emit_byte(bits);
                proof {
                    lemma_le_bytes_one(bits);
                }
            },
            Displacement::Disp16(d) => self.emit_u16(i16_bits(d.get())),
            Displacement::Disp32(d) => self.emit_u32(i32_bits(d.get())),
        }
        assert(self@ =~= old(self)@ + d.bytes());
    }

    /// Appends one byte.
    pub fn emit_byte(&mut self, b: u8)
        ensures
            final(self)@ == old(self)@.push(b),
    {
        self.0.push(b);
    }

    /// Appends a 16-bit number, least significant byte first.
    pub fn emit_u16(&mut self, b: u16)
        ensures
            final(self)@ == old(self)@ + le_bytes(b as nat, 2),
    {
        write_u16_le(&mut self.0, b);
    }

    /// Appends a 32-bit number, least significant byte first.
    pub fn emit_u32(&mut self, b: u32)
        ensures
            final(self)@ == old(self)@ + le_bytes(b as nat, 4),
    {
        write_u32_le(&mut self.0, b);
    }

    /// Appends a 64-bit number, least significant byte first.
    pub fn emit_u64(&mut self, b: u64)
        ensures
            final(self)@ == old(self)@ + le_bytes(b as nat, 8),
    {
        write_u64_le(&mut self.0, b);
    }

    /// Replaces the byte at `offset`.
    pub fn replace_byte_at_offset(&mut self, offset: usize, b: u8)
        requires
            offset < old(self)@.len(),
        ensures
            final(self)@ == old(self)@.update(offset as int, b),
    {
        self.0[offset] = b;
    }

    /// Replaces the bytes from `offset` on by `bytes`.
    pub fn replace_bytes_at_offset(&mut self, offset: usize, bytes: &Vec<u8>)
        requires
            offset + bytes@.len() <= old(self)@.len(),
        ensures
            final(self)@.len() == old(self)@.len(),
            forall|k: int|
                0 <= k < old(self)@.len() ==> final(self)@[k] == (if offset <= k < offset
                    + bytes@.len() {
                    bytes@[k - offset]
                } else {
                    old(self)@[k]
                }),
    {
        let total = self.len();
        let mut at: usize = 0;
        while at < bytes.len()
            invariant
                at <= bytes@.len(),
                total == old(self)@.len(),
                offset + bytes@.len() <= total,
                self@.len() == old(self)@.len(),
                forall|k: int|
                    0 <= k < old(self)@.len() ==> self@[k] == (if offset <= k < offset + at {
                        bytes@[k - offset]
                    } else {
                        old(self)@[k]
                    }),
            decreases bytes@.len() - at,
        {
            self.replace_byte_at_offset(offset + at, bytes[at]);
            at += 1;
        }
    }

    /// The number of bytes emitted so far.
    pub fn len(&self) -> (n: usize)
        ensures
            n == self@.len(),
    {
        self.0.len()
    }

    /// The bytes emitted.
    pub fn code(self) -> (code: Vec<u8>)
        ensures
            code@ == self@,
    {
        self.0
    }
}

} // verus!
