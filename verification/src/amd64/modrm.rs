//! The ModR/M byte: the addressing mode of an instruction and its two
//! register fields.

use crate::amd64::register::Register;
use vstd::prelude::*;

verus! {

/// The ModR/M byte with the given fields: `mod` in bits 7 and 6, `reg` in bits
/// 5 to 3, `rm` in bits 2 to 0.
pub open spec fn modrm_byte(mode: u8, reg: u8, rm: u8) -> u8 {
    (64 * mode + 8 * reg + rm) as u8
}

/// A ModR/M byte under construction. A setter adds its bits to the field it
/// names and leaves the other two fields as they were.
#[derive(Clone, Copy, Debug, PartialEq, Eq)]
pub struct ModRM(u8);

impl ModRM {
    /// The `mod` field: 0 for a memory operand without displacement, 1 for one
    /// with a displacement of 8 bits, 2 for one with a displacement of 32
    /// bits, 3 for a register operand.
    pub closed spec fn mode(self) -> u8 {
        self.0 >> 6
    }

    /// The `reg` field: a register, or the extension of the opcode.
    pub closed spec fn reg_bits(self) -> u8 {
        (self.0 >> 3) & 0b111
    }

    /// The `rm` field: a register, or the base register of a memory operand.
    pub closed spec fn rm_bits(self) -> u8 {
        self.0 & 0b111
    }

    /// Whether a SIB byte has to follow: the operand is in memory and the
    /// `rm` field holds `100`, which names no base register by itself.
    pub open spec fn sib_required(self) -> bool {
        self.mode() != 0b11 && self.rm_bits() == 0b100
    }

    /// Whether `self` is `before` with `value` added to its `mod` field.
    pub open spec fn adds_mode(self, before: ModRM, value: u8) -> bool {
        &&& self.mode() == before.mode() | value
        &&& before.mode() == 0 ==> self.mode() == value
        &&& value == 0b11 ==> self.mode() == 0b11
        &&& self.reg_bits() == before.reg_bits()
        &&& self.rm_bits() == before.rm_bits()
    }

    /// Whether `self` is `before` with `value` added to its `reg` field.
    pub open spec fn adds_reg(self, before: ModRM, value: u8) -> bool {
        &&& self.mode() == before.mode()
        &&& self.reg_bits() == before.reg_bits() | value
        &&& before.reg_bits() == 0 ==> self.reg_bits() == value
        &&& self.rm_bits() == before.rm_bits()
    }

    /// Whether `self` is `before` with `value` added to its `rm` field.
    pub open spec fn adds_rm(self, before: ModRM, value: u8) -> bool {
        &&& self.mode() == before.mode()
        &&& self.reg_bits() == before.reg_bits()
        &&& self.rm_bits() == before.rm_bits() | value
        &&& before.rm_bits() == 0 ==> self.rm_bits() == value
    }

    /// No field is wider than its place in the byte.
    pub proof fn lemma_fields_in_range(self)
        ensures
            self.mode() < 4,
            self.reg_bits() < 8,
            self.rm_bits() < 8,
    {
        let v = self.0;
        assert(v >> 6 < 4 && (v >> 3) & 0b111 < 8 && v & 0b111 < 8) by (bit_vector);
    }

    /// A byte with every field zero.
    pub fn new() -> (modrm: Self)
        ensures
            modrm.mode() == 0,
            modrm.reg_bits() == 0,
            modrm.rm_bits() == 0,
    {
        assert(0u8 >> 6 == 0 && (0u8 >> 3) & 0b111 == 0 && 0u8 & 0b111 == 0) by (bit_vector);
        ModRM(0)
    }

    /// Adds `value` to the `mod` field.
    pub fn mod_(self, value: u8) -> (modrm: Self)
        requires
            value < 4,
        ensures
            modrm.adds_mode(self, value),
    {
        let bits = self.0;
        let set = bits | value << 6;
        assert(value < 4 && set == bits | value << 6 ==> set >> 6 == (bits >> 6) | value && (set
            >> 3) & 0b111 == (bits >> 3) & 0b111 && set & 0b111 == bits & 0b111 && (bits >> 6 == 0
            ==> set >> 6 == value) && (value == 0b11 ==> set >> 6 == 0b11)) by (bit_vector);
        ModRM(set)
    }

    /// Selects a register operand: `mod` is `11`.
    pub fn mod_direct(self) -> (modrm: Self)
        ensures
            modrm.adds_mode(self, 0b11),
    {
        self.mod_(0b11)
    }

    /// Selects a memory operand with a displacement of 8 bits: adds `01` to
    /// `mod`.
    pub fn mod_indirect(self) -> (modrm: Self)
        ensures
            modrm.adds_mode(self, 0b01),
    {
        self.mod_(0b01)
    }

    /// Selects a memory operand with a displacement of 8 bits, in place.
    pub fn set_mod_indirect(&mut self)
        ensures
            final(self).adds_mode(*old(self), 0b01),
    {
        *self = self.mod_indirect();
    }

    /// Adds `value` to the `rm` field.
    pub fn rm(self, value: u8) -> (modrm: Self)
        requires
            value < 8,
        ensures
            modrm.adds_rm(self, value),
    {
        let bits = self.0;
        let set = bits | value;
        assert(value < 8 && set == bits | value ==> set >> 6 == bits >> 6 && (set >> 3) & 0b111 == (
        bits >> 3) & 0b111 && set & 0b111 == (bits & 0b111) | value && (bits & 0b111 == 0 ==> set
            & 0b111 == value)) by (bit_vector);
        ModRM(set)
    }

    /// Puts a register operand into the `rm` field.
    pub fn rm_reg(self, register: Register) -> (modrm: Self)
        ensures
            modrm.adds_rm(self, register.code()),
    {
        self.rm(register.value())
    }

    /// Puts the base register of a memory operand into the `rm` field.
    pub fn rm_addr(self, register: Register) -> (modrm: Self)
        ensures
            modrm.adds_rm(self, register.code()),
    {
        self.rm(register.value())
    }

    /// Adds `value` to the `reg` field.
    pub fn reg(self, value: u8) -> (modrm: Self)
        requires
            value < 8,
        ensures
            modrm.adds_reg(self, value),
    {
        let bits = self.0;
        let set = bits | value << 3;
        assert(value < 8 && set == bits | value << 3 ==> set >> 6 == bits >> 6 && (set >> 3) & 0b111
            == ((bits >> 3) & 0b111) | value && set & 0b111 == bits & 0b111 && ((bits >> 3) & 0b111
            == 0 ==> (set >> 3) & 0b111 == value)) by (bit_vector);
        ModRM(set)
    }

    /// Puts a register operand into the `reg` field.
    pub fn reg_reg(self, register: Register) -> (modrm: Self)
        ensures
            modrm.adds_reg(self, register.code()),
    {
        self.reg(register.value())
    }

    /// Puts the register that a memory operand is moved to or from into the
    /// `reg` field.
    pub fn reg_addr(self, register: Register) -> (modrm: Self)
        ensures
            modrm.adds_reg(self, register.code()),
    {
        self.reg(register.value())
    }

    /// Whether a SIB byte has to follow this byte.
    pub fn sibp(&self) -> (r: bool)
        ensures
            r == self.sib_required(),
    {
        (self.0 >> 6) != 0b11 && (self.0 & 0b111) == 0b100
    }

    /// The byte to emit.
    pub fn byte(self) -> (byte: u8)
        ensures
            byte == modrm_byte(self.mode(), self.reg_bits(), self.rm_bits()),
    {
        let v = self.0;
        assert(v == 64 * (v >> 6) + 8 * ((v >> 3) & 0b111) + (v & 0b111)) by (bit_vector);
        v
    }
}

} // verus!
