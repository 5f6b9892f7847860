//! The SIB byte: scale, index and base of a memory operand.

use crate::amd64::register::Register;
use vstd::prelude::*;

verus! {

/// The SIB byte with the given fields: `scale` in bits 7 and 6, `index` in
/// bits 5 to 3, `base` in bits 2 to 0.
pub open spec fn sib_byte(scale: u8, index: u8, base: u8) -> u8 {
    (64 * scale + 8 * index + base) as u8
}

/// The `index` field that stands for "no index register".
pub const NO_INDEX: u8 = 0b100;

/// A SIB byte under construction. A setter puts its value into the field it
/// names, in place of what the field held, and leaves the other two fields as
/// they were.
#[derive(Clone, Copy, Debug, PartialEq, Eq)]
pub struct SIB(u8);

impl SIB {
    /// The `scale` field: the index register counts 1, 2, 4 or 8 times for
    /// the values 0 to 3.
    pub closed spec fn scale_bits(self) -> u8 {
        self.0 >> 6
    }

    /// The `index` field.
    pub closed spec fn index_bits(self) -> u8 {
        (self.0 >> 3) & 0b111
    }

    /// The `base` field.
    pub closed spec fn base_bits(self) -> u8 {
        self.0 & 0b111
    }

    /// Whether `self` is `before` with `value` as its `base` field.
    pub open spec fn sets_base(self, before: SIB, value: u8) -> bool {
        &&& self.scale_bits() == before.scale_bits()
        &&& self.index_bits() == before.index_bits()
        &&& self.base_bits() == value
    }

    /// Whether `self` is `before` with `value` as its `index` field.
    pub open spec fn sets_index(self, before: SIB, value: u8) -> bool {
        &&& self.scale_bits() == before.scale_bits()
        &&& self.index_bits() == value
        &&& self.base_bits() == before.base_bits()
    }

    /// Whether `self` is `before` with `value` as its `scale` field.
    pub open spec fn sets_scale(self, before: SIB, value: u8) -> bool {
        &&& self.scale_bits() == value
        &&& self.index_bits() == before.index_bits()
        &&& self.base_bits() == before.base_bits()
    }

    /// No field is wider than its place in the byte.
    pub proof fn lemma_fields_in_range(self)
        ensures
            self.scale_bits() < 4,
            self.index_bits() < 8,
            self.base_bits() < 8,
    {
        let v = self.0;
        assert(v >> 6 < 4 && (v >> 3) & 0b111 < 8 && v & 0b111 < 8) by (bit_vector);
    }

    /// A byte without index register, with scale and base zero.
    pub fn new() -> (sib: Self)
        ensures
            sib.scale_bits() == 0,
            sib.index_bits() == NO_INDEX,
            sib.base_bits() == 0,
    {
        assert(0b00_100_000u8 >> 6 == 0 && (0b00_100_000u8 >> 3) & 0b111 == 0b100 && 0b00_100_000u8
            & 0b111 == 0) by (bit_vector);
        SIB(0b00_100_000)
    }

    /// Sets the `base` field.
    pub fn base(self, value: u8) -> (sib: Self)
        requires
            value < 8,
        ensures
            sib.sets_base(self, value),
    {
        let bits = self.0;
        let set = (bits & 0b11_111_000) | value;
        assert(value < 8 && set == (bits & 0b11_111_000) | value ==> set >> 6 == bits >> 6 && (set
            >> 3) & 0b111 == (bits >> 3) & 0b111 && set & 0b111 == value) by (bit_vector);
        SIB(set)
    }

    /// Puts a base register into the `base` field.
    pub fn base_reg(self, register: Register) -> (sib: Self)
        ensures
            sib.sets_base(self, register.code()),
    {
        self.base(register.value())
    }

    /// Sets the `index` field.
    pub fn index(self, value: u8) -> (sib: Self)
        requires
            value < 8,
        ensures
            sib.sets_index(self, value),
    {
        let bits = self.0;
        let set = (bits & 0b11_000_111) | value << 3;
        assert(value < 8 && set == (bits & 0b11_000_111) | value << 3 ==> set >> 6 == bits >> 6 && (
        set >> 3) & 0b111 == value && set & 0b111 == bits & 0b111) by (bit_vector);
        SIB(set)
    }

    /// Sets the `scale` field.
    pub fn scale(self, value: u8) -> (sib: Self)
        requires
            value < 4,
        ensures
            sib.sets_scale(self, value),
    {
        let bits = self.0;
        let set = (bits & 0b00_111_111) | value << 6;
        assert(value < 4 && set == (bits & 0b00_111_111) | value << 6 ==> set >> 6 == value && (set
            >> 3) & 0b111 == (bits >> 3) & 0b111 && set & 0b111 == bits & 0b111) by (bit_vector);
        SIB(set)
    }

    /// The byte to emit.
    pub fn byte(self) -> (byte: u8)
        ensures
            byte == sib_byte(self.scale_bits(), self.index_bits(), self.base_bits()),
    {
        let v = self.0;
        assert(v == 64 * (v >> 6) + 8 * ((v >> 3) & 0b111) + (v & 0b111)) by (bit_vector);
        v
    }
}

} // verus!
