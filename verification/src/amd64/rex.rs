//! The REX prefix: one byte that selects a 64-bit operand and extends the
//! register fields of the bytes that follow it.

use vstd::prelude::*;

verus! {

/// The byte of a REX prefix with the given flags: the fixed high nibble
/// `0100`, then W, R, X and B from bit 3 down to bit 0.
pub open spec fn rex_byte(w: bool, r: bool, x: bool, b: bool) -> u8 {
    (0x40 + (if w { 8int } else { 0 }) + (if r { 4int } else { 0 }) + (if x { 2int } else { 0 })
        + (if b { 1int } else { 0 })) as u8
}

/// A REX prefix under construction.
#[derive(Clone, Copy, Debug, PartialEq, Eq)]
pub struct REX(u8);

impl REX {
    #[verifier::type_invariant]
    spec fn high_nibble_is_fixed(self) -> bool {
        self.0 & 0xf0 == 0x40
    }

    /// Whether REX.W is set: the operand is 64 bits wide.
    pub closed spec fn has_w(self) -> bool {
        self.0 & 0b1000 == 0b1000
    }

    /// Whether REX.R is set: the register in the ModR/M `reg` field is an
    /// extended one.
    pub closed spec fn has_r(self) -> bool {
        self.0 & 0b0100 == 0b0100
    }

    /// Whether REX.X is set: the register in the SIB `index` field is an
    /// extended one.
    pub closed spec fn has_x(self) -> bool {
        self.0 & 0b0010 == 0b0010
    }

    /// Whether REX.B is set: the register in the ModR/M `rm` field, in the
    /// SIB `base` field or in the opcode is an extended one.
    pub closed spec fn has_b(self) -> bool {
        self.0 & 0b0001 == 0b0001
    }

    /// Whether `self` has the flags of `before` and those given as `true`.
    pub open spec fn adds(self, before: REX, w: bool, r: bool, x: bool, b: bool) -> bool {
        &&& self.has_w() == (before.has_w() || w)
        &&& self.has_r() == (before.has_r() || r)
        &&& self.has_x() == (before.has_x() || x)
        &&& self.has_b() == (before.has_b() || b)
    }

    /// A prefix with no flag set.
    pub fn new() -> (rex: Self)
        ensures
            !rex.has_w(),
            !rex.has_r(),
            !rex.has_x(),
            !rex.has_b(),
    {
        assert(0x40u8 & 0xf0 == 0x40 && 0x40u8 & 0b1000 != 0b1000 && 0x40u8 & 0b0100 != 0b0100
            && 0x40u8 & 0b0010 != 0b0010 && 0x40u8 & 0b0001 != 0b0001) by (bit_vector);
        REX(0b0100_0000)
    }

    fn with(self, flag: u8) -> (rex: Self)
        requires
            flag == 0b1000 || flag == 0b0100 || flag == 0b0010 || flag == 0b0001,
        ensures
            rex.adds(self, flag == 0b1000, flag == 0b0100, flag == 0b0010, flag == 0b0001),
    {
        proof {
            use_type_invariant(self);
        }
        let bits = self.0;
        let set = bits | flag;
        assert((flag == 0b1000 || flag == 0b0100 || flag == 0b0010 || flag == 0b0001) && bits
            & 0xf0 == 0x40 && set == bits | flag ==> set & 0xf0 == 0x40
            && (set & 0b1000 == 0b1000) == (bits & 0b1000 == 0b1000 || flag == 0b1000)
            && (set & 0b0100 == 0b0100) == (bits & 0b0100 == 0b0100 || flag == 0b0100)
            && (set & 0b0010 == 0b0010) == (bits & 0b0010 == 0b0010 || flag == 0b0010)
            && (set & 0b0001 == 0b0001) == (bits & 0b0001 == 0b0001 || flag == 0b0001))
            by (bit_vector);
        REX(set)
    }

    /// Sets REX.W: the operand is 64 bits wide.
    pub fn w(self) -> (rex: Self)
        ensures
            rex.adds(self, true, false, false, false),
    {
        self.with(0b1000)
    }

    /// Sets REX.W in place.
    pub fn set_w(&mut self)
        ensures
            final(self).adds(*old(self), true, false, false, false),
    {
        *self = self.with(0b1000);
    }

    /// Sets REX.R, the extension of the ModR/M `reg` field.
    pub fn r(self) -> (rex: Self)
        ensures
            rex.adds(self, false, true, false, false),
    {
        self.with(0b0100)
    }

    /// Sets REX.R in place.
    pub fn set_r(&mut self)
        ensures
            final(self).adds(*old(self), false, true, false, false),
    {
        *self = self.with(0b0100);
    }

    /// Sets REX.X, the extension of the SIB `index` field.
    pub fn x(self) -> (rex: Self)
        ensures
            rex.adds(self, false, false, true, false),
    {
        self.with(0b0010)
    }

    /// Sets REX.B, the extension of the ModR/M `rm` field, of the SIB `base`
    /// field or of the register in the opcode.
    pub fn b(self) -> (rex: Self)
        ensures
            rex.adds(self, false, false, false, true),
    {
        self.with(0b0001)
    }

    /// Sets REX.B in place.
    pub fn set_b(&mut self)
        ensures
            final(self).adds(*old(self), false, false, false, true),
    {
        *self = self.with(0b0001);
    }

    /// The prefix as the byte to emit.
    pub fn byte(self) -> (byte: u8)
        ensures
            byte == rex_byte(self.has_w(), self.has_r(), self.has_x(), self.has_b()),
            0x40 <= byte <= 0x4f,
    {
        proof {
            use_type_invariant(self);
        }
        let v = self.0;
        assert(v & 0xf0 == 0x40 ==> v == 0x40 + (if v & 0b1000 == 0b1000 { 8u8 } else { 0 }) + (if v
            & 0b0100 == 0b0100 { 4u8 } else { 0 }) + (if v & 0b0010 == 0b0010 { 2u8 } else { 0 })
            + (if v & 0b0001 == 0b0001 { 1u8 } else { 0 })) by (bit_vector);
        v
    }
}

} // verus!
