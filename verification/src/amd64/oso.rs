//! The operand-size override: the prefix `0x66`, which makes the operand of
//! one instruction 16 bits wide.

use vstd::prelude::*;

verus! {

/// The byte of the operand-size override prefix.
pub const OPERAND_SIZE_OVERRIDE: u8 = 0x66;

/// The operand-size override prefix.
#[derive(Clone, Copy, Debug, PartialEq, Eq)]
pub struct OSO(u8);

impl View for OSO {
    type V = u8;

    /// The byte of the prefix.
    closed spec fn view(&self) -> u8 {
        self.0
    }
}

impl OSO {
    #[verifier::type_invariant]
    spec fn is_the_prefix(self) -> bool {
        self.0 == OPERAND_SIZE_OVERRIDE
    }

    /// The prefix.
    pub fn new() -> (prefix: Self)
        ensures
            prefix@ == OPERAND_SIZE_OVERRIDE,
    {
        OSO(0x66)
    }

    /// The byte to emit.
    pub fn byte(self) -> (byte: u8)
        ensures
            byte == self@,
            byte == OPERAND_SIZE_OVERRIDE,
    {
        proof {
            use_type_invariant(self);
        }
        self.0
    }
}

} // verus!
