//! The address-size override: the prefix `0x67`, which makes the memory
//! operand of one instruction use a 32-bit address.

use vstd::prelude::*;

verus! {

/// The byte of the address-size override prefix.
pub const ADDRESS_SIZE_OVERRIDE: u8 = 0x67;

/// The address-size override prefix.
#[derive(Clone, Copy, Debug, PartialEq, Eq)]
pub struct ASO(u8);

impl View for ASO {
    type V = u8;

    /// The byte of the prefix.
    closed spec fn view(&self) -> u8 {
        self.0
    }
}

impl ASO {
    #[verifier::type_invariant]
    spec fn is_the_prefix(self) -> bool {
        self.0 == ADDRESS_SIZE_OVERRIDE
    }

    /// The prefix.
    pub fn new() -> (prefix: Self)
        ensures
            prefix@ == ADDRESS_SIZE_OVERRIDE,
    {
        ASO(0x67)
    }

    /// The byte to emit.
    pub fn byte(self) -> (byte: u8)
        ensures
            byte == self@,
            byte == ADDRESS_SIZE_OVERRIDE,
    {
        proof {
            use_type_invariant(self);
        }
        self.0
    }
}

} // verus!
