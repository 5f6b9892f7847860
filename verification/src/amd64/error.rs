//! Why a program for x86-64 cannot be assembled.

use crate::session::PatchError;
use std::num::ParseIntError;
use vstd::prelude::*;
use vstd::std_specs::convert::FromSpecImpl;
use vstd::string::StringExecFns;

verus! {

/// Why a program cannot be assembled.
#[derive(Debug, Copy, Clone, PartialEq, Eq, Structural)]
pub enum Error {
    /// The mnemonic names no instruction that the assembler knows.
    Opcode,
    /// The instruction has the wrong number or the wrong kind of operands.
    Operands,
    /// A register operand names no register.
    Register,
    /// The destination of a move is a constant.
    ToConstant,
    /// A constant cannot be read as a number of its type.
    InvalidConstant,
    /// The operands do not agree in width, or a register cannot hold an
    /// address.
    Width,
    /// A jump goes to a label that is nowhere defined.
    Label,
    /// A jump goes farther than its displacement can say.
    Range,
}

impl Error {
    /// What went wrong, in words.
    pub open spec fn text(self) -> Seq<char> {
        match self {
            Error::Opcode => "Invalid opcode"@,
            Error::Operands => "Incorrect number of operands"@,
            Error::Register => "Invalid register name"@,
            Error::ToConstant => "Cannot mov to a constant"@,
            Error::InvalidConstant => "Unable to parse constant to expected type"@,
            Error::Width => "Operand widths do not match"@,
            Error::Label => "Unknown label"@,
            Error::Range => "Jump out of range"@,
        }
    }

    /// What went wrong, in words.
    pub fn to_string(&self) -> (message: String)
        ensures
            message@ == self.text(),
    {
        String::from_str(
            match self {
                Error::Opcode => "Invalid opcode",
                Error::Operands => "Incorrect number of operands",
                Error::Register => "Invalid register name",
                Error::ToConstant => "Cannot mov to a constant",
                Error::InvalidConstant => "Unable to parse constant to expected type",
                Error::Width => "Operand widths do not match",
                Error::Label => "Unknown label",
                Error::Range => "Jump out of range",
            },
        )
    }

    /// The error that a jump which cannot be patched stands for.
    pub open spec fn of_patch(e: PatchError) -> Error {
        match e {
            PatchError::UnknownLabel => Error::Label,
            PatchError::OutOfRange => Error::Range,
        }
    }
}

impl From<ParseIntError> for Error {
    /// A constant that cannot be read as a number is an invalid constant.
    fn from(_err: ParseIntError) -> (e: Error) {
        Error::InvalidConstant
    }
}

impl FromSpecImpl<ParseIntError> for Error {
    open spec fn obeys_from_spec() -> bool {
        true
    }

    open spec fn from_spec(_err: ParseIntError) -> Error {
        Error::InvalidConstant
    }
}

} // verus!
