//! Why a token stream is no program.

use std::num::ParseIntError;
use vstd::prelude::*;
use vstd::std_specs::convert::FromSpecImpl;

verus! {

/// Why a token stream is no program.
#[derive(Debug, Copy, Clone, PartialEq, Eq, Structural)]
pub enum Error {
    /// The tokens end in the middle of an instruction, or before the closer
    /// that ends inline assembly.
    EndOfInput,
    /// A closer stands where an instruction should begin.
    Closer,
    /// Something other than an opener or a label stands where an instruction
    /// should begin.
    Opener,
    /// An operand in brackets begins with a name that is no mode: not
    /// `address`, not `label`, and no type of constants; or a displacement
    /// has a type that it cannot have.
    Mode,
    /// A token is of a kind that cannot stand where it stands.
    Token,
    /// A number stands as an operand without its type.
    NoType,
    /// A constant is not of the kind that its type asks for.
    ConstantType,
    /// A number cannot be read in its type, or a displacement is zero or has
    /// no opposite.
    InvalidDisplacement,
}

impl Error {
    /// What went wrong, in words.
    pub open spec fn text(self) -> Seq<char> {
        match self {
            Error::EndOfInput => "Unexpected end of input"@,
            Error::Closer => "Unexpected closer"@,
            Error::Opener => "Unexpected opener"@,
            Error::Mode => "Invalid mode"@,
            Error::Token => "Unexpected token"@,
            Error::NoType => "Expected a type specifier"@,
            Error::ConstantType => "Given value does not match expected type"@,
            Error::InvalidDisplacement => "Invalid value given for displacement"@,
        }
    }

    /// What went wrong, in words.
    pub fn to_string(&self) -> (message: String)
        ensures
            message@ == self.text(),
    {
        match self {
            Error::EndOfInput => "Unexpected end of input",
            Error::Closer => "Unexpected closer",
            Error::Opener => "Unexpected opener",
            Error::Mode => "Invalid mode",
            Error::Token => "Unexpected token",
            Error::NoType => "Expected a type specifier",
            Error::ConstantType => "Given value does not match expected type",
            Error::InvalidDisplacement => "Invalid value given for displacement",
        }.to_owned()
    }
}

impl From<ParseIntError> for Error {
    /// A number that cannot be read is an invalid displacement.
    fn from(_err: ParseIntError) -> (e: Error) {
        Error::InvalidDisplacement
    }
}

impl FromSpecImpl<ParseIntError> for Error {
    open spec fn obeys_from_spec() -> bool {
        true
    }

    open spec fn from_spec(_err: ParseIntError) -> Error {
        Error::InvalidDisplacement
    }
}

} // verus!
