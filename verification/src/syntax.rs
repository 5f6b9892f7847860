//! The parsed form of an assembly program: instructions, their operands, and
//! the typed constants and displacements that operands carry.

use crate::bytes::{
    fits_signed, i16_bits, i32_bits, i64_bits, i8_bits, le_bytes, lemma_le_bytes_one,
    lemma_radix_values, twos_complement, write_u16_le, write_u32_le, write_u64_le,
};
use crate::interner::Symbol;
use crate::number::{
    parse_i16, parse_i32, parse_i64, parse_i8, parse_u16, parse_u32, parse_u64, parse_u8,
    parsed_i16, parsed_i32, parsed_i64, parsed_i8, parsed_u16, parsed_u32, parsed_u64, parsed_u8,
};
use crate::text::{ascii_lowercase, same_chars, to_ascii_lowercase};
use std::num::ParseIntError;
use vstd::prelude::*;

pub mod error;
pub mod parser;

pub use error::Error;

verus! {

/// The type that a constant is written with.
#[derive(Debug, Copy, Clone, PartialEq, Eq, Structural)]
pub enum Constant {
    U8,
    U16,
    U32,
    U64,
    I8,
    I16,
    I32,
    I64,
}

impl Constant {
    /// The name of the type, in lower case.
    pub open spec fn name(self) -> Seq<char> {
        match self {
            Constant::U8 => seq!['u', '8'],
            Constant::U16 => seq!['u', '1', '6'],
            Constant::U32 => seq!['u', '3', '2'],
            Constant::U64 => seq!['u', '6', '4'],
            Constant::I8 => seq!['i', '8'],
            Constant::I16 => seq!['i', '1', '6'],
            Constant::I32 => seq!['i', '3', '2'],
            Constant::I64 => seq!['i', '6', '4'],
        }
    }

    /// The type that `text` names, its letter in upper or lower case, if it
    /// names one.
    pub open spec fn from_name(text: Seq<char>) -> Option<Constant> {
        let lowered = ascii_lowercase(text);
        if lowered == Constant::U8.name() {
            Some(Constant::U8)
        } else if lowered == Constant::U16.name() {
            Some(Constant::U16)
        } else if lowered == Constant::U32.name() {
            Some(Constant::U32)
        } else if lowered == Constant::U64.name() {
            Some(Constant::U64)
        } else if lowered == Constant::I8.name() {
            Some(Constant::I8)
        } else if lowered == Constant::I16.name() {
            Some(Constant::I16)
        } else if lowered == Constant::I32.name() {
            Some(Constant::I32)
        } else if lowered == Constant::I64.name() {
            Some(Constant::I64)
        } else {
            None
        }
    }

    /// Whether the type is an unsigned integer.
    pub open spec fn is_unsigned(self) -> bool {
        self == Constant::U8 || self == Constant::U16 || self == Constant::U32 || self
            == Constant::U64
    }

    /// Whether the type is a signed integer.
    pub open spec fn is_signed(self) -> bool {
        !self.is_unsigned()
    }

    /// The width of the type, in bytes.
    pub open spec fn width(self) -> nat {
        match self {
            Constant::U8 | Constant::I8 => 1,
            Constant::U16 | Constant::I16 => 2,
            Constant::U32 | Constant::I32 => 4,
            Constant::U64 | Constant::I64 => 8,
        }
    }

    /// Whether the type is an unsigned integer.
    pub fn unsignedp(self) -> (r: bool)
        ensures
            r == self.is_unsigned(),
    {
        match self {
            Constant::U8 | Constant::U16 | Constant::U32 | Constant::U64 => true,
            _ => false,
        }
    }

    /// Whether the type is a signed integer.
    pub fn signedp(self) -> (r: bool)
        ensures
            r == self.is_signed(),
    {
        match self {
            Constant::I8 | Constant::I16 | Constant::I32 | Constant::I64 => true,
            _ => false,
        }
    }

    /// Whether the type is a floating-point number: none is.
    pub fn floatp(self) -> (r: bool)
        ensures
            !r,
    {
        false
    }

    /// The characters of the type's lower-case name.
    pub fn spelling(self) -> (r: Vec<char>)
        ensures
            r@ == self.name(),
    {
        let r = match self {
            Constant::U8 => vec!['u', '8'],
            Constant::U16 => vec!['u', '1', '6'],
            Constant::U32 => vec!['u', '3', '2'],
            Constant::U64 => vec!['u', '6', '4'],
            Constant::I8 => vec!['i', '8'],
            Constant::I16 => vec!['i', '1', '6'],
            Constant::I32 => vec!['i', '3', '2'],
            Constant::I64 => vec!['i', '6', '4'],
        };
        assert(r@ =~= self.name());
        r
    }

    /// Looks a type up by its name, its letter in upper or lower case.
    pub fn from_str(input: &str) -> (r: Option<Self>)
        ensures
            r == Constant::from_name(input@),
    {
        let lowered = to_ascii_lowercase(input);
        if same_chars(&lowered, &Constant::U8.spelling()) {
            Some(Constant::U8)
        } else if same_chars(&lowered, &Constant::U16.spelling()) {
            Some(Constant::U16)
        } else if same_chars(&lowered, &Constant::U32.spelling()) {
            Some(Constant::U32)
        } else if same_chars(&lowered, &Constant::U64.spelling()) {
            Some(Constant::U64)
        } else if same_chars(&lowered, &Constant::I8.spelling()) {
            Some(Constant::I8)
        } else if same_chars(&lowered, &Constant::I16.spelling()) {
            Some(Constant::I16)
        } else if same_chars(&lowered, &Constant::I32.spelling()) {
            Some(Constant::I32)
        } else if same_chars(&lowered, &Constant::I64.spelling()) {
            Some(Constant::I64)
        } else {
            None
        }
    }
}

/// A constant operand: a number together with its width and signedness.
#[derive(Debug, Copy, Clone, PartialEq, Eq, Structural)]
pub enum Immediate {
    U8(u8),
    U16(u16),
    U32(u32),
    U64(u64),
    I8(i8),
    I16(i16),
    I32(i32),
    I64(i64),
}

impl Immediate {
    /// The width of the immediate, in bytes.
    pub open spec fn width(self) -> nat {
        match self {
            Immediate::U8(_) | Immediate::I8(_) => 1,
            Immediate::U16(_) | Immediate::I16(_) => 2,
            Immediate::U32(_) | Immediate::I32(_) => 4,
            Immediate::U64(_) | Immediate::I64(_) => 8,
        }
    }

    /// The number that the immediate stands for.
    pub open spec fn value(self) -> int {
        match self {
            Immediate::U8(v) => v as int,
            Immediate::U16(v) => v as int,
            Immediate::U32(v) => v as int,
            Immediate::U64(v) => v as int,
            Immediate::I8(v) => v as int,
            Immediate::I16(v) => v as int,
            Immediate::I32(v) => v as int,
            Immediate::I64(v) => v as int,
        }
    }

    /// The bytes of the immediate as an instruction holds them: its width in
    /// bytes, least significant first, a negative number in two's complement.
    pub open spec fn bytes(self) -> Seq<u8> {
        le_bytes(twos_complement(self.value(), self.width()), self.width())
    }

    /// The bytes of the immediate in a field of `width` bytes that can hold
    /// its number: least significant first, a negative number in two's
    /// complement.
    pub open spec fn widened(self, width: nat) -> Seq<u8> {
        le_bytes(twos_complement(self.value(), width), width)
    }

    /// Whether the immediate can stand in a field of 32 bits whose sign the
    /// processor extends: it is narrower than 64 bits, or a 64-bit number
    /// within the signed 32-bit range.
    pub open spec fn storable(self) -> bool {
        !self.is_64bit() || fits_signed(self.value(), 4)
    }

    /// Whether the immediate can stand in a field of 32 bits whose sign the
    /// processor extends.
    pub fn storablep(&self) -> (r: bool)
        ensures
            r == self.storable(),
    {
        proof {
            lemma_radix_values();
        }
        match self {
            Immediate::U64(v) => *v <= 0x7fff_ffff,
            Immediate::I64(v) => -0x8000_0000 <= *v && *v <= 0x7fff_ffff,
            _ => true,
        }
    }

    /// Whether the number of the immediate is within the signed 32-bit
    /// range.
    pub fn fits_dword(&self) -> (r: bool)
        ensures
            r == fits_signed(self.value(), 4),
    {
        proof {
            lemma_radix_values();
        }
        match self {
            Immediate::U32(v) => *v <= 0x7fff_ffff,
            Immediate::U64(v) => *v <= 0x7fff_ffff,
            Immediate::I64(v) => -0x8000_0000 <= *v && *v <= 0x7fff_ffff,
            _ => true,
        }
    }

    /// Whether the immediate is 64 bits wide.
    pub open spec fn is_64bit(self) -> bool {
        self.width() == 8
    }

    /// Whether the immediate is 32 bits wide.
    pub open spec fn is_32bit(self) -> bool {
        self.width() == 4
    }

    /// Whether the immediate is 16 bits wide.
    pub open spec fn is_16bit(self) -> bool {
        self.width() == 2
    }

    /// Whether the immediate is 8 bits wide.
    pub open spec fn is_8bit(self) -> bool {
        self.width() == 1
    }

    /// Whether the immediate is 64 bits wide.
    pub fn b64p(&self) -> (r: bool)
        ensures
            r == self.is_64bit(),
    {
        match self {
            Immediate::U64(_) | Immediate::I64(_) => true,
            _ => false,
        }
    }

    /// Whether the immediate is 32 bits wide.
    pub fn b32p(&self) -> (r: bool)
        ensures
            r == self.is_32bit(),
    {
        match self {
            Immediate::U32(_) | Immediate::I32(_) => true,
            _ => false,
        }
    }

    /// Whether the immediate is 16 bits wide.
    pub fn b16p(&self) -> (r: bool)
        ensures
            r == self.is_16bit(),
    {
        match self {
            Immediate::U16(_) | Immediate::I16(_) => true,
            _ => false,
        }
    }

    /// Whether the immediate is 8 bits wide.
    pub fn b8p(&self) -> (r: bool)
        ensures
            r == self.is_8bit(),
    {
        match self {
            Immediate::U8(_) | Immediate::I8(_) => true,
            _ => false,
        }
    }

    /// Of the four width predicates exactly one holds of an immediate.
    pub proof fn lemma_widths_are_exclusive(self)
        ensures
            (if self.is_8bit() {
                1int
            } else {
                0int
            }) + (if self.is_16bit() {
                1int
            } else {
                0int
            }) + (if self.is_32bit() {
                1int
            } else {
                0int
            }) + (if self.is_64bit() {
                1int
            } else {
                0int
            }) == 1,
    {
    }

    /// The immediate of type `ty` that `text` spells in decimal, if it spells
    /// one: what the standard library reads from the text as a number of
    /// that type.
    pub open spec fn parsed(text: Seq<char>, ty: Constant) -> Option<Immediate> {
        match ty {
            Constant::U8 => match parsed_u8(text) {
                Some(v) => Some(Immediate::U8(v)),
                None => None,
            },
            Constant::U16 => match parsed_u16(text) {
                Some(v) => Some(Immediate::U16(v)),
                None => None,
            },
            Constant::U32 => match parsed_u32(text) {
                Some(v) => Some(Immediate::U32(v)),
                None => None,
            },
            Constant::U64 => match parsed_u64(text) {
                Some(v) => Some(Immediate::U64(v)),
                None => None,
            },
            Constant::I8 => match parsed_i8(text) {
                Some(v) => Some(Immediate::I8(v)),
                None => None,
            },
            Constant::I16 => match parsed_i16(text) {
                Some(v) => Some(Immediate::I16(v)),
                None => None,
            },
            Constant::I32 => match parsed_i32(text) {
                Some(v) => Some(Immediate::I32(v)),
                None => None,
            },
            Constant::I64 => match parsed_i64(text) {
                Some(v) => Some(Immediate::I64(v)),
                None => None,
            },
        }
    }

    /// Reads an immediate of type `ty` from its decimal text.
    pub fn from(t: &str, ty: Constant) -> (r: Result<Self, ParseIntError>)
        ensures
            r is Ok <==> Immediate::parsed(t@, ty) is Some,
            r is Ok ==> Immediate::parsed(t@, ty) == Some(r->Ok_0),
            r is Ok ==> r->Ok_0.width() == ty.width(),
    {
        match ty {
            Constant::U8 => match parse_u8(t) {
                Ok(v) => Ok(Immediate::U8(v)),
                Err(e) => Err(e),
            },
            Constant::U16 => match parse_u16(t) {
                Ok(v) => Ok(Immediate::U16(v)),
                Err(e) => Err(e),
            },
            Constant::U32 => match parse_u32(t) {
                Ok(v) => Ok(Immediate::U32(v)),
                Err(e) => Err(e),
            },
            Constant::U64 => match parse_u64(t) {
                Ok(v) => Ok(Immediate::U64(v)),
                Err(e) => Err(e),
            },
            Constant::I8 => match parse_i8(t) {
                Ok(v) => Ok(Immediate::I8(v)),
                Err(e) => Err(e),
            },
            Constant::I16 => match parse_i16(t) {
                Ok(v) => Ok(Immediate::I16(v)),
                Err(e) => Err(e),
            },
            Constant::I32 => match parse_i32(t) {
                Ok(v) => Ok(Immediate::I32(v)),
                Err(e) => Err(e),
            },
            Constant::I64 => match parse_i64(t) {
                Ok(v) => Ok(Immediate::I64(v)),
                Err(e) => Err(e),
            },
        }
    }

    /// The bytes of the immediate, least significant first.
    pub fn to_le_bytes(self) -> (r: Vec<u8>)
        ensures
            r@ == self.bytes(),
    {
        let mut out: Vec<u8> = Vec::new();
        match self {
            Immediate::U8(v) => {
                out.push(v);
                proof {
                    lemma_le_bytes_one(v);
                }
            },
            Immediate::I8(v) => {
                let bits = i8_bits(v);
                out.push(bits);
                proof {
                    lemma_le_bytes_one(bits);
                }
            },
            Immediate::U16(v) => write_u16_le(&mut out, v),
            Immediate::I16(v) => write_u16_le(&mut out, i16_bits(v)),
            Immediate::U32(v) => write_u32_le(&mut out, v),
            Immediate::I32(v) => write_u32_le(&mut out, i32_bits(v)),
            Immediate::U64(v) => write_u64_le(&mut out, v),
            Immediate::I64(v) => write_u64_le(&mut out, i64_bits(v)),
        }
        assert(out@ =~= self.bytes());
        out
    }
}

/// A signed 8-bit number other than zero.
#[derive(Debug, Copy, Clone, PartialEq, Eq)]
pub struct NonZeroI8 {
    value: i8,
}

impl View for NonZeroI8 {
    type V = i8;

    closed spec fn view(&self) -> i8 {
        self.value
    }
}

impl NonZeroI8 {
    #[verifier::type_invariant]
    spec fn is_nonzero(self) -> bool {
        self.value != 0
    }

    /// The number as a value of this type, or `None` for zero.
    pub fn new(value: i8) -> (r: Option<Self>)
        ensures
            r is None <==> value == 0,
            r is Some ==> r->0@ == value,
    {
        if value == 0 {
            None
        } else {
            Some(NonZeroI8 { value })
        }
    }

    /// The number, which is never zero.
    pub fn get(self) -> (value: i8)
        ensures
            value == self@,
            value != 0,
    {
        proof {
            use_type_invariant(self);
        }
        self.value
    }
}

/// A signed 16-bit number other than zero.
#[derive(Debug, Copy, Clone, PartialEq, Eq)]
pub struct NonZeroI16 {
    value: i16,
}

impl View for NonZeroI16 {
    type V = i16;

    closed spec fn view(&self) -> i16 {
        self.value
    }
}

impl NonZeroI16 {
    #[verifier::type_invariant]
    spec fn is_nonzero(self) -> bool {
        self.value != 0
    }

    /// The number as a value of this type, or `None` for zero.
    pub fn new(value: i16) -> (r: Option<Self>)
        ensures
            r is None <==> value == 0,
            r is Some ==> r->0@ == value,
    {
        if value == 0 {
            None
        } else {
            Some(NonZeroI16 { value })
        }
    }

    /// The number, which is never zero.
    pub fn get(self) -> (value: i16)
        ensures
            value == self@,
            value != 0,
    {
        proof {
            use_type_invariant(self);
        }
        self.value
    }
}

/// A signed 32-bit number other than zero.
#[derive(Debug, Copy, Clone, PartialEq, Eq)]
pub struct NonZeroI32 {
    value: i32,
}

impl View for NonZeroI32 {
    type V = i32;

    closed spec fn view(&self) -> i32 {
        self.value
    }
}

impl NonZeroI32 {
    #[verifier::type_invariant]
    spec fn is_nonzero(self) -> bool {
        self.value != 0
    }

    /// The number as a value of this type, or `None` for zero.
    pub fn new(value: i32) -> (r: Option<Self>)
        ensures
            r is None <==> value == 0,
            r is Some ==> r->0@ == value,
    {
        if value == 0 {
            None
        } else {
            Some(NonZeroI32 { value })
        }
    }

    /// The number, which is never zero.
    pub fn get(self) -> (value: i32)
        ensures
            value == self@,
            value != 0,
    {
        proof {
            use_type_invariant(self);
        }
        self.value
    }
}

/// The distance of a memory operand from its base register: a signed number
/// of 8, 16 or 32 bits that is never zero. An operand at the base register
/// itself has no displacement at all.
#[derive(Debug, Copy, Clone, PartialEq, Eq)]
pub enum Displacement {
    Disp8(NonZeroI8),
    Disp16(NonZeroI16),
    Disp32(NonZeroI32),
}

impl Displacement {
    /// The width of the displacement, in bytes.
    pub open spec fn width(self) -> nat {
        match self {
            Displacement::Disp8(_) => 1,
            Displacement::Disp16(_) => 2,
            Displacement::Disp32(_) => 4,
        }
    }

    /// The distance in bytes.
    pub open spec fn value(self) -> int {
        match self {
            Displacement::Disp8(d) => d@ as int,
            Displacement::Disp16(d) => d@ as int,
            Displacement::Disp32(d) => d@ as int,
        }
    }

    /// The bytes of the displacement as an instruction holds them: its width
    /// in bytes, least significant first, in two's complement.
    pub open spec fn bytes(self) -> Seq<u8> {
        le_bytes(twos_complement(self.value(), self.width()), self.width())
    }

    /// Whether the opposite distance can be written in the same width: all
    /// but the smallest number of each width.
    pub open spec fn negatable(self) -> bool {
        fits_signed(-self.value(), self.width())
    }

    /// The distance in bytes, which is never zero.
    pub fn get(self) -> (value: i32)
        ensures
            value == self.value(),
            value != 0,
    {
        match self {
            Displacement::Disp8(d) => d.get() as i32,
            Displacement::Disp16(d) => d.get() as i32,
            Displacement::Disp32(d) => d.get(),
        }
    }

    /// Whether `negate` may be called: whether the opposite distance can be
    /// written in the same width.
    pub fn can_negate(&self) -> (r: bool)
        ensures
            r == self.negatable(),
    {
        proof {
            lemma_radix_values();
        }
        match self {
            Displacement::Disp8(d) => d.get() != i8::MIN,
            Displacement::Disp16(d) => d.get() != i16::MIN,
            Displacement::Disp32(d) => d.get() != i32::MIN,
        }
    }

    /// Replaces the distance by its opposite, in the same width.
    pub fn negate(&mut self)
        requires
            old(self).negatable(),
        ensures
            final(self).value() == -old(self).value(),
            final(self).width() == old(self).width(),
    {
        proof {
            lemma_radix_values();
        }
        match *self {
            Displacement::Disp8(d) => {
                let negated = NonZeroI8::new(-d.get());
                *self = Displacement::Disp8(negated.unwrap());
            },
            Displacement::Disp16(d) => {
                let negated = NonZeroI16::new(-d.get());
                *self = Displacement::Disp16(negated.unwrap());
            },
            Displacement::Disp32(d) => {
                let negated = NonZeroI32::new(-d.get());
                *self = Displacement::Disp32(negated.unwrap());
            },
        }
    }

    /// Whether the displacement is 8 bits wide.
    pub fn is_disp8(&self) -> (r: bool)
        ensures
            r == (self.width() == 1),
    {
        match self {
            Displacement::Disp8(_) => true,
            _ => false,
        }
    }

    /// Whether the displacement is 16 bits wide.
    pub fn is_disp16(&self) -> (r: bool)
        ensures
            r == (self.width() == 2),
    {
        match self {
            Displacement::Disp16(_) => true,
            _ => false,
        }
    }

    /// Whether the displacement is 32 bits wide.
    pub fn is_disp32(&self) -> (r: bool)
        ensures
            r == (self.width() == 4),
    {
        match self {
            Displacement::Disp32(_) => true,
            _ => false,
        }
    }
}

/// An operand as the parser hands it on. Names are symbols of the interner
/// that the program was parsed with.
#[derive(Debug, Copy, Clone, PartialEq, Eq)]
pub enum Operand {
    /// A register, by name.
    Register(Symbol),
    /// The memory at the address in a register, moved by a displacement
    /// where there is one.
    Address(Option<Displacement>, Symbol),
    /// A typed constant.
    Constant(Immediate),
    /// A label, by name.
    Label(Symbol),
}

impl Operand {
    /// Whether the operand is a register.
    pub fn is_register(&self) -> (r: bool)
        ensures
            r == (self is Register),
    {
        match self {
            Operand::Register(_) => true,
            _ => false,
        }
    }

    /// Whether the operand is in memory.
    pub fn is_address(&self) -> (r: bool)
        ensures
            r == (self is Address),
    {
        match self {
            Operand::Address(_, _) => true,
            _ => false,
        }
    }

    /// Whether the operand is a constant.
    pub fn is_constant(&self) -> (r: bool)
        ensures
            r == (self is Constant),
    {
        match self {
            Operand::Constant(_) => true,
            _ => false,
        }
    }

    /// Whether the operand is a label.
    pub fn is_label(&self) -> (r: bool)
        ensures
            r == (self is Label),
    {
        match self {
            Operand::Label(_) => true,
            _ => false,
        }
    }

    /// The name of the register of a register or memory operand.
    pub fn unwrap_register(self) -> (symbol: Symbol)
        requires
            self is Register || self is Address,
        ensures
            self matches Operand::Register(s) ==> symbol == s,
            self matches Operand::Address(_, s) ==> symbol == s,
    {
        match self {
            Operand::Register(t) | Operand::Address(_, t) => t,
            _ => unreached(),
        }
    }

    /// The displacement of a memory operand, if it has one.
    pub fn unwrap_disp(self) -> (displacement: Option<Displacement>)
        requires
            self is Address,
        ensures
            self matches Operand::Address(d, _) && displacement == d,
    {
        match self {
            Operand::Address(d, _) => d,
            _ => unreached(),
        }
    }
}

/// A mnemonic with its operands.
#[derive(Debug, Clone, PartialEq)]
pub struct Operation {
    /// The name of the instruction.
    pub opcode: Symbol,
    /// The operands, destination first.
    pub operands: Vec<Operand>,
}

/// One entry of a parsed program.
#[derive(Debug, Clone, PartialEq)]
pub enum Instruction {
    /// The definition of a label at this place.
    Label(Symbol),
    /// An instruction to encode.
    Operation(Operation),
}

impl Instruction {
    /// An instruction to encode.
    pub fn new(opcode: Symbol, operands: Vec<Operand>) -> (instruction: Self)
        ensures
            instruction == Instruction::Operation(Operation { opcode, operands }),
    {
        Instruction::Operation(Operation { opcode, operands })
    }

    /// The name of the label that a label definition defines.
    pub fn unwrap_label(self) -> (symbol: Symbol)
        requires
            self is Label,
        ensures
            self == Instruction::Label(symbol),
    {
        match self {
            Instruction::Label(s) => s,
            _ => unreached(),
        }
    }
}

} // verus!
