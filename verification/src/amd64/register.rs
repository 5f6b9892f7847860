//! The architectural registers of x86-64 and what the encoder needs to know of
//! each: its width class, its slot in the register file and its name.

use crate::syntax::Immediate;
use crate::text::{ascii_lowercase, same_chars, to_ascii_lowercase};
use vstd::prelude::*;

verus! {

/// The kind of register that a name stands for, by operand width.
#[derive(Clone, Copy, Debug, PartialEq, Eq, Structural)]
pub enum RegisterClass {
    /// An 8-bit general-purpose register.
    Byte,
    /// A 16-bit general-purpose register.
    Word,
    /// A 32-bit general-purpose register.
    Dword,
    /// A 64-bit general-purpose register.
    Qword,
    /// A 64-bit MMX register.
    Mmx,
    /// A 128-bit XMM register.
    Xmm,
}

/// A register of the x86-64 architecture, by name.
///
/// Each row holds the names that share one hardware slot: the 8-bit, 16-bit,
/// 32-bit and 64-bit general-purpose register, then, for the first eight
/// slots, the MMX and the XMM register of the same number.
#[derive(Clone, Copy, Debug, PartialEq, Eq, Hash, Structural)]
pub enum Register {
    AL, AX, EAX, RAX, MMX0, XMM0,
    CL, CX, ECX, RCX, MMX1, XMM1,
    DL, DX, EDX, RDX, MMX2, XMM2,
    BL, BX, EBX, RBX, MMX3, XMM3,
    AH, SP, ESP, RSP, MMX4, XMM4,
    CH, BP, EBP, RBP, MMX5, XMM5,
    DH, SI, ESI, RSI, MMX6, XMM6,
    BH, DI, EDI, RDI, MMX7, XMM7,
    R8L, R8W, R8D, R8,
    R9L, R9W, R9D, R9,
    R10L, R10W, R10D, R10,
    R11L, R11W, R11D, R11,
    R12L, R12W, R12D, R12,
    R13L, R13W, R13D, R13,
    R14L, R14W, R14D, R14,
    R15L, R15W, R15D, R15,
}

/// How many registers have a name.
pub const REGISTER_COUNT: u8 = 80;

impl Register {
    /// The number of the hardware slot that the register occupies: 0 to 7 for
    /// the legacy registers, 8 to 15 for the extended ones.
    pub open spec fn slot(self) -> nat {
        match self {
            Register::AL | Register::AX | Register::EAX | Register::RAX | Register::MMX0
            | Register::XMM0 => 0,
            Register::CL | Register::CX | Register::ECX | Register::RCX | Register::MMX1
            | Register::XMM1 => 1,
            Register::DL | Register::DX | Register::EDX | Register::RDX | Register::MMX2
            | Register::XMM2 => 2,
            Register::BL | Register::BX | Register::EBX | Register::RBX | Register::MMX3
            | Register::XMM3 => 3,
            Register::AH | Register::SP | Register::ESP | Register::RSP | Register::MMX4
            | Register::XMM4 => 4,
            Register::CH | Register::BP | Register::EBP | Register::RBP | Register::MMX5
            | Register::XMM5 => 5,
            Register::DH | Register::SI | Register::ESI | Register::RSI | Register::MMX6
            | Register::XMM6 => 6,
            Register::BH | Register::DI | Register::EDI | Register::RDI | Register::MMX7
            | Register::XMM7 => 7,
            Register::R8L | Register::R8W | Register::R8D | Register::R8 => 8,
            Register::R9L | Register::R9W | Register::R9D | Register::R9 => 9,
            Register::R10L | Register::R10W | Register::R10D | Register::R10 => 10,
            Register::R11L | Register::R11W | Register::R11D | Register::R11 => 11,
            Register::R12L | Register::R12W | Register::R12D | Register::R12 => 12,
            Register::R13L | Register::R13W | Register::R13D | Register::R13 => 13,
            Register::R14L | Register::R14W | Register::R14D | Register::R14 => 14,
            Register::R15L | Register::R15W | Register::R15D | Register::R15 => 15,
        }
    }

    /// The width class of the register.
    pub open spec fn class(self) -> RegisterClass {
        match self {
            Register::AL | Register::CL | Register::DL | Register::BL | Register::AH
            | Register::CH | Register::DH | Register::BH | Register::R8L | Register::R9L
            | Register::R10L | Register::R11L | Register::R12L | Register::R13L
            | Register::R14L | Register::R15L => RegisterClass::Byte,
            Register::AX | Register::CX | Register::DX | Register::BX | Register::SP
            | Register::BP | Register::SI | Register::DI | Register::R8W | Register::R9W
            | Register::R10W | Register::R11W | Register::R12W | Register::R13W
            | Register::R14W | Register::R15W => RegisterClass::Word,
            Register::EAX | Register::ECX | Register::EDX | Register::EBX | Register::ESP
            | Register::EBP | Register::ESI | Register::EDI | Register::R8D | Register::R9D
            | Register::R10D | Register::R11D | Register::R12D | Register::R13D
            | Register::R14D | Register::R15D => RegisterClass::Dword,
            Register::RAX | Register::RCX | Register::RDX | Register::RBX | Register::RSP
            | Register::RBP | Register::RSI | Register::RDI | Register::R8 | Register::R9
            | Register::R10 | Register::R11 | Register::R12 | Register::R13 | Register::R14
            | Register::R15 => RegisterClass::Qword,
            Register::MMX0 | Register::MMX1 | Register::MMX2 | Register::MMX3
            | Register::MMX4 | Register::MMX5 | Register::MMX6 | Register::MMX7 => RegisterClass::Mmx,
            Register::XMM0 | Register::XMM1 | Register::XMM2 | Register::XMM3
            | Register::XMM4 | Register::XMM5 | Register::XMM6 | Register::XMM7 => RegisterClass::Xmm,
        }
    }

    /// The name of the register, in lower case.
    pub open spec fn name(self) -> Seq<char> {
        match self {
            Register::AL => seq!['a', 'l'],
            Register::AX => seq!['a', 'x'],
            Register::EAX => seq!['e', 'a', 'x'],
            Register::RAX => seq!['r', 'a', 'x'],
            Register::MMX0 => seq!['m', 'm', 'x', '0'],
            Register::XMM0 => seq!['x', 'm', 'm', '0'],
            Register::CL => seq!['c', 'l'],
            Register::CX => seq!['c', 'x'],
            Register::ECX => seq!['e', 'c', 'x'],
            Register::RCX => seq!['r', 'c', 'x'],
            Register::MMX1 => seq!['m', 'm', 'x', '1'],
            Register::XMM1 => seq!['x', 'm', 'm', '1'],
            Register::DL => seq!['d', 'l'],
            Register::DX => seq!['d', 'x'],
            Register::EDX => seq!['e', 'd', 'x'],
            Register::RDX => seq!['r', 'd', 'x'],
            Register::MMX2 => seq!['m', 'm', 'x', '2'],
            Register::XMM2 => seq!['x', 'm', 'm', '2'],
            Register::BL => seq!['b', 'l'],
            Register::BX => seq!['b', 'x'],
            Register::EBX => seq!['e', 'b', 'x'],
            Register::RBX => seq!['r', 'b', 'x'],
            Register::MMX3 => seq!['m', 'm', 'x', '3'],
            Register::XMM3 => seq!['x', 'm', 'm', '3'],
            Register::AH => seq!['a', 'h'],
            Register::SP => seq!['s', 'p'],
            Register::ESP => seq!['e', 's', 'p'],
            Register::RSP => seq!['r', 's', 'p'],
            Register::MMX4 => seq!['m', 'm', 'x', '4'],
            Register::XMM4 => seq!['x', 'm', 'm', '4'],
            Register::CH => seq!['c', 'h'],
            Register::BP => seq!['b', 'p'],
            Register::EBP => seq!['e', 'b', 'p'],
            Register::RBP => seq!['r', 'b', 'p'],
            Register::MMX5 => seq!['m', 'm', 'x', '5'],
            Register::XMM5 => seq!['x', 'm', 'm', '5'],
            Register::DH => seq!['d', 'h'],
            Register::SI => seq!['s', 'i'],
            Register::ESI => seq!['e', 's', 'i'],
            Register::RSI => seq!['r', 's', 'i'],
            Register::MMX6 => seq!['m', 'm', 'x', '6'],
            Register::XMM6 => seq!['x', 'm', 'm', '6'],
            Register::BH => seq!['b', 'h'],
            Register::DI => seq!['d', 'i'],
            Register::EDI => seq!['e', 'd', 'i'],
            Register::RDI => seq!['r', 'd', 'i'],
            Register::MMX7 => seq!['m', 'm', 'x', '7'],
            Register::XMM7 => seq!['x', 'm', 'm', '7'],
            Register::R8L => seq!['r', '8', 'l'],
            Register::R8W => seq!['r', '8', 'w'],
            Register::R8D => seq!['r', '8', 'd'],
            Register::R8 => seq!['r', '8'],
            Register::R9L => seq!['r', '9', 'l'],
            Register::R9W => seq!['r', '9', 'w'],
            Register::R9D => seq!['r', '9', 'd'],
            Register::R9 => seq!['r', '9'],
            Register::R10L => seq!['r', '1', '0', 'l'],
            Register::R10W => seq!['r', '1', '0', 'w'],
            Register::R10D => seq!['r', '1', '0', 'd'],
            Register::R10 => seq!['r', '1', '0'],
            Register::R11L => seq!['r', '1', '1', 'l'],
            Register::R11W => seq!['r', '1', '1', 'w'],
            Register::R11D => seq!['r', '1', '1', 'd'],
            Register::R11 => seq!['r', '1', '1'],
            Register::R12L => seq!['r', '1', '2', 'l'],
            Register::R12W => seq!['r', '1', '2', 'w'],
            Register::R12D => seq!['r', '1', '2', 'd'],
            Register::R12 => seq!['r', '1', '2'],
            Register::R13L => seq!['r', '1', '3', 'l'],
            Register::R13W => seq!['r', '1', '3', 'w'],
            Register::R13D => seq!['r', '1', '3', 'd'],
            Register::R13 => seq!['r', '1', '3'],
            Register::R14L => seq!['r', '1', '4', 'l'],
            Register::R14W => seq!['r', '1', '4', 'w'],
            Register::R14D => seq!['r', '1', '4', 'd'],
            Register::R14 => seq!['r', '1', '4'],
            Register::R15L => seq!['r', '1', '5', 'l'],
            Register::R15W => seq!['r', '1', '5', 'w'],
            Register::R15D => seq!['r', '1', '5', 'd'],
            Register::R15 => seq!['r', '1', '5'],
        }
    }

    /// The place of the register in the table of names.
    pub open spec fn index(self) -> nat {
        match self {
            Register::AL => 0,
            Register::AX => 1,
            Register::EAX => 2,
            Register::RAX => 3,
            Register::MMX0 => 4,
            Register::XMM0 => 5,
            Register::CL => 6,
            Register::CX => 7,
            Register::ECX => 8,
            Register::RCX => 9,
            Register::MMX1 => 10,
            Register::XMM1 => 11,
            Register::DL => 12,
            Register::DX => 13,
            Register::EDX => 14,
            Register::RDX => 15,
            Register::MMX2 => 16,
            Register::XMM2 => 17,
            Register::BL => 18,
            Register::BX => 19,
            Register::EBX => 20,
            Register::RBX => 21,
            Register::MMX3 => 22,
            Register::XMM3 => 23,
            Register::AH => 24,
            Register::SP => 25,
            Register::ESP => 26,
            Register::RSP => 27,
            Register::MMX4 => 28,
            Register::XMM4 => 29,
            Register::CH => 30,
            Register::BP => 31,
            Register::EBP => 32,
            Register::RBP => 33,
            Register::MMX5 => 34,
            Register::XMM5 => 35,
            Register::DH => 36,
            Register::SI => 37,
            Register::ESI => 38,
            Register::RSI => 39,
            Register::MMX6 => 40,
            Register::XMM6 => 41,
            Register::BH => 42,
            Register::DI => 43,
            Register::EDI => 44,
            Register::RDI => 45,
            Register::MMX7 => 46,
            Register::XMM7 => 47,
            Register::R8L => 48,
            Register::R8W => 49,
            Register::R8D => 50,
            Register::R8 => 51,
            Register::R9L => 52,
            Register::R9W => 53,
            Register::R9D => 54,
            Register::R9 => 55,
            Register::R10L => 56,
            Register::R10W => 57,
            Register::R10D => 58,
            Register::R10 => 59,
            Register::R11L => 60,
            Register::R11W => 61,
            Register::R11D => 62,
            Register::R11 => 63,
            Register::R12L => 64,
            Register::R12W => 65,
            Register::R12D => 66,
            Register::R12 => 67,
            Register::R13L => 68,
            Register::R13W => 69,
            Register::R13D => 70,
            Register::R13 => 71,
            Register::R14L => 72,
            Register::R14W => 73,
            Register::R14D => 74,
            Register::R14 => 75,
            Register::R15L => 76,
            Register::R15W => 77,
            Register::R15D => 78,
            Register::R15 => 79,
        }
    }

    /// The three bits that stand for the register in an instruction: the slot
    /// without its extension bit.
    pub open spec fn code(self) -> u8 {
        (self.slot() % 8) as u8
    }

    /// Whether the register is one of the eight extended slots, which an
    /// instruction reaches only with a REX prefix.
    pub open spec fn needs_extended_prefix(self) -> bool {
        self.slot() >= 8
    }

    /// Whether the register is an 8-bit general-purpose register.
    pub open spec fn is_8bit(self) -> bool {
        self.class() == RegisterClass::Byte
    }

    /// Whether the register is a 16-bit general-purpose register.
    pub open spec fn is_16bit(self) -> bool {
        self.class() == RegisterClass::Word
    }

    /// Whether the register is a 32-bit general-purpose register.
    pub open spec fn is_32bit(self) -> bool {
        self.class() == RegisterClass::Dword
    }

    /// Whether the register is a 64-bit general-purpose register.
    pub open spec fn is_64bit(self) -> bool {
        self.class() == RegisterClass::Qword
    }

    /// Whether the register is a general-purpose register of any width.
    pub open spec fn is_general_purpose(self) -> bool {
        self.is_8bit() || self.is_16bit() || self.is_32bit() || self.is_64bit()
    }

    /// The width in bytes of a general-purpose register; 0 for a vector
    /// register, which takes no integer operand.
    pub open spec fn width(self) -> nat {
        match self.class() {
            RegisterClass::Byte => 1,
            RegisterClass::Word => 2,
            RegisterClass::Dword => 4,
            RegisterClass::Qword => 8,
            RegisterClass::Mmx | RegisterClass::Xmm => 0,
        }
    }

    /// Whether an immediate may be moved into the register: the register is
    /// general purpose and the immediate is no wider than it.
    pub open spec fn matches_immediate(self, imm: Immediate) -> bool {
        self.is_general_purpose() && imm.width() <= self.width()
    }

    /// Whether the two registers are general purpose and of one width.
    pub open spec fn matches_register(self, other: Register) -> bool {
        self.is_general_purpose() && self.class() == other.class()
    }

    /// The register at a place of the table of names.
    pub fn from_index(index: u8) -> (r: Register)
        requires
            index < REGISTER_COUNT,
        ensures
            r.index() == index,
    {
        match index {
            0 => Register::AL,
            1 => Register::AX,
            2 => Register::EAX,
            3 => Register::RAX,
            4 => Register::MMX0,
            5 => Register::XMM0,
            6 => Register::CL,
            7 => Register::CX,
            8 => Register::ECX,
            9 => Register::RCX,
            10 => Register::MMX1,
            11 => Register::XMM1,
            12 => Register::DL,
            13 => Register::DX,
            14 => Register::EDX,
            15 => Register::RDX,
            16 => Register::MMX2,
            17 => Register::XMM2,
            18 => Register::BL,
            19 => Register::BX,
            20 => Register::EBX,
            21 => Register::RBX,
            22 => Register::MMX3,
            23 => Register::XMM3,
            24 => Register::AH,
            25 => Register::SP,
            26 => Register::ESP,
            27 => Register::RSP,
            28 => Register::MMX4,
            29 => Register::XMM4,
            30 => Register::CH,
            31 => Register::BP,
            32 => Register::EBP,
            33 => Register::RBP,
            34 => Register::MMX5,
            35 => Register::XMM5,
            36 => Register::DH,
            37 => Register::SI,
            38 => Register::ESI,
            39 => Register::RSI,
            40 => Register::MMX6,
            41 => Register::XMM6,
            42 => Register::BH,
            43 => Register::DI,
            44 => Register::EDI,
            45 => Register::RDI,
            46 => Register::MMX7,
            47 => Register::XMM7,
            48 => Register::R8L,
            49 => Register::R8W,
            50 => Register::R8D,
            51 => Register::R8,
            52 => Register::R9L,
            53 => Register::R9W,
            54 => Register::R9D,
            55 => Register::R9,
            56 => Register::R10L,
            57 => Register::R10W,
            58 => Register::R10D,
            59 => Register::R10,
            60 => Register::R11L,
            61 => Register::R11W,
            62 => Register::R11D,
            63 => Register::R11,
            64 => Register::R12L,
            65 => Register::R12W,
            66 => Register::R12D,
            67 => Register::R12,
            68 => Register::R13L,
            69 => Register::R13W,
            70 => Register::R13D,
            71 => Register::R13,
            72 => Register::R14L,
            73 => Register::R14W,
            74 => Register::R14D,
            75 => Register::R14,
            76 => Register::R15L,
            77 => Register::R15W,
            78 => Register::R15D,
            _ => Register::R15,
        }
    }

    /// The characters of the register's lower-case name.
    pub fn spelling(self) -> (r: Vec<char>)
        ensures
            r@ == self.name(),
    {
        let r = match self {
            Register::AL => vec!['a', 'l'],
            Register::AX => vec!['a', 'x'],
            Register::EAX => vec!['e', 'a', 'x'],
            Register::RAX => vec!['r', 'a', 'x'],
            Register::MMX0 => vec!['m', 'm', 'x', '0'],
            Register::XMM0 => vec!['x', 'm', 'm', '0'],
            Register::CL => vec!['c', 'l'],
            Register::CX => vec!['c', 'x'],
            Register::ECX => vec!['e', 'c', 'x'],
            Register::RCX => vec!['r', 'c', 'x'],
            Register::MMX1 => vec!['m', 'm', 'x', '1'],
            Register::XMM1 => vec!['x', 'm', 'm', '1'],
            Register::DL => vec!['d', 'l'],
            Register::DX => vec!['d', 'x'],
            Register::EDX => vec!['e', 'd', 'x'],
            Register::RDX => vec!['r', 'd', 'x'],
            Register::MMX2 => vec!['m', 'm', 'x', '2'],
            Register::XMM2 => vec!['x', 'm', 'm', '2'],
            Register::BL => vec!['b', 'l'],
            Register::BX => vec!['b', 'x'],
            Register::EBX => vec!['e', 'b', 'x'],
            Register::RBX => vec!['r', 'b', 'x'],
            Register::MMX3 => vec!['m', 'm', 'x', '3'],
            Register::XMM3 => vec!['x', 'm', 'm', '3'],
            Register::AH => vec!['a', 'h'],
            Register::SP => vec!['s', 'p'],
            Register::ESP => vec!['e', 's', 'p'],
            Register::RSP => vec!['r', 's', 'p'],
            Register::MMX4 => vec!['m', 'm', 'x', '4'],
            Register::XMM4 => vec!['x', 'm', 'm', '4'],
            Register::CH => vec!['c', 'h'],
            Register::BP => vec!['b', 'p'],
            Register::EBP => vec!['e', 'b', 'p'],
            Register::RBP => vec!['r', 'b', 'p'],
            Register::MMX5 => vec!['m', 'm', 'x', '5'],
            Register::XMM5 => vec!['x', 'm', 'm', '5'],
            Register::DH => vec!['d', 'h'],
            Register::SI => vec!['s', 'i'],
            Register::ESI => vec!['e', 's', 'i'],
            Register::RSI => vec!['r', 's', 'i'],
            Register::MMX6 => vec!['m', 'm', 'x', '6'],
            Register::XMM6 => vec!['x', 'm', 'm', '6'],
            Register::BH => vec!['b', 'h'],
            Register::DI => vec!['d', 'i'],
            Register::EDI => vec!['e', 'd', 'i'],
            Register::RDI => vec!['r', 'd', 'i'],
            Register::MMX7 => vec!['m', 'm', 'x', '7'],
            Register::XMM7 => vec!['x', 'm', 'm', '7'],
            Register::R8L => vec!['r', '8', 'l'],
            Register::R8W => vec!['r', '8', 'w'],
            Register::R8D => vec!['r', '8', 'd'],
            Register::R8 => vec!['r', '8'],
            Register::R9L => vec!['r', '9', 'l'],
            Register::R9W => vec!['r', '9', 'w'],
            Register::R9D => vec!['r', '9', 'd'],
            Register::R9 => vec!['r', '9'],
            Register::R10L => vec!['r', '1', '0', 'l'],
            Register::R10W => vec!['r', '1', '0', 'w'],
            Register::R10D => vec!['r', '1', '0', 'd'],
            Register::R10 => vec!['r', '1', '0'],
            Register::R11L => vec!['r', '1', '1', 'l'],
            Register::R11W => vec!['r', '1', '1', 'w'],
            Register::R11D => vec!['r', '1', '1', 'd'],
            Register::R11 => vec!['r', '1', '1'],
            Register::R12L => vec!['r', '1', '2', 'l'],
            Register::R12W => vec!['r', '1', '2', 'w'],
            Register::R12D => vec!['r', '1', '2', 'd'],
            Register::R12 => vec!['r', '1', '2'],
            Register::R13L => vec!['r', '1', '3', 'l'],
            Register::R13W => vec!['r', '1', '3', 'w'],
            Register::R13D => vec!['r', '1', '3', 'd'],
            Register::R13 => vec!['r', '1', '3'],
            Register::R14L => vec!['r', '1', '4', 'l'],
            Register::R14W => vec!['r', '1', '4', 'w'],
            Register::R14D => vec!['r', '1', '4', 'd'],
            Register::R14 => vec!['r', '1', '4'],
            Register::R15L => vec!['r', '1', '5', 'l'],
            Register::R15W => vec!['r', '1', '5', 'w'],
            Register::R15D => vec!['r', '1', '5', 'd'],
            Register::R15 => vec!['r', '1', '5'],
        };
        assert(r@ =~= self.name());
        r
    }

    /// The register that `text` names, in any mix of upper and lower case, if
    /// it names one.
    pub open spec fn from_name(text: Seq<char>) -> Option<Register> {
        if exists|register: Register| register.name() == ascii_lowercase(text) {
            Some(choose|register: Register| register.name() == ascii_lowercase(text))
        } else {
            None
        }
    }

    /// Looks a register up by its name, in any mix of upper and lower case.
    ///
    /// Returns `None` where no register has that name.
    pub fn from_str(input: &str) -> (r: Option<Register>)
        ensures
            r == Register::from_name(input@),
            match r {
                Some(register) => ascii_lowercase(input@) == register.name(),
                None => forall|register: Register| ascii_lowercase(input@) != register.name(),
            },
    {
        let lowered = to_ascii_lowercase(input);
        let mut index: u8 = 0;
        while index < REGISTER_COUNT
            invariant
                index <= REGISTER_COUNT,
                lowered@ == ascii_lowercase(input@),
                forall|register: Register|
                    register.index() < index ==> lowered@ != #[trigger] register.name(),
            decreases REGISTER_COUNT - index,
        {
            let candidate = Register::from_index(index);
            let name = candidate.spelling();
            if same_chars(&lowered, &name) {
                proof {
                    let chosen = choose|register: Register|
                        register.name() == ascii_lowercase(input@);
                    Self::lemma_name_is_one_to_one(chosen, candidate);
                }
                return Some(candidate);
            }
            proof {
                assert forall|register: Register| register.index() < index + 1 implies lowered@
                    != #[trigger] register.name() by {
                    if register.index() == index {
                        Self::lemma_index_is_one_to_one(register, candidate);
                    }
                }
            }
            index += 1;
        }
        proof {
            assert forall|register: Register| ascii_lowercase(input@) != register.name() by {
                Self::lemma_index_is_in_range(register);
            }
        }
        None
    }

    /// The three bits that stand for the register in an instruction.
    pub fn value(self) -> (v: u8)
        ensures
            v == self.code(),
            v < 8,
    {
        match self {
            Register::AL | Register::AX | Register::EAX | Register::RAX | Register::R8L
            | Register::R8W | Register::R8D | Register::R8 | Register::MMX0
            | Register::XMM0 => 0b000,
            Register::CL | Register::CX | Register::ECX | Register::RCX | Register::R9L
            | Register::R9W | Register::R9D | Register::R9 | Register::MMX1
            | Register::XMM1 => 0b001,
            Register::DL | Register::DX | Register::EDX | Register::RDX | Register::R10L
            | Register::R10W | Register::R10D | Register::R10 | Register::MMX2
            | Register::XMM2 => 0b010,
            Register::BL | Register::BX | Register::EBX | Register::RBX | Register::R11L
            | Register::R11W | Register::R11D | Register::R11 | Register::MMX3
            | Register::XMM3 => 0b011,
            Register::AH | Register::SP | Register::ESP | Register::RSP | Register::R12L
            | Register::R12W | Register::R12D | Register::R12 | Register::MMX4
            | Register::XMM4 => 0b100,
            Register::CH | Register::BP | Register::EBP | Register::RBP | Register::R13L
            | Register::R13W | Register::R13D | Register::R13 | Register::MMX5
            | Register::XMM5 => 0b101,
            Register::DH | Register::SI | Register::ESI | Register::RSI | Register::R14L
            | Register::R14W | Register::R14D | Register::R14 | Register::MMX6
            | Register::XMM6 => 0b110,
            Register::BH | Register::DI | Register::EDI | Register::RDI | Register::R15L
            | Register::R15W | Register::R15D | Register::R15 | Register::MMX7
            | Register::XMM7 => 0b111,
        }
    }

    /// Whether an instruction needs a REX prefix to reach the register.
    pub fn rexp(&self) -> (r: bool)
        ensures
            r == self.needs_extended_prefix(),
    {
        match self {
            Register::R8L | Register::R8W | Register::R8D | Register::R8 | Register::R9L
            | Register::R9W | Register::R9D | Register::R9 | Register::R10L
            | Register::R10W | Register::R10D | Register::R10 | Register::R11L
            | Register::R11W | Register::R11D | Register::R11 | Register::R12L
            | Register::R12W | Register::R12D | Register::R12 | Register::R13L
            | Register::R13W | Register::R13D | Register::R13 | Register::R14L
            | Register::R14W | Register::R14D | Register::R14 | Register::R15L
            | Register::R15W | Register::R15D | Register::R15 => true,
            _ => false,
        }
    }

    /// Whether the register is a 64-bit general-purpose register.
    pub fn b64p(&self) -> (r: bool)
        ensures
            r == self.is_64bit(),
    {
        match self {
            Register::RAX | Register::RCX | Register::RDX | Register::RBX | Register::RSP
            | Register::RBP | Register::RSI | Register::RDI | Register::R8 | Register::R9
            | Register::R10 | Register::R11 | Register::R12 | Register::R13 | Register::R14
            | Register::R15 => true,
            _ => false,
        }
    }

    /// Whether the register is a 32-bit general-purpose register.
    pub fn b32p(&self) -> (r: bool)
        ensures
            r == self.is_32bit(),
    {
        match self {
            Register::EAX | Register::ECX | Register::EDX | Register::EBX | Register::ESP
            | Register::EBP | Register::ESI | Register::EDI | Register::R8D | Register::R9D
            | Register::R10D | Register::R11D | Register::R12D | Register::R13D
            | Register::R14D | Register::R15D => true,
            _ => false,
        }
    }

    /// Whether the register is a 16-bit general-purpose register.
    pub fn b16p(&self) -> (r: bool)
        ensures
            r == self.is_16bit(),
    {
        match self {
            Register::AX | Register::CX | Register::DX | Register::BX | Register::SP
            | Register::BP | Register::SI | Register::DI | Register::R8W | Register::R9W
            | Register::R10W | Register::R11W | Register::R12W | Register::R13W
            | Register::R14W | Register::R15W => true,
            _ => false,
        }
    }

    /// Whether the register is an 8-bit general-purpose register.
    pub fn b8p(&self) -> (r: bool)
        ensures
            r == self.is_8bit(),
    {
        match self {
            Register::AL | Register::CL | Register::DL | Register::BL | Register::AH
            | Register::CH | Register::DH | Register::BH | Register::R8L | Register::R9L
            | Register::R10L | Register::R11L | Register::R12L | Register::R13L
            | Register::R14L | Register::R15L => true,
            _ => false,
        }
    }

    /// Whether an immediate may be moved into the register: a narrower
    /// immediate fits a wider register, never the reverse, and a vector
    /// register takes none.
    pub fn matches_imm(&self, imm: Immediate) -> (r: bool)
        ensures
            r == self.matches_immediate(imm),
    {
        if self.b8p() {
            imm.b8p()
        } else if self.b16p() {
            imm.b8p() || imm.b16p()
        } else if self.b32p() {
            imm.b8p() || imm.b16p() || imm.b32p()
        } else {
            self.b64p()
        }
    }

    /// Whether the two registers are general purpose and of one width.
    pub fn matches_reg(&self, reg: Register) -> (r: bool)
        ensures
            r == self.matches_register(reg),
    {
        if self.b8p() {
            reg.b8p()
        } else if self.b16p() {
            reg.b16p()
        } else if self.b32p() {
            reg.b32p()
        } else if self.b64p() {
            reg.b64p()
        } else {
            false
        }
    }

    /// Every register has a place in the table of names.
    pub proof fn lemma_index_is_in_range(register: Register)
        ensures
            register.index() < REGISTER_COUNT,
    {
    }

    /// No two registers share a place in the table of names.
    pub proof fn lemma_index_is_one_to_one(a: Register, b: Register)
        requires
            a.index() == b.index(),
        ensures
            a == b,
    {
    }

    /// Of the four width predicates exactly one holds of a general-purpose
    /// register, and none of a vector register.
    pub proof fn lemma_widths_are_exclusive(register: Register)
        ensures
            register.is_general_purpose() ==> (if register.is_8bit() {
                1int
            } else {
                0int
            }) + (if register.is_16bit() {
                1int
            } else {
                0int
            }) + (if register.is_32bit() {
                1int
            } else {
                0int
            }) + (if register.is_64bit() {
                1int
            } else {
                0int
            }) == 1,
            !register.is_general_purpose() ==> !register.is_8bit() && !register.is_16bit()
                && !register.is_32bit() && !register.is_64bit(),
    {
    }

    /// The registers that occupy one hardware slot share their three-bit code
    /// and their need for a REX prefix, whatever their width.
    pub proof fn lemma_slot_fixes_code(a: Register, b: Register)
        requires
            a.slot() == b.slot(),
        ensures
            a.code() == b.code(),
            a.needs_extended_prefix() == b.needs_extended_prefix(),
    {
    }

    /// No two registers share a name.
    pub proof fn lemma_name_is_one_to_one(a: Register, b: Register)
        requires
            a.name() == b.name(),
        ensures
            a == b,
    {
        if a != b {
            Self::lemma_names_differ(a, b);
        }
    }

    proof fn lemma_names_differ(a: Register, b: Register)
        requires
            a != b,
        ensures
            a.name() != b.name(),
    {
        let x = a.name();
        let y = b.name();
        if x.len() == y.len() {
            assert(x[0] != y[0] || x[1] != y[1] || (x.len() > 2 && x[2] != y[2]) || (x.len() > 3
                && x[3] != y[3]));
        }
    }
}

} // verus!
