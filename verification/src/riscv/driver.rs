//! The driver for RISC-V: walks a token stream, binds labels, defines
//! constants and data, and has the assembler encode each instruction after
//! checking its operands.

use crate::number::{parse_i32, parsed_i32};
use crate::riscv::assembler::{branch_kind, jal_kind, Assembler};
use crate::riscv::encoding::{
    auipc_word, fits_immediate, immediate_word, jalr_word, load_word, lui_word, register_word,
    shift_word, store_word, BranchOp, ImmediateOp, LoadOp, RegisterOp, ShiftOp, StoreOp, EBREAK,
    ECALL,
};
use crate::riscv::register::Register;
use crate::session::{PatchError, Session};
use crate::table::Table;
use crate::text::same_text;
use crate::token::{all_fit, significant, without_comments, Token};
use crate::bytes::le_bytes;
use std::collections::HashMap;
use vstd::prelude::*;
use vstd::string::StrSliceExecFns;
use vstd::utf8::encode_utf8;

verus! {

broadcast use vstd::std_specs::hash::group_hash_axioms;

/// Why a token stream cannot be assembled.
#[derive(Debug, Copy, Clone, PartialEq, Eq, Structural)]
pub enum Error {
    /// The tokens end in the middle of an item.
    EndOfInput,
    /// A token is of a kind that cannot stand where it stands.
    Token,
    /// The opcode names no instruction that the assembler knows.
    Opcode,
    /// A register operand names no register.
    Register,
    /// A number cannot be read, or a name is not that of a constant.
    Constant,
    /// The operand of `la` is not the name of a piece of data.
    Global,
    /// An immediate does not fit into its field, or a label is farther away
    /// than its jump can reach.
    Range,
    /// A jump goes to a label that is nowhere defined.
    Label,
}

impl Error {
    /// The error that a jump which cannot be patched stands for.
    pub open spec fn of_patch(e: PatchError) -> Error {
        match e {
            PatchError::UnknownLabel => Error::Label,
            PatchError::OutOfRange => Error::Range,
        }
    }

    /// What went wrong, in words.
    pub open spec fn text(self) -> Seq<char> {
        match self {
            Error::EndOfInput => "Unexpected end of input"@,
            Error::Token => "Unexpected token"@,
            Error::Opcode => "Invalid opcode"@,
            Error::Register => "Invalid register name"@,
            Error::Constant => "Invalid constant"@,
            Error::Global => "Unknown data name"@,
            Error::Range => "Value out of range"@,
            Error::Label => "Unknown label"@,
        }
    }

    /// What went wrong, in words.
    pub fn to_string(&self) -> (message: String)
        ensures
            message@ == self.text(),
    {
        match self {
            Error::EndOfInput => "Unexpected end of input",
            Error::Token => "Unexpected token",
            Error::Opcode => "Invalid opcode",
            Error::Register => "Invalid register name",
            Error::Constant => "Invalid constant",
            Error::Global => "Unknown data name",
            Error::Range => "Value out of range",
            Error::Label => "Unknown label",
        }.to_owned()
    }
}

/// The instructions that the driver knows, by the shape of their operands.
#[derive(Debug, Copy, Clone, PartialEq, Eq, Structural)]
pub enum Opcode {
    /// Three registers.
    Register(RegisterOp),
    /// Two registers and an immediate.
    Immediate(ImmediateOp),
    /// Two registers and an immediate that is subtracted: `addi` of the
    /// opposite number.
    Subi,
    /// Two registers and a shift amount.
    Shift(ShiftOp),
    /// A register and an address.
    Load(LoadOp),
    /// An address and a register.
    Store(StoreOp),
    /// Two registers and a label.
    Branch(BranchOp),
    /// A register and the name of a piece of data, whose address is filled
    /// in when the program is laid out.
    La,
    /// A register and a label.
    Jal,
    /// A register and an address.
    Jalr,
    /// A register and a 20-bit immediate.
    Lui,
    /// A register and a 20-bit immediate.
    Auipc,
    /// No operand.
    Ecall,
    /// No operand.
    Ebreak,
}

impl Opcode {
    /// The instruction that `text` names, if it names one.
    pub open spec fn from_text(text: Seq<char>) -> Option<Opcode> {
        if text == "add"@ {
            Some(Opcode::Register(RegisterOp::Add))
        } else if text == "sub"@ {
            Some(Opcode::Register(RegisterOp::Sub))
        } else if text == "xor"@ {
            Some(Opcode::Register(RegisterOp::Xor))
        } else if text == "or"@ {
            Some(Opcode::Register(RegisterOp::Or))
        } else if text == "and"@ {
            Some(Opcode::Register(RegisterOp::And))
        } else if text == "sll"@ {
            Some(Opcode::Register(RegisterOp::Sll))
        } else if text == "srl"@ {
            Some(Opcode::Register(RegisterOp::Srl))
        } else if text == "sra"@ {
            Some(Opcode::Register(RegisterOp::Sra))
        } else if text == "slt"@ {
            Some(Opcode::Register(RegisterOp::Slt))
        } else if text == "sltu"@ {
            Some(Opcode::Register(RegisterOp::Sltu))
        } else if text == "addi"@ {
            Some(Opcode::Immediate(ImmediateOp::Addi))
        } else if text == "subi"@ {
            Some(Opcode::Subi)
        } else if text == "xori"@ {
            Some(Opcode::Immediate(ImmediateOp::Xori))
        } else if text == "ori"@ {
            Some(Opcode::Immediate(ImmediateOp::Ori))
        } else if text == "andi"@ {
            Some(Opcode::Immediate(ImmediateOp::Andi))
        } else if text == "slli"@ {
            Some(Opcode::Shift(ShiftOp::Slli))
        } else if text == "srli"@ {
            Some(Opcode::Shift(ShiftOp::Srli))
        } else if text == "srai"@ {
            Some(Opcode::Shift(ShiftOp::Srai))
        } else if text == "slti"@ {
            Some(Opcode::Immediate(ImmediateOp::Slti))
        } else if text == "sltiu"@ {
            Some(Opcode::Immediate(ImmediateOp::Sltiu))
        } else if text == "lb"@ {
            Some(Opcode::Load(LoadOp::Lb))
        } else if text == "lh"@ {
            Some(Opcode::Load(LoadOp::Lh))
        } else if text == "lw"@ {
            Some(Opcode::Load(LoadOp::Lw))
        } else if text == "ld"@ {
            Some(Opcode::Load(LoadOp::Ld))
        } else if text == "lbu"@ {
            Some(Opcode::Load(LoadOp::Lbu))
        } else if text == "lhu"@ {
            Some(Opcode::Load(LoadOp::Lhu))
        } else if text == "lwu"@ {
            Some(Opcode::Load(LoadOp::Lwu))
        } else if text == "la"@ {
            Some(Opcode::La)
        } else if text == "sb"@ {
            Some(Opcode::Store(StoreOp::Sb))
        } else if text == "sh"@ {
            Some(Opcode::Store(StoreOp::Sh))
        } else if text == "sw"@ {
            Some(Opcode::Store(StoreOp::Sw))
        } else if text == "sd"@ {
            Some(Opcode::Store(StoreOp::Sd))
        } else if text == "beq"@ {
            Some(Opcode::Branch(BranchOp::Beq))
        } else if text == "bne"@ {
            Some(Opcode::Branch(BranchOp::Bne))
        } else if text == "blt"@ {
            Some(Opcode::Branch(BranchOp::Blt))
        } else if text == "bge"@ {
            Some(Opcode::Branch(BranchOp::Bge))
        } else if text == "bltu"@ {
            Some(Opcode::Branch(BranchOp::Bltu))
        } else if text == "bgeu"@ {
            Some(Opcode::Branch(BranchOp::Bgeu))
        } else if text == "jal"@ {
            Some(Opcode::Jal)
        } else if text == "jalr"@ {
            Some(Opcode::Jalr)
        } else if text == "lui"@ {
            Some(Opcode::Lui)
        } else if text == "auipc"@ {
            Some(Opcode::Auipc)
        } else if text == "ecall"@ {
            Some(Opcode::Ecall)
        } else if text == "ebreak"@ {
            Some(Opcode::Ebreak)
        } else {
            None
        }
    }

    /// Looks an instruction up by its name.
    pub fn from_str(text: &str) -> (r: Option<Opcode>)
        ensures
            r == Opcode::from_text(text@),
    {
        if same_text(text, "add") {
            Some(Opcode::Register(RegisterOp::Add))
        } else if same_text(text, "sub") {
            Some(Opcode::Register(RegisterOp::Sub))
        } else if same_text(text, "xor") {
            Some(Opcode::Register(RegisterOp::Xor))
        } else if same_text(text, "or") {
            Some(Opcode::Register(RegisterOp::Or))
        } else if same_text(text, "and") {
            Some(Opcode::Register(RegisterOp::And))
        } else if same_text(text, "sll") {
            Some(Opcode::Register(RegisterOp::Sll))
        } else if same_text(text, "srl") {
            Some(Opcode::Register(RegisterOp::Srl))
        } else if same_text(text, "sra") {
            Some(Opcode::Register(RegisterOp::Sra))
        } else if same_text(text, "slt") {
            Some(Opcode::Register(RegisterOp::Slt))
        } else if same_text(text, "sltu") {
            Some(Opcode::Register(RegisterOp::Sltu))
        } else if same_text(text, "addi") {
            Some(Opcode::Immediate(ImmediateOp::Addi))
        } else if same_text(text, "subi") {
            Some(Opcode::Subi)
        } else if same_text(text, "xori") {
            Some(Opcode::Immediate(ImmediateOp::Xori))
        } else if same_text(text, "ori") {
            Some(Opcode::Immediate(ImmediateOp::Ori))
        } else if same_text(text, "andi") {
            Some(Opcode::Immediate(ImmediateOp::Andi))
        } else if same_text(text, "slli") {
            Some(Opcode::Shift(ShiftOp::Slli))
        } else if same_text(text, "srli") {
            Some(Opcode::Shift(ShiftOp::Srli))
        } else if same_text(text, "srai") {
            Some(Opcode::Shift(ShiftOp::Srai))
        } else if same_text(text, "slti") {
            Some(Opcode::Immediate(ImmediateOp::Slti))
        } else if same_text(text, "sltiu") {
            Some(Opcode::Immediate(ImmediateOp::Sltiu))
        } else if same_text(text, "lb") {
            Some(Opcode::Load(LoadOp::Lb))
        } else if same_text(text, "lh") {
            Some(Opcode::Load(LoadOp::Lh))
        } else if same_text(text, "lw") {
            Some(Opcode::Load(LoadOp::Lw))
        } else if same_text(text, "ld") {
            Some(Opcode::Load(LoadOp::Ld))
        } else if same_text(text, "lbu") {
            Some(Opcode::Load(LoadOp::Lbu))
        } else if same_text(text, "lhu") {
            Some(Opcode::Load(LoadOp::Lhu))
        } else if same_text(text, "lwu") {
            Some(Opcode::Load(LoadOp::Lwu))
        } else if same_text(text, "la") {
            Some(Opcode::La)
        } else if same_text(text, "sb") {
            Some(Opcode::Store(StoreOp::Sb))
        } else if same_text(text, "sh") {
            Some(Opcode::Store(StoreOp::Sh))
        } else if same_text(text, "sw") {
            Some(Opcode::Store(StoreOp::Sw))
        } else if same_text(text, "sd") {
            Some(Opcode::Store(StoreOp::Sd))
        } else if same_text(text, "beq") {
            Some(Opcode::Branch(BranchOp::Beq))
        } else if same_text(text, "bne") {
            Some(Opcode::Branch(BranchOp::Bne))
        } else if same_text(text, "blt") {
            Some(Opcode::Branch(BranchOp::Blt))
        } else if same_text(text, "bge") {
            Some(Opcode::Branch(BranchOp::Bge))
        } else if same_text(text, "bltu") {
            Some(Opcode::Branch(BranchOp::Bltu))
        } else if same_text(text, "bgeu") {
            Some(Opcode::Branch(BranchOp::Bgeu))
        } else if same_text(text, "jal") {
            Some(Opcode::Jal)
        } else if same_text(text, "jalr") {
            Some(Opcode::Jalr)
        } else if same_text(text, "lui") {
            Some(Opcode::Lui)
        } else if same_text(text, "auipc") {
            Some(Opcode::Auipc)
        } else if same_text(text, "ecall") {
            Some(Opcode::Ecall)
        } else if same_text(text, "ebreak") {
            Some(Opcode::Ebreak)
        } else {
            None
        }
    }
}

/// What the driver has gathered, as plain values.
pub struct State {
    /// The assembler session.
    pub session: Session,
    /// The pieces of data defined so far.
    pub data: Seq<Seq<u8>>,
    /// For each place in the code that waits for the address of a piece of
    /// data: from the offset of the place to the index of the piece.
    pub rewrites: Map<nat, nat>,
    /// The constants defined so far.
    pub constants: Map<Seq<char>, int>,
    /// The index of each named piece of data.
    pub globals: Map<Seq<char>, nat>,
}

impl State {
    /// The state in which nothing has happened yet.
    pub open spec fn empty() -> State {
        State {
            session: Session::empty(),
            data: Seq::empty(),
            rewrites: Map::empty(),
            constants: Map::empty(),
            globals: Map::empty(),
        }
    }

    /// The state after one instruction word was emitted.
    pub open spec fn emit(self, word: nat) -> State {
        State { session: self.session.emit(le_bytes(word, 4)), ..self }
    }
}

/// The token at a position, or the error that there is none.
pub open spec fn token_at(tokens: Seq<Token>, pos: nat) -> Result<Token, Error> {
    if pos < tokens.len() {
        Ok(tokens[pos as int])
    } else {
        Err(Error::EndOfInput)
    }
}

/// The text of the name at a position.
pub open spec fn symbol_at(tokens: Seq<Token>, input: Seq<char>, pos: nat) -> Result<
    Seq<char>,
    Error,
> {
    match token_at(tokens, pos) {
        Err(e) => Err(e),
        Ok(token) => if token is Symbol {
            Ok(token.text(input))
        } else {
            Err(Error::Token)
        },
    }
}

/// The register that the name at a position names.
pub open spec fn register_at(tokens: Seq<Token>, input: Seq<char>, pos: nat) -> Result<
    Register,
    Error,
> {
    match symbol_at(tokens, input, pos) {
        Err(e) => Err(e),
        Ok(text) => match Register::from_name(text) {
            Some(register) => Ok(register),
            None => Err(Error::Register),
        },
    }
}

/// That a closer stands at a position.
pub open spec fn closer_at(tokens: Seq<Token>, pos: nat) -> Result<(), Error> {
    match token_at(tokens, pos) {
        Err(e) => Err(e),
        Ok(token) => if token.is_closer() {
            Ok(())
        } else {
            Err(Error::Token)
        },
    }
}

/// The character that stands behind a backslash for the given byte.
pub open spec fn escaped(byte: u8) -> Option<u8> {
    if byte == 0x5c || byte == 0x27 || byte == 0x22 {
        Some(byte)
    } else if byte == 0x72 {
        Some(0x0du8)
    } else if byte == 0x6e {
        Some(0x0au8)
    } else if byte == 0x74 {
        Some(0x09u8)
    } else if byte == 0x30 {
        Some(0x00u8)
    } else {
        None
    }
}

/// The value of a character literal: of the first byte between its
/// delimiters, or of the escape that a backslash begins.
pub open spec fn char_value(text: Seq<char>) -> Option<int> {
    if text.len() < 4 {
        None
    } else {
        let bytes = encode_utf8(text.subrange(2, text.len() - 1));
        if bytes.len() == 0 {
            None
        } else if bytes[0] == 0x5c {
            if bytes.len() < 2 {
                None
            } else {
                match escaped(bytes[1]) {
                    Some(v) => Some(v as int),
                    None => None,
                }
            }
        } else {
            Some(bytes[0] as int)
        }
    }
}

/// The number that a token spells.
pub open spec fn number_of(text: Seq<char>) -> Result<int, Error> {
    match parsed_i32(text) {
        Some(v) => Ok(v as int),
        None => Err(Error::Constant),
    }
}

/// The immediate at a position: a number, a character literal, or the name
/// of a constant.
pub open spec fn imm_at(
    tokens: Seq<Token>,
    input: Seq<char>,
    pos: nat,
    constants: Map<Seq<char>, int>,
) -> Result<int, Error> {
    match token_at(tokens, pos) {
        Err(e) => Err(e),
        Ok(token) => if token is Integer {
            number_of(token.text(input))
        } else if token is Char {
            match char_value(token.text(input)) {
                Some(v) => Ok(v),
                None => Err(Error::Constant),
            }
        } else if token is Symbol {
            if constants.dom().contains(token.text(input)) {
                Ok(constants[token.text(input)])
            } else {
                Err(Error::Constant)
            }
        } else {
            Err(Error::Token)
        },
    }
}

/// An address: a base register and the distance from it.
pub struct Address {
    pub base: Register,
    pub offset: int,
    /// The position behind the address.
    pub next: nat,
}

/// The address at a position: a register alone, or a group of a sign, a
/// register and a number, the last two in either order.
pub open spec fn offset_at(tokens: Seq<Token>, input: Seq<char>, pos: nat) -> Result<
    Address,
    Error,
> {
    match token_at(tokens, pos) {
        Err(e) => Err(e),
        Ok(token) => if token is Symbol {
            match register_at(tokens, input, pos) {
                Err(e) => Err(e),
                Ok(base) => Ok(Address { base, offset: 0, next: pos + 1 }),
            }
        } else if token is LParen {
            match symbol_at(tokens, input, pos + 1) {
                Err(e) => Err(e),
                Ok(sign) => if sign != "+"@ && sign != "-"@ {
                    Err(Error::Token)
                } else {
                    match offset_parts(tokens, input, pos + 2) {
                        Err(e) => Err(e),
                        Ok((base, number)) => match closer_at(tokens, pos + 4) {
                            Err(e) => Err(e),
                            Ok(()) => Ok(
                                Address {
                                    base,
                                    offset: if sign == "-"@ {
                                        -number
                                    } else {
                                        number
                                    },
                                    next: pos + 5,
                                },
                            ),
                        },
                    }
                },
            }
        } else {
            Err(Error::Token)
        },
    }
}

/// The register and the number of an address, which stand at a position in
/// either order.
pub open spec fn offset_parts(tokens: Seq<Token>, input: Seq<char>, pos: nat) -> Result<
    (Register, int),
    Error,
> {
    match token_at(tokens, pos) {
        Err(e) => Err(e),
        Ok(first) => match token_at(tokens, pos + 1) {
            Err(e) => Err(e),
            Ok(second) => if first is Symbol && second is Integer {
                match register_at(tokens, input, pos) {
                    Err(e) => Err(e),
                    Ok(base) => match number_of(second.text(input)) {
                        Err(e) => Err(e),
                        Ok(number) => Ok((base, number)),
                    },
                }
            } else if first is Integer && second is Symbol {
                match register_at(tokens, input, pos + 1) {
                    Err(e) => Err(e),
                    Ok(base) => match number_of(first.text(input)) {
                        Err(e) => Err(e),
                        Ok(number) => Ok((base, number)),
                    },
                }
            } else {
                Err(Error::Token)
            },
        },
    }
}

/// The state after an instruction, and the position behind it.
pub struct Step {
    pub state: State,
    pub next: nat,
}

/// The state after an instruction on three registers.
pub open spec fn operate_register(
    state: State,
    op: RegisterOp,
    tokens: Seq<Token>,
    input: Seq<char>,
    pos: nat,
) -> Result<Step, Error> {
    match register_at(tokens, input, pos) {
        Err(e) => Err(e),
        Ok(rd) => match register_at(tokens, input, pos + 1) {
            Err(e) => Err(e),
            Ok(rs1) => match register_at(tokens, input, pos + 2) {
                Err(e) => Err(e),
                Ok(rs2) => match closer_at(tokens, pos + 3) {
                    Err(e) => Err(e),
                    Ok(()) => Ok(
                        Step { state: state.emit(register_word(op, rd, rs1, rs2)), next: pos + 4 },
                    ),
                },
            },
        },
    }
}

/// Two registers and an immediate at a position, with a closer behind them.
pub open spec fn two_registers_and_imm(
    state: State,
    tokens: Seq<Token>,
    input: Seq<char>,
    pos: nat,
) -> Result<(Register, Register, int), Error> {
    match register_at(tokens, input, pos) {
        Err(e) => Err(e),
        Ok(rd) => match register_at(tokens, input, pos + 1) {
            Err(e) => Err(e),
            Ok(rs1) => match imm_at(tokens, input, pos + 2, state.constants) {
                Err(e) => Err(e),
                Ok(imm) => match closer_at(tokens, pos + 3) {
                    Err(e) => Err(e),
                    Ok(()) => Ok((rd, rs1, imm)),
                },
            },
        },
    }
}

/// A register and an immediate at a position, with a closer behind them.
pub open spec fn register_and_imm(
    state: State,
    tokens: Seq<Token>,
    input: Seq<char>,
    pos: nat,
) -> Result<(Register, int), Error> {
    match register_at(tokens, input, pos) {
        Err(e) => Err(e),
        Ok(rd) => match imm_at(tokens, input, pos + 1, state.constants) {
            Err(e) => Err(e),
            Ok(imm) => match closer_at(tokens, pos + 2) {
                Err(e) => Err(e),
                Ok(()) => Ok((rd, imm)),
            },
        },
    }
}

/// A register and a name at a position, with a closer behind them.
pub open spec fn register_and_name(tokens: Seq<Token>, input: Seq<char>, pos: nat) -> Result<
    (Register, Seq<char>),
    Error,
> {
    match register_at(tokens, input, pos) {
        Err(e) => Err(e),
        Ok(rd) => match symbol_at(tokens, input, pos + 1) {
            Err(e) => Err(e),
            Ok(name) => match closer_at(tokens, pos + 2) {
                Err(e) => Err(e),
                Ok(()) => Ok((rd, name)),
            },
        },
    }
}

/// A register and an address at a position, with a closer behind them.
pub open spec fn register_and_offset(tokens: Seq<Token>, input: Seq<char>, pos: nat) -> Result<
    (Register, Address),
    Error,
> {
    match register_at(tokens, input, pos) {
        Err(e) => Err(e),
        Ok(rd) => match offset_at(tokens, input, pos + 1) {
            Err(e) => Err(e),
            Ok(address) => match closer_at(tokens, address.next) {
                Err(e) => Err(e),
                Ok(()) => Ok((rd, address)),
            },
        },
    }
}

/// An address and a register at a position, with a closer behind them.
pub open spec fn offset_and_register(tokens: Seq<Token>, input: Seq<char>, pos: nat) -> Result<
    (Address, Register),
    Error,
> {
    match offset_at(tokens, input, pos) {
        Err(e) => Err(e),
        Ok(address) => match register_at(tokens, input, address.next) {
            Err(e) => Err(e),
            Ok(rs2) => match closer_at(tokens, address.next + 1) {
                Err(e) => Err(e),
                Ok(()) => Ok((address, rs2)),
            },
        },
    }
}

/// The state after an operation on two registers and an immediate.
pub open spec fn operate_immediate(
    state: State,
    op: ImmediateOp,
    tokens: Seq<Token>,
    input: Seq<char>,
    pos: nat,
) -> Result<Step, Error> {
    match two_registers_and_imm(state, tokens, input, pos) {
        Err(e) => Err(e),
        Ok((rd, rs1, imm)) => if fits_immediate(imm) {
            Ok(Step { state: state.emit(immediate_word(op, rd, rs1, imm)), next: pos + 4 })
        } else {
            Err(Error::Range)
        },
    }
}

/// The state after `subi`: an `addi` of the opposite number.
pub open spec fn operate_subi(state: State, tokens: Seq<Token>, input: Seq<char>, pos: nat) -> Result<
    Step,
    Error,
> {
    match two_registers_and_imm(state, tokens, input, pos) {
        Err(e) => Err(e),
        Ok((rd, rs1, imm)) => if fits_immediate(-imm) {
            Ok(
                Step {
                    state: state.emit(immediate_word(ImmediateOp::Addi, rd, rs1, -imm)),
                    next: pos + 4,
                },
            )
        } else {
            Err(Error::Range)
        },
    }
}

/// The state after a shift by a constant amount.
pub open spec fn operate_shift(
    state: State,
    op: ShiftOp,
    tokens: Seq<Token>,
    input: Seq<char>,
    pos: nat,
) -> Result<Step, Error> {
    match two_registers_and_imm(state, tokens, input, pos) {
        Err(e) => Err(e),
        Ok((rd, rs1, imm)) => if 0 <= imm < 64 {
            Ok(Step { state: state.emit(shift_word(op, rd, rs1, imm)), next: pos + 4 })
        } else {
            Err(Error::Range)
        },
    }
}

/// The state after a load, or after `jalr` where `op` is `None`.
pub open spec fn operate_load(
    state: State,
    op: Option<LoadOp>,
    tokens: Seq<Token>,
    input: Seq<char>,
    pos: nat,
) -> Result<Step, Error> {
    match register_and_offset(tokens, input, pos) {
        Err(e) => Err(e),
        Ok((rd, address)) => if fits_immediate(address.offset) {
            Ok(
                Step {
                    state: state.emit(
                        match op {
                            Some(op) => load_word(op, rd, address.base, address.offset),
                            None => jalr_word(rd, address.base, address.offset),
                        },
                    ),
                    next: address.next + 1,
                },
            )
        } else {
            Err(Error::Range)
        },
    }
}

/// The state after a store.
pub open spec fn operate_store(
    state: State,
    op: StoreOp,
    tokens: Seq<Token>,
    input: Seq<char>,
    pos: nat,
) -> Result<Step, Error> {
    match offset_and_register(tokens, input, pos) {
        Err(e) => Err(e),
        Ok((address, rs2)) => if fits_immediate(address.offset) {
            Ok(
                Step {
                    state: state.emit(store_word(op, rs2, address.base, address.offset)),
                    next: address.next + 2,
                },
            )
        } else {
            Err(Error::Range)
        },
    }
}

/// The state after a branch.
pub open spec fn operate_branch(
    state: State,
    op: BranchOp,
    tokens: Seq<Token>,
    input: Seq<char>,
    pos: nat,
) -> Result<Step, Error> {
    match register_at(tokens, input, pos) {
        Err(e) => Err(e),
        Ok(rs1) => match register_and_name(tokens, input, pos + 1) {
            Err(e) => Err(e),
            Ok((rs2, label)) => Ok(
                Step {
                    state: State {
                        session: state.session.jump_word(label, branch_kind(op, rs1, rs2)),
                        ..state
                    },
                    next: pos + 4,
                },
            ),
        },
    }
}

/// The state after `jal`.
pub open spec fn operate_jal(state: State, tokens: Seq<Token>, input: Seq<char>, pos: nat) -> Result<
    Step,
    Error,
> {
    match register_and_name(tokens, input, pos) {
        Err(e) => Err(e),
        Ok((rd, label)) => Ok(
            Step {
                state: State { session: state.session.jump_word(label, jal_kind(rd)), ..state },
                next: pos + 3,
            },
        ),
    }
}

/// The state after `la`: the place of the two instructions that will hold
/// the address is recorded with the index of the piece of data, and the
/// instructions are emitted with the address zero.
pub open spec fn operate_la(state: State, tokens: Seq<Token>, input: Seq<char>, pos: nat) -> Result<
    Step,
    Error,
> {
    match register_and_name(tokens, input, pos) {
        Err(e) => Err(e),
        Ok((rd, name)) => if state.globals.dom().contains(name) {
            Ok(
                Step {
                    state: State {
                        rewrites: state.rewrites.insert(
                            state.session.code.len(),
                            state.globals[name],
                        ),
                        ..state
                    }.emit(lui_word(rd, 0)).emit(immediate_word(ImmediateOp::Addi, rd, rd, 0)),
                    next: pos + 3,
                },
            )
        } else {
            Err(Error::Global)
        },
    }
}

/// The state after `lui`, or after `auipc` where `pc` is set.
pub open spec fn operate_upper(
    state: State,
    pc: bool,
    tokens: Seq<Token>,
    input: Seq<char>,
    pos: nat,
) -> Result<Step, Error> {
    match register_and_imm(state, tokens, input, pos) {
        Err(e) => Err(e),
        Ok((rd, imm)) => if 0 <= imm < 0x10_0000 {
            Ok(
                Step {
                    state: state.emit(
                        if pc {
                            auipc_word(rd, imm as nat)
                        } else {
                            lui_word(rd, imm as nat)
                        },
                    ),
                    next: pos + 3,
                },
            )
        } else {
            Err(Error::Range)
        },
    }
}

/// The state after an instruction without operands.
pub open spec fn operate_plain(state: State, word: nat, tokens: Seq<Token>, pos: nat) -> Result<
    Step,
    Error,
> {
    match closer_at(tokens, pos) {
        Err(e) => Err(e),
        Ok(()) => Ok(Step { state: state.emit(word), next: pos + 1 }),
    }
}

/// The state after an instruction: its operands are read from left to
/// right, then the closer, then the immediate is checked against its field.
pub open spec fn operate(
    state: State,
    opcode: Opcode,
    tokens: Seq<Token>,
    input: Seq<char>,
    pos: nat,
) -> Result<Step, Error> {
    match opcode {
        Opcode::Register(op) => operate_register(state, op, tokens, input, pos),
        Opcode::Immediate(op) => operate_immediate(state, op, tokens, input, pos),
        Opcode::Subi => operate_subi(state, tokens, input, pos),
        Opcode::Shift(op) => operate_shift(state, op, tokens, input, pos),
        Opcode::Load(op) => operate_load(state, Some(op), tokens, input, pos),
        Opcode::Jalr => operate_load(state, None, tokens, input, pos),
        Opcode::Store(op) => operate_store(state, op, tokens, input, pos),
        Opcode::Branch(op) => operate_branch(state, op, tokens, input, pos),
        Opcode::Jal => operate_jal(state, tokens, input, pos),
        Opcode::La => operate_la(state, tokens, input, pos),
        Opcode::Lui => operate_upper(state, false, tokens, input, pos),
        Opcode::Auipc => operate_upper(state, true, tokens, input, pos),
        Opcode::Ecall => operate_plain(state, ECALL as nat, tokens, pos),
        Opcode::Ebreak => operate_plain(state, EBREAK as nat, tokens, pos),
    }
}

/// The state after a definition: a name, then a number or a character
/// literal, which becomes a constant, or a string literal, whose bytes
/// between the quotes become a piece of data.
pub open spec fn define(state: State, tokens: Seq<Token>, input: Seq<char>, pos: nat) -> Result<
    Step,
    Error,
> {
    match symbol_at(tokens, input, pos) {
        Err(e) => Err(e),
        Ok(name) => match token_at(tokens, pos + 1) {
            Err(e) => Err(e),
            Ok(value) => match defined(state, name, value, input) {
                Err(e) => Err(e),
                Ok(after) => match closer_at(tokens, pos + 2) {
                    Err(e) => Err(e),
                    Ok(()) => Ok(Step { state: after, next: pos + 3 }),
                },
            },
        },
    }
}

/// The state after `name` was defined as what the token `value` says.
pub open spec fn defined(state: State, name: Seq<char>, value: Token, input: Seq<char>) -> Result<
    State,
    Error,
> {
    let text = value.text(input);
    if value is Integer {
        match number_of(text) {
            Err(e) => Err(e),
            Ok(v) => Ok(State { constants: state.constants.insert(name, v), ..state }),
        }
    } else if value is Char {
        match char_value(text) {
            None => Err(Error::Constant),
            Some(v) => Ok(State { constants: state.constants.insert(name, v), ..state }),
        }
    } else if value is String {
        if text.len() < 2 {
            Err(Error::Token)
        } else {
            Ok(
                State {
                    globals: state.globals.insert(name, state.data.len()),
                    data: state.data.push(encode_utf8(text.subrange(1, text.len() - 1))),
                    ..state
                },
            )
        }
    } else {
        Err(Error::Token)
    }
}

/// The state after one item of the program: a name alone binds a label; a
/// group is a definition or an instruction.
#[verifier::opaque]
pub open spec fn item(state: State, tokens: Seq<Token>, input: Seq<char>, pos: nat) -> Result<
    Step,
    Error,
> {
    match token_at(tokens, pos) {
        Err(e) => Err(e),
        Ok(token) => if token is Symbol {
            Ok(
                Step {
                    state: State { session: state.session.define(token.text(input)), ..state },
                    next: pos + 1,
                },
            )
        } else if token is LParen {
            match symbol_at(tokens, input, pos + 1) {
                Err(e) => Err(e),
                Ok(head) => if head == "define"@ {
                    define(state, tokens, input, pos + 2)
                } else {
                    match Opcode::from_text(head) {
                        None => Err(Error::Opcode),
                        Some(opcode) => operate(state, opcode, tokens, input, pos + 2),
                    }
                },
            }
        } else {
            Err(Error::Token)
        },
    }
}

/// The state after the items from a position on, or the error of the first
/// item that gives one.
pub open spec fn run(state: State, tokens: Seq<Token>, input: Seq<char>, pos: nat) -> Result<
    State,
    Error,
>
    decreases tokens.len() - pos,
{
    if pos >= tokens.len() {
        Ok(state)
    } else {
        match item(state, tokens, input, pos) {
            Err(e) => Err(e),
            Ok(step) => if pos < step.next <= tokens.len() {
                run(step.state, tokens, input, step.next)
            } else {
                Ok(step.state)
            },
        }
    }
}

/// An item moves the position forward.
pub proof fn lemma_item_advances(state: State, tokens: Seq<Token>, input: Seq<char>, pos: nat)
    ensures
        item(state, tokens, input, pos) is Ok ==> pos < item(
            state,
            tokens,
            input,
            pos,
        )->Ok_0.next <= tokens.len(),
{
    reveal(item);
}

/// The bytes of each piece of data.
pub open spec fn blobs(data: Seq<Vec<u8>>) -> Seq<Seq<u8>> {
    Seq::new(data.len(), |i: int| data[i]@)
}

/// The places that wait for an address, as plain numbers.
pub open spec fn places(rewrites: Map<usize, usize>) -> Map<nat, nat> {
    Map::new(
        |offset: nat| offset <= usize::MAX && rewrites.dom().contains(offset as usize),
        |offset: nat| rewrites[offset as usize] as nat,
    )
}

/// What the driver has gathered.
struct Work {
    assembler: Assembler,
    data: Vec<Vec<u8>>,
    rewrites: HashMap<usize, usize>,
    constants: Table<i32>,
    globals: Table<usize>,
}

impl View for Work {
    type V = State;

    closed spec fn view(&self) -> State {
        State {
            session: self.assembler@,
            data: blobs(self.data@),
            rewrites: places(self.rewrites@),
            constants: self.constants@.map_values(|v: i32| v as int),
            globals: self.globals@.map_values(|v: usize| v as nat),
        }
    }
}

/// What the driver hands out: the code, the pieces of data, and a map from
/// the offset of each place in the code that waits for the address of a
/// piece of data to the index of the piece.
pub struct Assembly {
    pub code: Vec<u8>,
    pub data: Vec<Vec<u8>>,
    pub rewrites: HashMap<usize, usize>,
}

/// An address as the driver reads it.
struct Place {
    base: Register,
    offset: i64,
    next: usize,
}

impl Place {
    spec fn view(self) -> Address {
        Address { base: self.base, offset: self.offset as int, next: self.next as nat }
    }
}

fn read_token(tokens: &Vec<Token>, pos: usize) -> (r: Result<Token, Error>)
    ensures
        tokens@.len() <= usize::MAX,
        r == token_at(tokens@, pos as nat),
        r is Ok ==> pos < tokens@.len(),
{
    if pos < tokens.len() {
        Ok(tokens[pos])
    } else {
        Err(Error::EndOfInput)
    }
}

fn read_symbol<'a>(tokens: &Vec<Token>, input: &'a str, pos: usize) -> (r: Result<&'a str, Error>)
    requires
        all_fit(tokens@, input@.len()),
    ensures
        tokens@.len() <= usize::MAX,
        r is Ok <==> symbol_at(tokens@, input@, pos as nat) is Ok,
        r is Ok ==> r->Ok_0@ == symbol_at(tokens@, input@, pos as nat)->Ok_0,
        r is Err ==> r->Err_0 == symbol_at(tokens@, input@, pos as nat)->Err_0,
        r is Ok ==> pos < tokens@.len(),
{
    match read_token(tokens, pos) {
        Err(e) => Err(e),
        Ok(token) => if token.is_symbol() {
            Ok(token.as_str(input))
        } else {
            Err(Error::Token)
        },
    }
}

fn read_register(tokens: &Vec<Token>, input: &str, pos: usize) -> (r: Result<Register, Error>)
    requires
        all_fit(tokens@, input@.len()),
    ensures
        tokens@.len() <= usize::MAX,
        r == register_at(tokens@, input@, pos as nat),
        r is Ok ==> pos < tokens@.len(),
{
    match read_symbol(tokens, input, pos) {
        Err(e) => Err(e),
        Ok(text) => match Register::from_str(text) {
            Some(register) => Ok(register),
            None => Err(Error::Register),
        },
    }
}

fn read_closer(tokens: &Vec<Token>, pos: usize) -> (r: Result<(), Error>)
    ensures
        tokens@.len() <= usize::MAX,
        r == closer_at(tokens@, pos as nat),
        r is Ok ==> pos < tokens@.len(),
{
    match read_token(tokens, pos) {
        Err(e) => Err(e),
        Ok(token) => if token.closerp() {
            Ok(())
        } else {
            Err(Error::Token)
        },
    }
}

fn escape(byte: u8) -> (r: Option<u8>)
    ensures
        r == escaped(byte),
{
    if byte == 0x5c || byte == 0x27 || byte == 0x22 {
        Some(byte)
    } else if byte == 0x72 {
        Some(0x0d)
    } else if byte == 0x6e {
        Some(0x0a)
    } else if byte == 0x74 {
        Some(0x09)
    } else if byte == 0x30 {
        Some(0x00)
    } else {
        None
    }
}

fn read_char_value(text: &str) -> (r: Option<i32>)
    ensures
        r is Some <==> char_value(text@) is Some,
        r is Some ==> r->0 == char_value(text@)->0,
{
    let len = text.unicode_len();
    if len < 4 {
        return None;
    }
    let bytes = text.substring_char(2, len - 1).as_bytes_vec();
    if bytes.len() == 0 {
        None
    } else if bytes[0] == 0x5c {
        if bytes.len() < 2 {
            None
        } else {
            match escape(bytes[1]) {
                Some(v) => Some(v as i32),
                None => None,
            }
        }
    } else {
        Some(bytes[0] as i32)
    }
}

fn read_number(text: &str) -> (r: Result<i32, Error>)
    ensures
        r is Ok <==> number_of(text@) is Ok,
        r is Ok ==> r->Ok_0 == number_of(text@)->Ok_0,
        r is Err ==> r->Err_0 == number_of(text@)->Err_0,
{
    match parse_i32(text) {
        Ok(v) => Ok(v),
        Err(_) => Err(Error::Constant),
    }
}

fn read_imm(work: &Work, tokens: &Vec<Token>, input: &str, pos: usize) -> (r: Result<i32, Error>)
    requires
        all_fit(tokens@, input@.len()),
    ensures
        tokens@.len() <= usize::MAX,
        r is Ok <==> imm_at(tokens@, input@, pos as nat, work@.constants) is Ok,
        r is Ok ==> r->Ok_0 == imm_at(tokens@, input@, pos as nat, work@.constants)->Ok_0,
        r is Err ==> r->Err_0 == imm_at(tokens@, input@, pos as nat, work@.constants)->Err_0,
        r is Ok ==> pos < tokens@.len(),
{
    match read_token(tokens, pos) {
        Err(e) => Err(e),
        Ok(token) => if token.is_integer() {
            read_number(token.as_str(input))
        } else if token.is_char() {
            match read_char_value(token.as_str(input)) {
                Some(v) => Ok(v),
                None => Err(Error::Constant),
            }
        } else if token.is_symbol() {
            match work.constants.get(&token.as_str(input).to_owned()) {
                Some(v) => Ok(v),
                None => Err(Error::Constant),
            }
        } else {
            Err(Error::Token)
        },
    }
}

fn read_offset_parts(tokens: &Vec<Token>, input: &str, pos: usize) -> (r: Result<
    (Register, i32),
    Error,
>)
    requires
        all_fit(tokens@, input@.len()),
    ensures
        tokens@.len() <= usize::MAX,
        r is Ok <==> offset_parts(tokens@, input@, pos as nat) is Ok,
        r is Ok ==> r->Ok_0.0 == offset_parts(tokens@, input@, pos as nat)->Ok_0.0 && r->Ok_0.1
            == offset_parts(tokens@, input@, pos as nat)->Ok_0.1,
        r is Err ==> r->Err_0 == offset_parts(tokens@, input@, pos as nat)->Err_0,
        r is Ok ==> pos + 1 < tokens@.len(),
{
    let first = match read_token(tokens, pos) {
        Err(e) => {
            return Err(e);
        },
        Ok(first) => first,
    };
    let second = match read_token(tokens, pos + 1) {
        Err(e) => {
            return Err(e);
        },
        Ok(second) => second,
    };
    if first.is_symbol() && second.is_integer() {
        let base = match read_register(tokens, input, pos) {
            Err(e) => {
                return Err(e);
            },
            Ok(base) => base,
        };
        match read_number(second.as_str(input)) {
            Err(e) => Err(e),
            Ok(number) => Ok((base, number)),
        }
    } else if first.is_integer() && second.is_symbol() {
        let base = match read_register(tokens, input, pos + 1) {
            Err(e) => {
                return Err(e);
            },
            Ok(base) => base,
        };
        match read_number(first.as_str(input)) {
            Err(e) => Err(e),
            Ok(number) => Ok((base, number)),
        }
    } else {
        Err(Error::Token)
    }
}

fn read_offset(tokens: &Vec<Token>, input: &str, pos: usize) -> (r: Result<Place, Error>)
    requires
        all_fit(tokens@, input@.len()),
    ensures
        tokens@.len() <= usize::MAX,
        r is Ok <==> offset_at(tokens@, input@, pos as nat) is Ok,
        r is Ok ==> r->Ok_0.view() == offset_at(tokens@, input@, pos as nat)->Ok_0,
        r is Err ==> r->Err_0 == offset_at(tokens@, input@, pos as nat)->Err_0,
        r is Ok ==> pos < r->Ok_0.next <= tokens@.len(),
{
    let token = match read_token(tokens, pos) {
        Err(e) => {
            return Err(e);
        },
        Ok(token) => token,
    };
    if token.is_symbol() {
        match read_register(tokens, input, pos) {
            Err(e) => Err(e),
            Ok(base) => Ok(Place { base, offset: 0, next: pos + 1 }),
        }
    } else if matches!(token, Token::LParen(_)) {
        let sign = match read_symbol(tokens, input, pos + 1) {
            Err(e) => {
                return Err(e);
            },
            Ok(sign) => sign,
        };
        let negative = same_text(sign, "-");
        if !negative && !same_text(sign, "+") {
            return Err(Error::Token);
        }
        let (base, number) = match read_offset_parts(tokens, input, pos + 2) {
            Err(e) => {
                return Err(e);
            },
            Ok(parts) => parts,
        };
        match read_closer(tokens, pos + 4) {
            Err(e) => Err(e),
            Ok(()) => {
                let offset: i64 = if negative {
                    -(number as i64)
                } else {
                    number as i64
                };
                Ok(Place { base, offset, next: pos + 5 })
            },
        }
    } else {
        Err(Error::Token)
    }
}

/// Whether the number fits the 12-bit immediate field.
fn in_immediate_range(v: i64) -> (r: bool)
    ensures
        r == fits_immediate(v as int),
{
    -2048 <= v && v <= 2047
}

fn read_two_registers_and_imm(work: &Work, tokens: &Vec<Token>, input: &str, pos: usize) -> (r:
    Result<(Register, Register, i32), Error>)
    requires
        all_fit(tokens@, input@.len()),
    ensures
        tokens@.len() <= usize::MAX,
        r is Ok <==> two_registers_and_imm(work@, tokens@, input@, pos as nat) is Ok,
        r is Ok ==> {
            let spec = two_registers_and_imm(work@, tokens@, input@, pos as nat)->Ok_0;
            r->Ok_0.0 == spec.0 && r->Ok_0.1 == spec.1 && r->Ok_0.2 == spec.2
        },
        r is Err ==> r->Err_0 == two_registers_and_imm(
            work@,
            tokens@,
            input@,
            pos as nat,
        )->Err_0,
        r is Ok ==> pos + 3 < tokens@.len(),
{
    let rd = match read_register(tokens, input, pos) {
        Err(e) => {
            return Err(e);
        },
        Ok(rd) => rd,
    };
    let rs1 = match read_register(tokens, input, pos + 1) {
        Err(e) => {
            return Err(e);
        },
        Ok(rs1) => rs1,
    };
    let imm = match read_imm(work, tokens, input, pos + 2) {
        Err(e) => {
            return Err(e);
        },
        Ok(imm) => imm,
    };
    match read_closer(tokens, pos + 3) {
        Err(e) => Err(e),
        Ok(()) => Ok((rd, rs1, imm)),
    }
}

fn read_register_and_imm(work: &Work, tokens: &Vec<Token>, input: &str, pos: usize) -> (r: Result<
    (Register, i32),
    Error,
>)
    requires
        all_fit(tokens@, input@.len()),
    ensures
        tokens@.len() <= usize::MAX,
        r is Ok <==> register_and_imm(work@, tokens@, input@, pos as nat) is Ok,
        r is Ok ==> {
            let spec = register_and_imm(work@, tokens@, input@, pos as nat)->Ok_0;
            r->Ok_0.0 == spec.0 && r->Ok_0.1 == spec.1
        },
        r is Err ==> r->Err_0 == register_and_imm(work@, tokens@, input@, pos as nat)->Err_0,
        r is Ok ==> pos + 2 < tokens@.len(),
{
    let rd = match read_register(tokens, input, pos) {
        Err(e) => {
            return Err(e);
        },
        Ok(rd) => rd,
    };
    let imm = match read_imm(work, tokens, input, pos + 1) {
        Err(e) => {
            return Err(e);
        },
        Ok(imm) => imm,
    };
    match read_closer(tokens, pos + 2) {
        Err(e) => Err(e),
        Ok(()) => Ok((rd, imm)),
    }
}

fn read_register_and_name<'a>(tokens: &Vec<Token>, input: &'a str, pos: usize) -> (r: Result<
    (Register, &'a str),
    Error,
>)
    requires
        all_fit(tokens@, input@.len()),
    ensures
        tokens@.len() <= usize::MAX,
        r is Ok <==> register_and_name(tokens@, input@, pos as nat) is Ok,
        r is Ok ==> {
            let spec = register_and_name(tokens@, input@, pos as nat)->Ok_0;
            r->Ok_0.0 == spec.0 && r->Ok_0.1@ == spec.1
        },
        r is Err ==> r->Err_0 == register_and_name(tokens@, input@, pos as nat)->Err_0,
        r is Ok ==> pos + 2 < tokens@.len(),
{
    let rd = match read_register(tokens, input, pos) {
        Err(e) => {
            return Err(e);
        },
        Ok(rd) => rd,
    };
    let name = match read_symbol(tokens, input, pos + 1) {
        Err(e) => {
            return Err(e);
        },
        Ok(name) => name,
    };
    match read_closer(tokens, pos + 2) {
        Err(e) => Err(e),
        Ok(()) => Ok((rd, name)),
    }
}

fn read_register_and_offset(tokens: &Vec<Token>, input: &str, pos: usize) -> (r: Result<
    (Register, Place),
    Error,
>)
    requires
        all_fit(tokens@, input@.len()),
    ensures
        tokens@.len() <= usize::MAX,
        r is Ok <==> register_and_offset(tokens@, input@, pos as nat) is Ok,
        r is Ok ==> {
            let spec = register_and_offset(tokens@, input@, pos as nat)->Ok_0;
            r->Ok_0.0 == spec.0 && r->Ok_0.1.view() == spec.1
        },
        r is Err ==> r->Err_0 == register_and_offset(tokens@, input@, pos as nat)->Err_0,
        r is Ok ==> pos < r->Ok_0.1.next < tokens@.len(),
{
    let rd = match read_register(tokens, input, pos) {
        Err(e) => {
            return Err(e);
        },
        Ok(rd) => rd,
    };
    let place = match read_offset(tokens, input, pos + 1) {
        Err(e) => {
            return Err(e);
        },
        Ok(place) => place,
    };
    match read_closer(tokens, place.next) {
        Err(e) => Err(e),
        Ok(()) => Ok((rd, place)),
    }
}

fn read_offset_and_register(tokens: &Vec<Token>, input: &str, pos: usize) -> (r: Result<
    (Place, Register),
    Error,
>)
    requires
        all_fit(tokens@, input@.len()),
    ensures
        tokens@.len() <= usize::MAX,
        r is Ok <==> offset_and_register(tokens@, input@, pos as nat) is Ok,
        r is Ok ==> {
            let spec = offset_and_register(tokens@, input@, pos as nat)->Ok_0;
            r->Ok_0.0.view() == spec.0 && r->Ok_0.1 == spec.1
        },
        r is Err ==> r->Err_0 == offset_and_register(tokens@, input@, pos as nat)->Err_0,
        r is Ok ==> pos < r->Ok_0.0.next && r->Ok_0.0.next + 1 < tokens@.len(),
{
    let place = match read_offset(tokens, input, pos) {
        Err(e) => {
            return Err(e);
        },
        Ok(place) => place,
    };
    let rs2 = match read_register(tokens, input, place.next) {
        Err(e) => {
            return Err(e);
        },
        Ok(rs2) => rs2,
    };
    match read_closer(tokens, place.next + 1) {
        Err(e) => Err(e),
        Ok(()) => Ok((place, rs2)),
    }
}

/// Whether the driver did what `outcome` says: on a step, it is in the state
/// after the step and reports the next position; on an error, it is
/// unchanged and reports the error.
spec fn stepped(
    outcome: Result<Step, Error>,
    before: State,
    after: State,
    result: Result<usize, Error>,
) -> bool {
    match outcome {
        Ok(step) => result == Ok::<usize, Error>(step.next as usize) && step.next
            <= usize::MAX && after == step.state,
        Err(e) => result == Err::<usize, Error>(e) && after == before,
    }
}

fn do_register(work: &mut Work, op: RegisterOp, tokens: &Vec<Token>, input: &str, pos: usize) -> (r: Result<
    usize,
    Error,
>)
    requires
        all_fit(tokens@, input@.len()),
    ensures
        stepped(operate_register(old(work)@, op, tokens@, input@, pos as nat), old(work)@, final(work)@, r),
        r is Ok ==> pos < r->Ok_0 <= tokens@.len(),
{
    let rd = match read_register(tokens, input, pos) {
        Err(e) => {
            return Err(e);
        },
        Ok(rd) => rd,
    };
    let rs1 = match read_register(tokens, input, pos + 1) {
        Err(e) => {
            return Err(e);
        },
        Ok(rs1) => rs1,
    };
    let rs2 = match read_register(tokens, input, pos + 2) {
        Err(e) => {
            return Err(e);
        },
        Ok(rs2) => rs2,
    };
    match read_closer(tokens, pos + 3) {
        Err(e) => Err(e),
        Ok(()) => {
            work.assembler.register_op(op, rd, rs1, rs2);
            Ok(pos + 4)
        },
    }
}

fn do_immediate(work: &mut Work, op: ImmediateOp, tokens: &Vec<Token>, input: &str, pos: usize) -> (r: Result<
    usize,
    Error,
>)
    requires
        all_fit(tokens@, input@.len()),
    ensures
        stepped(operate_immediate(old(work)@, op, tokens@, input@, pos as nat), old(work)@, final(work)@, r),
        r is Ok ==> pos < r->Ok_0 <= tokens@.len(),
{
    match read_two_registers_and_imm(work, tokens, input, pos) {
        Err(e) => Err(e),
        Ok((rd, rs1, imm)) => {
            if !in_immediate_range(imm as i64) {
                return Err(Error::Range);
            }
            work.assembler.immediate_op(op, rd, rs1, imm);
            Ok(pos + 4)
        },
    }
}

fn do_subi(work: &mut Work, tokens: &Vec<Token>, input: &str, pos: usize) -> (r: Result<
    usize,
    Error,
>)
    requires
        all_fit(tokens@, input@.len()),
    ensures
        stepped(operate_subi(old(work)@, tokens@, input@, pos as nat), old(work)@, final(work)@, r),
        r is Ok ==> pos < r->Ok_0 <= tokens@.len(),
{
    match read_two_registers_and_imm(work, tokens, input, pos) {
        Err(e) => Err(e),
        Ok((rd, rs1, imm)) => {
            let negated: i64 = -(imm as i64);
            if !in_immediate_range(negated) {
                return Err(Error::Range);
            }
            work.assembler.immediate_op(ImmediateOp::Addi, rd, rs1, negated as i32);
            Ok(pos + 4)
        },
    }
}

fn do_shift(work: &mut Work, op: ShiftOp, tokens: &Vec<Token>, input: &str, pos: usize) -> (r: Result<
    usize,
    Error,
>)
    requires
        all_fit(tokens@, input@.len()),
    ensures
        stepped(operate_shift(old(work)@, op, tokens@, input@, pos as nat), old(work)@, final(work)@, r),
        r is Ok ==> pos < r->Ok_0 <= tokens@.len(),
{
    match read_two_registers_and_imm(work, tokens, input, pos) {
        Err(e) => Err(e),
        Ok((rd, rs1, imm)) => {
            if !(0 <= imm && imm < 64) {
                return Err(Error::Range);
            }
            work.assembler.shift_op(op, rd, rs1, imm as u8);
            Ok(pos + 4)
        },
    }
}

fn do_load(work: &mut Work, op: Option<LoadOp>, tokens: &Vec<Token>, input: &str, pos: usize) -> (r: Result<
    usize,
    Error,
>)
    requires
        all_fit(tokens@, input@.len()),
    ensures
        stepped(operate_load(old(work)@, op, tokens@, input@, pos as nat), old(work)@, final(work)@, r),
        r is Ok ==> pos < r->Ok_0 <= tokens@.len(),
{
    match read_register_and_offset(tokens, input, pos) {
        Err(e) => Err(e),
        Ok((rd, place)) => {
            if !in_immediate_range(place.offset) {
                return Err(Error::Range);
            }
            match op {
                Some(op) => work.assembler.load(op, rd, place.base, place.offset as i32),
                None => work.assembler.jalr(rd, place.base, place.offset as i32),
            }
            Ok(place.next + 1)
        },
    }
}

fn do_store(work: &mut Work, op: StoreOp, tokens: &Vec<Token>, input: &str, pos: usize) -> (r: Result<
    usize,
    Error,
>)
    requires
        all_fit(tokens@, input@.len()),
    ensures
        stepped(operate_store(old(work)@, op, tokens@, input@, pos as nat), old(work)@, final(work)@, r),
        r is Ok ==> pos < r->Ok_0 <= tokens@.len(),
{
    match read_offset_and_register(tokens, input, pos) {
        Err(e) => Err(e),
        Ok((place, rs2)) => {
            if !in_immediate_range(place.offset) {
                return Err(Error::Range);
            }
            work.assembler.store(op, rs2, place.base, place.offset as i32);
            Ok(place.next + 2)
        },
    }
}

fn do_branch(work: &mut Work, op: BranchOp, tokens: &Vec<Token>, input: &str, pos: usize) -> (r: Result<
    usize,
    Error,
>)
    requires
        all_fit(tokens@, input@.len()),
    ensures
        stepped(operate_branch(old(work)@, op, tokens@, input@, pos as nat), old(work)@, final(work)@, r),
        r is Ok ==> pos < r->Ok_0 <= tokens@.len(),
{
    let rs1 = match read_register(tokens, input, pos) {
        Err(e) => {
            return Err(e);
        },
        Ok(rs1) => rs1,
    };
    match read_register_and_name(tokens, input, pos + 1) {
        Err(e) => Err(e),
        Ok((rs2, label)) => {
            work.assembler.branch(op, rs1, rs2, label);
            Ok(pos + 4)
        },
    }
}

fn do_jal(work: &mut Work, tokens: &Vec<Token>, input: &str, pos: usize) -> (r: Result<
    usize,
    Error,
>)
    requires
        all_fit(tokens@, input@.len()),
    ensures
        stepped(operate_jal(old(work)@, tokens@, input@, pos as nat), old(work)@, final(work)@, r),
        r is Ok ==> pos < r->Ok_0 <= tokens@.len(),
{
    match read_register_and_name(tokens, input, pos) {
        Err(e) => Err(e),
        Ok((rd, label)) => {
            work.assembler.jal(rd, label);
            Ok(pos + 3)
        },
    }
}

fn do_la(work: &mut Work, tokens: &Vec<Token>, input: &str, pos: usize) -> (r: Result<
    usize,
    Error,
>)
    requires
        all_fit(tokens@, input@.len()),
    ensures
        stepped(operate_la(old(work)@, tokens@, input@, pos as nat), old(work)@, final(work)@, r),
        r is Ok ==> pos < r->Ok_0 <= tokens@.len(),
{
    match read_register_and_name(tokens, input, pos) {
        Err(e) => Err(e),
        Ok((rd, name)) => {
            let index = match work.globals.get(&name.to_owned()) {
                Some(index) => index,
                None => {
                    return Err(Error::Global);
                },
            };
            let offset = work.assembler.len();
            assert(places(work.rewrites@.insert(offset, index)) =~= places(work.rewrites@).insert(
                offset as nat,
                index as nat,
            ));
            work.rewrites.insert(offset, index);
            work.assembler.lui(rd, 0);
            work.assembler.immediate_op(ImmediateOp::Addi, rd, rd, 0);
            Ok(pos + 3)
        },
    }
}

fn do_upper(work: &mut Work, pc: bool, tokens: &Vec<Token>, input: &str, pos: usize) -> (r: Result<
    usize,
    Error,
>)
    requires
        all_fit(tokens@, input@.len()),
    ensures
        stepped(operate_upper(old(work)@, pc, tokens@, input@, pos as nat), old(work)@, final(work)@, r),
        r is Ok ==> pos < r->Ok_0 <= tokens@.len(),
{
    match read_register_and_imm(work, tokens, input, pos) {
        Err(e) => Err(e),
        Ok((rd, imm)) => {
            if !(0 <= imm && imm < 0x10_0000) {
                return Err(Error::Range);
            }
            if pc {
                work.assembler.auipc(rd, imm as u32);
            } else {
                work.assembler.lui(rd, imm as u32);
            }
            Ok(pos + 3)
        },
    }
}

fn do_plain(work: &mut Work, word: u32, tokens: &Vec<Token>, pos: usize) -> (r: Result<
    usize,
    Error,
>)
    ensures
        stepped(
            operate_plain(old(work)@, word as nat, tokens@, pos as nat),
            old(work)@,
            final(work)@,
            r,
        ),
        r is Ok ==> pos < r->Ok_0 <= tokens@.len(),
{
    match read_closer(tokens, pos) {
        Err(e) => Err(e),
        Ok(()) => {
            work.assembler.emit_word(word);
            Ok(pos + 1)
        },
    }
}

fn do_operate(work: &mut Work, opcode: Opcode, tokens: &Vec<Token>, input: &str, pos: usize) -> (r:
    Result<usize, Error>)
    requires
        all_fit(tokens@, input@.len()),
    ensures
        stepped(operate(old(work)@, opcode, tokens@, input@, pos as nat), old(work)@, final(work)@, r),
        r is Ok ==> pos < r->Ok_0 <= tokens@.len(),
{
    match opcode {
        Opcode::Register(op) => do_register(work, op, tokens, input, pos),
        Opcode::Immediate(op) => do_immediate(work, op, tokens, input, pos),
        Opcode::Subi => do_subi(work, tokens, input, pos),
        Opcode::Shift(op) => do_shift(work, op, tokens, input, pos),
        Opcode::Load(op) => do_load(work, Some(op), tokens, input, pos),
        Opcode::Jalr => do_load(work, None, tokens, input, pos),
        Opcode::Store(op) => do_store(work, op, tokens, input, pos),
        Opcode::Branch(op) => do_branch(work, op, tokens, input, pos),
        Opcode::Jal => do_jal(work, tokens, input, pos),
        Opcode::La => do_la(work, tokens, input, pos),
        Opcode::Lui => do_upper(work, false, tokens, input, pos),
        Opcode::Auipc => do_upper(work, true, tokens, input, pos),
        Opcode::Ecall => do_plain(work, ECALL, tokens, pos),
        Opcode::Ebreak => do_plain(work, EBREAK, tokens, pos),
    }
}

fn do_define(work: &mut Work, tokens: &Vec<Token>, input: &str, pos: usize) -> (r: Result<
    usize,
    Error,
>)
    requires
        all_fit(tokens@, input@.len()),
    ensures
        tokens@.len() <= usize::MAX,
        stepped(define(old(work)@, tokens@, input@, pos as nat), old(work)@, final(work)@, r),
        r is Ok ==> pos < r->Ok_0 <= tokens@.len(),
{
    let name = match read_symbol(tokens, input, pos) {
        Err(e) => {
            return Err(e);
        },
        Ok(name) => name,
    };
    let value = match read_token(tokens, pos + 1) {
        Err(e) => {
            return Err(e);
        },
        Ok(value) => value,
    };
    let text = value.as_str(input);
    // The definition takes effect only if a closer follows it.
    let closed = read_closer(tokens, pos + 2);
    if value.is_integer() {
        let number = match read_number(text) {
            Err(e) => {
                return Err(e);
            },
            Ok(number) => number,
        };
        match closed {
            Err(e) => Err(e),
            Ok(()) => {
                work.constants.insert(name.to_owned(), number);
                assert(work.constants@.map_values(|v: i32| v as int) =~= old(
                    work,
                )@.constants.insert(name@, number as int));
                Ok(pos + 3)
            },
        }
    } else if value.is_char() {
        let number = match read_char_value(text) {
            None => {
                return Err(Error::Constant);
            },
            Some(number) => number,
        };
        match closed {
            Err(e) => Err(e),
            Ok(()) => {
                work.constants.insert(name.to_owned(), number);
                assert(work.constants@.map_values(|v: i32| v as int) =~= old(
                    work,
                )@.constants.insert(name@, number as int));
                Ok(pos + 3)
            },
        }
    } else if value.is_string() {
        let len = text.unicode_len();
        if len < 2 {
            return Err(Error::Token);
        }
        match closed {
            Err(e) => Err(e),
            Ok(()) => {
                let blob = text.substring_char(1, len - 1).as_bytes_vec();
                let index = work.data.len();
                work.globals.insert(name.to_owned(), index);
                assert(work.globals@.map_values(|v: usize| v as nat) =~= old(
                    work,
                )@.globals.insert(name@, index as nat));
                assert(blobs(work.data@.push(blob)) =~= blobs(work.data@).push(blob@));
                work.data.push(blob);
                Ok(pos + 3)
            },
        }
    } else {
        Err(Error::Token)
    }
}

fn do_item(work: &mut Work, tokens: &Vec<Token>, input: &str, pos: usize) -> (r: Result<
    usize,
    Error,
>)
    requires
        all_fit(tokens@, input@.len()),
    ensures
        tokens@.len() <= usize::MAX,
        stepped(item(old(work)@, tokens@, input@, pos as nat), old(work)@, final(work)@, r),
        r is Ok ==> pos < r->Ok_0 <= tokens@.len(),
{
    reveal(item);
    let token = match read_token(tokens, pos) {
        Err(e) => {
            return Err(e);
        },
        Ok(token) => token,
    };
    if token.is_symbol() {
        work.assembler.label(token.as_str(input));
        Ok(pos + 1)
    } else if matches!(token, Token::LParen(_)) {
        let head = match read_symbol(tokens, input, pos + 1) {
            Err(e) => {
                return Err(e);
            },
            Ok(head) => head,
        };
        if same_text(head, "define") {
            do_define(work, tokens, input, pos + 2)
        } else {
            match Opcode::from_str(head) {
                None => Err(Error::Opcode),
                Some(opcode) => do_operate(work, opcode, tokens, input, pos + 2),
            }
        }
    } else {
        Err(Error::Token)
    }
}

/// Whether `result` is what assembling the tokens gives: the error of the
/// first item that has one; else the error of the first jump that cannot be
/// patched; else the finished code with the data and the places that wait
/// for an address.
pub open spec fn assembled(
    tokens: Seq<Token>,
    input: Seq<char>,
    result: Result<Assembly, Error>,
) -> bool {
    match run(State::empty(), significant(tokens), input, 0) {
        Err(e) => result is Err && result->Err_0 == e,
        Ok(state) => match state.session.failure() {
            Some(e) => result is Err && result->Err_0 == Error::of_patch(e),
            None => {
                &&& result is Ok
                &&& state.session.wf()
                &&& state.session.finishes_to(result->Ok_0.code@)
                &&& blobs(result->Ok_0.data@) == state.data
                &&& places(result->Ok_0.rewrites@) == state.rewrites
            },
        },
    }
}

/// Assembles a token stream: binds its labels, takes its definitions,
/// encodes its instructions, patches its branches and jumps, and hands out
/// the code with the data. Comments are skipped.
pub fn assemble(tokens: Vec<Token>, input: &str) -> (r: Result<Assembly, Error>)
    requires
        all_fit(tokens@, input@.len()),
    ensures
        assembled(tokens@, input@, r),
{
    let items = without_comments(tokens.as_slice());
    let mut work = Work {
        assembler: Assembler::new(),
        data: Vec::new(),
        rewrites: HashMap::new(),
        constants: Table::new(),
        globals: Table::new(),
    };
    proof {
        assert(blobs(work.data@) =~= Seq::<Seq<u8>>::empty());
        assert(places(work.rewrites@) =~= Map::<nat, nat>::empty());
        assert(work.constants@.map_values(|v: i32| v as int) =~= Map::<Seq<char>, int>::empty());
        assert(work.globals@.map_values(|v: usize| v as nat) =~= Map::<Seq<char>, nat>::empty());
    }
    let mut pos: usize = 0;
    while pos < items.len()
        invariant
            pos <= items@.len(),
            items@ == significant(tokens@),
            all_fit(items@, input@.len()),
            run(State::empty(), items@, input@, 0) == run(work@, items@, input@, pos as nat),
        decreases items@.len() - pos,
    {
        match do_item(&mut work, &items, input, pos) {
            Err(e) => {
                return Err(e);
            },
            Ok(next) => {
                pos = next;
            },
        }
    }
    let Work { assembler, data, rewrites, constants, globals } = work;
    match assembler.try_finish() {
        Ok(code) => {
            proof {
                assembler@.lemma_no_failure_is_resolvable();
            }
            Ok(Assembly { code, data, rewrites })
        },
        Err(PatchError::UnknownLabel) => Err(Error::Label),
        Err(PatchError::OutOfRange) => Err(Error::Range),
    }
}

} // verus!
