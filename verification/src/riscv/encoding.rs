//! The instruction formats of RISC-V: how the fields of an instruction are
//! packed into its 32-bit word.

use crate::riscv::register::Register;
use vstd::prelude::*;

verus! {

/// The opcode of the operations on two registers.
pub const OP: u8 = 0x33;

/// The opcode of the operations on a register and an immediate.
pub const OP_IMM: u8 = 0x13;

/// The opcode of the loads.
pub const LOAD: u8 = 0x03;

/// The opcode of the stores.
pub const STORE: u8 = 0x23;

/// The opcode of the conditional branches.
pub const BRANCH: u8 = 0x63;

/// The opcode of `jal`.
pub const JAL: u8 = 0x6f;

/// The opcode of `jalr`.
pub const JALR: u8 = 0x67;

/// The opcode of `lui`.
pub const LUI: u8 = 0x37;

/// The opcode of `auipc`.
pub const AUIPC: u8 = 0x17;

/// The word of `ecall`.
pub const ECALL: u32 = 0x0000_0073;

/// The word of `ebreak`.
pub const EBREAK: u32 = 0x0010_0073;

/// An operation on two registers.
#[derive(Clone, Copy, Debug, PartialEq, Eq, Structural)]
pub enum RegisterOp {
    Add,
    Sub,
    Xor,
    Or,
    And,
    Sll,
    Srl,
    Sra,
    Slt,
    Sltu,
}

/// An operation on a register and a 12-bit immediate.
#[derive(Clone, Copy, Debug, PartialEq, Eq, Structural)]
pub enum ImmediateOp {
    Addi,
    Xori,
    Ori,
    Andi,
    Slti,
    Sltiu,
}

/// A shift by a constant amount.
#[derive(Clone, Copy, Debug, PartialEq, Eq, Structural)]
pub enum ShiftOp {
    Slli,
    Srli,
    Srai,
}

/// A load.
#[derive(Clone, Copy, Debug, PartialEq, Eq, Structural)]
pub enum LoadOp {
    Lb,
    Lh,
    Lw,
    Ld,
    Lbu,
    Lhu,
    Lwu,
}

/// A store.
#[derive(Clone, Copy, Debug, PartialEq, Eq, Structural)]
pub enum StoreOp {
    Sb,
    Sh,
    Sw,
    Sd,
}

/// A conditional branch.
#[derive(Clone, Copy, Debug, PartialEq, Eq, Structural)]
pub enum BranchOp {
    Beq,
    Bne,
    Blt,
    Bge,
    Bltu,
    Bgeu,
}

impl RegisterOp {
    /// The `funct3` field of the operation.
    pub open spec fn funct3(self) -> nat {
        match self {
            RegisterOp::Add | RegisterOp::Sub => 0,
            RegisterOp::Sll => 1,
            RegisterOp::Slt => 2,
            RegisterOp::Sltu => 3,
            RegisterOp::Xor => 4,
            RegisterOp::Srl | RegisterOp::Sra => 5,
            RegisterOp::Or => 6,
            RegisterOp::And => 7,
        }
    }

    /// The `funct7` field of the operation.
    pub open spec fn funct7(self) -> nat {
        match self {
            RegisterOp::Sub | RegisterOp::Sra => 0x20,
            _ => 0,
        }
    }

    /// The `funct3` field of the operation.
    pub fn funct3_bits(self) -> (v: u8)
        ensures
            v == self.funct3(),
    {
        match self {
            RegisterOp::Add | RegisterOp::Sub => 0,
            RegisterOp::Sll => 1,
            RegisterOp::Slt => 2,
            RegisterOp::Sltu => 3,
            RegisterOp::Xor => 4,
            RegisterOp::Srl | RegisterOp::Sra => 5,
            RegisterOp::Or => 6,
            RegisterOp::And => 7,
        }
    }

    /// The `funct7` field of the operation.
    pub fn funct7_bits(self) -> (v: u8)
        ensures
            v == self.funct7(),
    {
        match self {
            RegisterOp::Sub | RegisterOp::Sra => 0x20,
            _ => 0,
        }
    }
}

impl ImmediateOp {
    /// The `funct3` field of the operation.
    pub open spec fn funct3(self) -> nat {
        match self {
            ImmediateOp::Addi => 0,
            ImmediateOp::Slti => 2,
            ImmediateOp::Sltiu => 3,
            ImmediateOp::Xori => 4,
            ImmediateOp::Ori => 6,
            ImmediateOp::Andi => 7,
        }
    }

    /// The `funct3` field of the operation.
    pub fn funct3_bits(self) -> (v: u8)
        ensures
            v == self.funct3(),
    {
        match self {
            ImmediateOp::Addi => 0,
            ImmediateOp::Slti => 2,
            ImmediateOp::Sltiu => 3,
            ImmediateOp::Xori => 4,
            ImmediateOp::Ori => 6,
            ImmediateOp::Andi => 7,
        }
    }
}

impl ShiftOp {
    /// The `funct3` field of the shift.
    pub open spec fn funct3(self) -> nat {
        match self {
            ShiftOp::Slli => 1,
            ShiftOp::Srli | ShiftOp::Srai => 5,
        }
    }

    /// What the shift adds to its amount in the immediate field: bit 10 for
    /// the arithmetic shift.
    pub open spec fn flag(self) -> int {
        match self {
            ShiftOp::Srai => 0x400,
            _ => 0,
        }
    }

    /// The `funct3` field of the shift.
    pub fn funct3_bits(self) -> (v: u8)
        ensures
            v == self.funct3(),
    {
        match self {
            ShiftOp::Slli => 1,
            ShiftOp::Srli | ShiftOp::Srai => 5,
        }
    }

    /// What the shift adds to its amount in the immediate field.
    pub fn flag_bits(self) -> (v: i32)
        ensures
            v == self.flag(),
    {
        match self {
            ShiftOp::Srai => 0x400,
            _ => 0,
        }
    }
}

impl LoadOp {
    /// The `funct3` field of the load.
    pub open spec fn funct3(self) -> nat {
        match self {
            LoadOp::Lb => 0,
            LoadOp::Lh => 1,
            LoadOp::Lw => 2,
            LoadOp::Ld => 3,
            LoadOp::Lbu => 4,
            LoadOp::Lhu => 5,
            LoadOp::Lwu => 6,
        }
    }

    /// The `funct3` field of the load.
    pub fn funct3_bits(self) -> (v: u8)
        ensures
            v == self.funct3(),
    {
        match self {
            LoadOp::Lb => 0,
            LoadOp::Lh => 1,
            LoadOp::Lw => 2,
            LoadOp::Ld => 3,
            LoadOp::Lbu => 4,
            LoadOp::Lhu => 5,
            LoadOp::Lwu => 6,
        }
    }
}

impl StoreOp {
    /// The `funct3` field of the store.
    pub open spec fn funct3(self) -> nat {
        match self {
            StoreOp::Sb => 0,
            StoreOp::Sh => 1,
            StoreOp::Sw => 2,
            StoreOp::Sd => 3,
        }
    }

    /// The `funct3` field of the store.
    pub fn funct3_bits(self) -> (v: u8)
        ensures
            v == self.funct3(),
    {
        match self {
            StoreOp::Sb => 0,
            StoreOp::Sh => 1,
            StoreOp::Sw => 2,
            StoreOp::Sd => 3,
        }
    }
}

impl BranchOp {
    /// The `funct3` field of the branch.
    pub open spec fn funct3(self) -> nat {
        match self {
            BranchOp::Beq => 0,
            BranchOp::Bne => 1,
            BranchOp::Blt => 4,
            BranchOp::Bge => 5,
            BranchOp::Bltu => 6,
            BranchOp::Bgeu => 7,
        }
    }

    /// The `funct3` field of the branch.
    pub fn funct3_bits(self) -> (v: u8)
        ensures
            v == self.funct3(),
    {
        match self {
            BranchOp::Beq => 0,
            BranchOp::Bne => 1,
            BranchOp::Blt => 4,
            BranchOp::Bge => 5,
            BranchOp::Bltu => 6,
            BranchOp::Bgeu => 7,
        }
    }
}

/// Whether `v` can be written as a signed number of `bits` bits, for the
/// widths of immediates that the formats have.
pub open spec fn fits_bits(v: int, modulus: int) -> bool {
    -modulus <= 2 * v < modulus
}

/// The field that holds `v` in two's complement, where the field has
/// `modulus` values.
pub open spec fn field(v: int, modulus: int) -> nat {
    if v < 0 {
        (v + modulus) as nat
    } else {
        v as nat
    }
}

/// The range of the 12-bit immediate of the I and S formats.
pub open spec fn fits_immediate(imm: int) -> bool {
    fits_bits(imm, 0x1000)
}

/// The range of a branch: an even distance of 13 bits.
pub open spec fn fits_branch(offset: int) -> bool {
    fits_bits(offset, 0x2000) && offset % 2 == 0
}

/// The range of a jump: an even distance of 21 bits.
pub open spec fn fits_jump(offset: int) -> bool {
    fits_bits(offset, 0x20_0000) && offset % 2 == 0
}

/// The word of the R format: `funct7`, `rs2`, `rs1`, `funct3`, `rd` and the
/// opcode, from the top bit down.
pub open spec fn r_type(funct7: nat, rs2: nat, rs1: nat, funct3: nat, rd: nat, opcode: nat) -> nat {
    funct7 * 0x200_0000 + rs2 * 0x10_0000 + rs1 * 0x8000 + funct3 * 0x1000 + rd * 0x80 + opcode
}

/// The word of the I format: the 12-bit immediate, `rs1`, `funct3`, `rd` and
/// the opcode.
pub open spec fn i_type(imm: int, rs1: nat, funct3: nat, rd: nat, opcode: nat) -> nat {
    field(imm, 0x1000) * 0x10_0000 + rs1 * 0x8000 + funct3 * 0x1000 + rd * 0x80 + opcode
}

/// The word of the S format: the upper seven bits of the immediate, `rs2`,
/// `rs1`, `funct3`, the lower five bits of the immediate and the opcode.
pub open spec fn s_type(imm: int, rs2: nat, rs1: nat, funct3: nat, opcode: nat) -> nat {
    let u = field(imm, 0x1000);
    (u / 32) * 0x200_0000 + rs2 * 0x10_0000 + rs1 * 0x8000 + funct3 * 0x1000 + (u % 32) * 0x80
        + opcode
}

/// The word of the B format: the bits of the distance in the order 12,
/// 10 to 5, then `rs2`, `rs1`, `funct3`, then the bits 4 to 1 and 11, and
/// the opcode.
pub open spec fn b_type(offset: int, rs2: nat, rs1: nat, funct3: nat, opcode: nat) -> nat {
    let u = field(offset, 0x2000);
    (u / 0x1000) * 0x8000_0000 + ((u / 32) % 64) * 0x200_0000 + rs2 * 0x10_0000 + rs1 * 0x8000
        + funct3 * 0x1000 + ((u / 2) % 16) * 0x100 + ((u / 0x800) % 2) * 0x80 + opcode
}

/// The word of the U format: the 20-bit immediate, `rd` and the opcode.
pub open spec fn u_type(imm: nat, rd: nat, opcode: nat) -> nat {
    imm * 0x1000 + rd * 0x80 + opcode
}

/// The word of the J format: the bits of the distance in the order 20,
/// 10 to 1, 11, 19 to 12, then `rd` and the opcode.
pub open spec fn j_type(offset: int, rd: nat, opcode: nat) -> nat {
    let u = field(offset, 0x20_0000);
    (u / 0x10_0000) * 0x8000_0000 + ((u / 2) % 0x400) * 0x20_0000 + ((u / 0x800) % 2) * 0x10_0000
        + ((u / 0x1000) % 0x100) * 0x1000 + rd * 0x80 + opcode
}

/// The field that holds `v` in two's complement.
fn field_bits(v: i32, modulus: u32) -> (u: u32)
    requires
        modulus == 0x1000 || modulus == 0x2000 || modulus == 0x20_0000,
        fits_bits(v as int, modulus as int),
    ensures
        u == field(v as int, modulus as int),
        u < modulus,
{
    if v < 0 {
        (v + modulus as i32) as u32
    } else {
        v as u32
    }
}

/// Packs the fields of the R format.
pub fn encode_r(funct7: u8, rs2: u8, rs1: u8, funct3: u8, rd: u8, opcode: u8) -> (word: u32)
    requires
        funct7 < 128,
        rs2 < 32,
        rs1 < 32,
        funct3 < 8,
        rd < 32,
        opcode < 128,
    ensures
        word == r_type(
            funct7 as nat,
            rs2 as nat,
            rs1 as nat,
            funct3 as nat,
            rd as nat,
            opcode as nat,
        ),
{
    (funct7 as u32) * 0x200_0000 + (rs2 as u32) * 0x10_0000 + (rs1 as u32) * 0x8000 + (
    funct3 as u32) * 0x1000 + (rd as u32) * 0x80 + (opcode as u32)
}

/// Packs the fields of the I format.
pub fn encode_i(imm: i32, rs1: u8, funct3: u8, rd: u8, opcode: u8) -> (word: u32)
    requires
        fits_immediate(imm as int),
        rs1 < 32,
        funct3 < 8,
        rd < 32,
        opcode < 128,
    ensures
        word == i_type(imm as int, rs1 as nat, funct3 as nat, rd as nat, opcode as nat),
{
    field_bits(imm, 0x1000) * 0x10_0000 + (rs1 as u32) * 0x8000 + (funct3 as u32) * 0x1000 + (
    rd as u32) * 0x80 + (opcode as u32)
}

/// Packs the fields of the S format.
pub fn encode_s(imm: i32, rs2: u8, rs1: u8, funct3: u8, opcode: u8) -> (word: u32)
    requires
        fits_immediate(imm as int),
        rs2 < 32,
        rs1 < 32,
        funct3 < 8,
        opcode < 128,
    ensures
        word == s_type(imm as int, rs2 as nat, rs1 as nat, funct3 as nat, opcode as nat),
{
    let u = field_bits(imm, 0x1000);
    (u / 32) * 0x200_0000 + (rs2 as u32) * 0x10_0000 + (rs1 as u32) * 0x8000 + (funct3 as u32)
        * 0x1000 + (u % 32) * 0x80 + (opcode as u32)
}

/// Packs the fields of the B format.
pub fn encode_b(offset: i32, rs2: u8, rs1: u8, funct3: u8, opcode: u8) -> (word: u32)
    requires
        fits_bits(offset as int, 0x2000),
        rs2 < 32,
        rs1 < 32,
        funct3 < 8,
        opcode < 128,
    ensures
        word == b_type(offset as int, rs2 as nat, rs1 as nat, funct3 as nat, opcode as nat),
{
    let u = field_bits(offset, 0x2000);
    (u / 0x1000) * 0x8000_0000 + ((u / 32) % 64) * 0x200_0000 + (rs2 as u32) * 0x10_0000 + (
    rs1 as u32) * 0x8000 + (funct3 as u32) * 0x1000 + ((u / 2) % 16) * 0x100 + ((u / 0x800) % 2)
        * 0x80 + (opcode as u32)
}

/// Packs the fields of the U format.
pub fn encode_u(imm: u32, rd: u8, opcode: u8) -> (word: u32)
    requires
        imm < 0x10_0000,
        rd < 32,
        opcode < 128,
    ensures
        word == u_type(imm as nat, rd as nat, opcode as nat),
{
    imm * 0x1000 + (rd as u32) * 0x80 + (opcode as u32)
}

/// Packs the fields of the J format.
pub fn encode_j(offset: i32, rd: u8, opcode: u8) -> (word: u32)
    requires
        fits_bits(offset as int, 0x20_0000),
        rd < 32,
        opcode < 128,
    ensures
        word == j_type(offset as int, rd as nat, opcode as nat),
{
    let u = field_bits(offset, 0x20_0000);
    (u / 0x10_0000) * 0x8000_0000 + ((u / 2) % 0x400) * 0x20_0000 + ((u / 0x800) % 2) * 0x10_0000
        + ((u / 0x1000) % 0x100) * 0x1000 + (rd as u32) * 0x80 + (opcode as u32)
}

/// The word of an operation on two registers.
pub open spec fn register_word(op: RegisterOp, rd: Register, rs1: Register, rs2: Register) -> nat {
    r_type(op.funct7(), rs2.number(), rs1.number(), op.funct3(), rd.number(), OP as nat)
}

/// The word of an operation on a register and an immediate.
pub open spec fn immediate_word(op: ImmediateOp, rd: Register, rs1: Register, imm: int) -> nat {
    i_type(imm, rs1.number(), op.funct3(), rd.number(), OP_IMM as nat)
}

/// The word of a shift by a constant amount.
pub open spec fn shift_word(op: ShiftOp, rd: Register, rs1: Register, amount: int) -> nat {
    i_type(amount + op.flag(), rs1.number(), op.funct3(), rd.number(), OP_IMM as nat)
}

/// The word of a load from the address in `rs1` moved by `imm`.
pub open spec fn load_word(op: LoadOp, rd: Register, rs1: Register, imm: int) -> nat {
    i_type(imm, rs1.number(), op.funct3(), rd.number(), LOAD as nat)
}

/// The word of a store of `rs2` to the address in `rs1` moved by `imm`.
pub open spec fn store_word(op: StoreOp, rs2: Register, rs1: Register, imm: int) -> nat {
    s_type(imm, rs2.number(), rs1.number(), op.funct3(), STORE as nat)
}

/// The word of `jalr`.
pub open spec fn jalr_word(rd: Register, rs1: Register, imm: int) -> nat {
    i_type(imm, rs1.number(), 0, rd.number(), JALR as nat)
}

/// The word of `lui`.
pub open spec fn lui_word(rd: Register, imm: nat) -> nat {
    u_type(imm, rd.number(), LUI as nat)
}

/// The word of `auipc`.
pub open spec fn auipc_word(rd: Register, imm: nat) -> nat {
    u_type(imm, rd.number(), AUIPC as nat)
}

} // verus!
