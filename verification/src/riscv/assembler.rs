//! The assembler for RISC-V: one method for each kind of instruction,
//! labels, and the patching of branches and jumps once every label is known.

use crate::bytes::le_bytes;
use crate::riscv::encoding::{
    auipc_word, encode_i, encode_r, encode_s, encode_u, fits_immediate, immediate_word,
    jalr_word, load_word, lui_word, register_word, shift_word, store_word, BranchOp, ImmediateOp,
    LoadOp, RegisterOp, ShiftOp, StoreOp, AUIPC, EBREAK, ECALL, JALR, LOAD, LUI, OP, OP_IMM, STORE,
};
use crate::riscv::register::Register;
use crate::session::{JumpKind, PatchError, Session};
use crate::unit::{EntryKind, Unit};
use vstd::prelude::*;

verus! {

/// An assembler session for RISC-V. Every instruction is one word of four
/// bytes, least significant byte first.
pub struct Assembler {
    unit: Unit,
}

impl View for Assembler {
    type V = Session;

    closed spec fn view(&self) -> Session {
        self.unit@
    }
}

/// The jump that a branch records for patching.
pub open spec fn branch_kind(op: BranchOp, rs1: Register, rs2: Register) -> JumpKind {
    JumpKind::Branch { funct3: op.funct3(), rs1: rs1.number(), rs2: rs2.number() }
}

/// The jump that `jal` records for patching.
pub open spec fn jal_kind(rd: Register) -> JumpKind {
    JumpKind::Jal { rd: rd.number() }
}

impl Assembler {
    /// A session in which nothing has happened yet.
    pub fn new() -> (assembler: Self)
        ensures
            assembler@ == Session::empty(),
    {
        Assembler { unit: Unit::new() }
    }

    /// The code as it stands, with no jump patched.
    pub fn code(self) -> (code: Vec<u8>)
        ensures
            code@ == self@.code,
    {
        self.unit.code()
    }

    /// The number of bytes emitted so far.
    pub fn len(&self) -> (n: usize)
        ensures
            n == self@.code.len(),
    {
        self.unit.len()
    }

    /// Binds `label` to the end of the code emitted so far. A label that is
    /// bound again stands for the later place.
    pub fn label(&mut self, label: &str)
        ensures
            final(self)@ == old(self)@.define(label@),
    {
        self.unit.label(label);
    }

    /// Emits one instruction word.
    pub fn emit_word(&mut self, word: u32)
        ensures
            final(self)@ == old(self)@.emit(le_bytes(word as nat, 4)),
    {
        let mut bytes: Vec<u8> = Vec::new();
        crate::bytes::write_u32_le(&mut bytes, word);
        assert(bytes@ =~= le_bytes(word as nat, 4));
        self.unit.append(bytes);
    }

    /// An operation on two registers: `add`, `sub`, `xor`, `or`, `and`,
    /// `sll`, `srl`, `sra`, `slt`, `sltu`.
    pub fn register_op(&mut self, op: RegisterOp, rd: Register, rs1: Register, rs2: Register)
        ensures
            final(self)@ == old(self)@.emit(le_bytes(register_word(op, rd, rs1, rs2), 4)),
    {
        self.emit_word(
            encode_r(op.funct7_bits(), rs2.value(), rs1.value(), op.funct3_bits(), rd.value(), OP),
        );
    }

    /// An operation on a register and a 12-bit immediate: `addi`, `xori`,
    /// `ori`, `andi`, `slti`, `sltiu`.
    pub fn immediate_op(&mut self, op: ImmediateOp, rd: Register, rs1: Register, imm: i32)
        requires
            fits_immediate(imm as int),
        ensures
            final(self)@ == old(self)@.emit(le_bytes(immediate_word(op, rd, rs1, imm as int), 4)),
    {
        self.emit_word(encode_i(imm, rs1.value(), op.funct3_bits(), rd.value(), OP_IMM));
    }

    /// A shift by a constant amount of up to 63 bits: `slli`, `srli`, `srai`.
    pub fn shift_op(&mut self, op: ShiftOp, rd: Register, rs1: Register, amount: u8)
        requires
            amount < 64,
        ensures
            final(self)@ == old(self)@.emit(le_bytes(shift_word(op, rd, rs1, amount as int), 4)),
    {
        self.emit_word(
            encode_i(
                amount as i32 + op.flag_bits(),
                rs1.value(),
                op.funct3_bits(),
                rd.value(),
                OP_IMM,
            ),
        );
    }

    /// A load from the address in `rs1` moved by `imm`.
    pub fn load(&mut self, op: LoadOp, rd: Register, rs1: Register, imm: i32)
        requires
            fits_immediate(imm as int),
        ensures
            final(self)@ == old(self)@.emit(le_bytes(load_word(op, rd, rs1, imm as int), 4)),
    {
        self.emit_word(encode_i(imm, rs1.value(), op.funct3_bits(), rd.value(), LOAD));
    }

    /// A store of `rs2` to the address in `rs1` moved by `imm`.
    pub fn store(&mut self, op: StoreOp, rs2: Register, rs1: Register, imm: i32)
        requires
            fits_immediate(imm as int),
        ensures
            final(self)@ == old(self)@.emit(le_bytes(store_word(op, rs2, rs1, imm as int), 4)),
    {
        self.emit_word(encode_s(imm, rs2.value(), rs1.value(), op.funct3_bits(), STORE));
    }

    /// A conditional branch to `label`.
    pub fn branch(&mut self, op: BranchOp, rs1: Register, rs2: Register, label: &str)
        ensures
            final(self)@ == old(self)@.jump_word(label@, branch_kind(op, rs1, rs2)),
    {
        self.unit.jump_word(
            label,
            EntryKind::Branch { funct3: op.funct3_bits(), rs1: rs1.value(), rs2: rs2.value() },
        );
    }

    /// A jump to `label` that leaves the return address in `rd`.
    pub fn jal(&mut self, rd: Register, label: &str)
        ensures
            final(self)@ == old(self)@.jump_word(label@, jal_kind(rd)),
    {
        self.unit.jump_word(label, EntryKind::Jal { rd: rd.value() });
    }

    /// A jump to the address in `rs1` moved by `imm` that leaves the return
    /// address in `rd`.
    pub fn jalr(&mut self, rd: Register, rs1: Register, imm: i32)
        requires
            fits_immediate(imm as int),
        ensures
            final(self)@ == old(self)@.emit(le_bytes(jalr_word(rd, rs1, imm as int), 4)),
    {
        self.emit_word(encode_i(imm, rs1.value(), 0, rd.value(), JALR));
    }

    /// Loads the 20-bit immediate into the upper bits of `rd`.
    pub fn lui(&mut self, rd: Register, imm: u32)
        requires
            imm < 0x10_0000,
        ensures
            final(self)@ == old(self)@.emit(le_bytes(lui_word(rd, imm as nat), 4)),
    {
        self.emit_word(encode_u(imm, rd.value(), LUI));
    }

    /// Adds the 20-bit immediate, as upper bits, to the address of the
    /// instruction and leaves the sum in `rd`.
    pub fn auipc(&mut self, rd: Register, imm: u32)
        requires
            imm < 0x10_0000,
        ensures
            final(self)@ == old(self)@.emit(le_bytes(auipc_word(rd, imm as nat), 4)),
    {
        self.emit_word(encode_u(imm, rd.value(), AUIPC));
    }

    /// `ecall`.
    pub fn ecall(&mut self)
        ensures
            final(self)@ == old(self)@.emit(le_bytes(ECALL as nat, 4)),
    {
        self.emit_word(ECALL);
    }

    /// `ebreak`.
    pub fn ebreak(&mut self)
        ensures
            final(self)@ == old(self)@.emit(le_bytes(EBREAK as nat, 4)),
    {
        self.emit_word(EBREAK);
    }

    /// Patches every branch and jump with the distance to its label and
    /// hands the code out, or says why the first one that cannot be patched
    /// cannot.
    pub fn try_finish(self) -> (r: Result<Vec<u8>, PatchError>)
        ensures
            self@.wf(),
            match r {
                Ok(code) => self@.resolvable() && self@.finishes_to(code@),
                Err(e) => self@.failure() == Some(e),
            },
    {
        self.unit.try_finish()
    }

    /// Patches every branch and jump with the distance to its label and
    /// hands the code out. The session ends here.
    pub fn finish(self) -> (code: Vec<u8>)
        requires
            self@.resolvable(),
        ensures
            self@.wf(),
            self@.finishes_to(code@),
    {
        self.unit.finish()
    }
}

} // verus!
