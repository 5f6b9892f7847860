//! The assembler for x86-64: one method for each instruction, labels, and the
//! patching of jumps once every label is known.

use crate::amd64::aso::ASO;
use crate::bytes::i32_bits;
use crate::amd64::encoding::{extends_dword, prefix_bytes, Addressing};
use crate::amd64::error::Error;
use crate::amd64::modrm::ModRM;
use crate::amd64::oso::OSO;
use crate::amd64::register::Register;
use crate::amd64::rex::REX;
use crate::amd64::sib::SIB;
use crate::emitter::Emitter;
use crate::session::{PatchError, Session, NEAR, SHORT};
use crate::syntax::{Displacement, Immediate};
use crate::unit::Unit;
use vstd::prelude::*;

mod mov;

verus! {

/// Appends the prefixes of an instruction in their fixed order.
pub(crate) fn emit_prefixes(
    out: &mut Emitter,
    operand16: bool,
    address32: bool,
    wide: bool,
    reg_extended: bool,
    base_extended: bool,
)
    ensures
        final(out)@ == old(out)@ + prefix_bytes(
            operand16,
            address32,
            wide,
            reg_extended,
            base_extended,
        ),
{
    if operand16 {
        out.emit_byte(OSO::new().byte());
    }
    if address32 {
        out.emit_byte(ASO::new().byte());
    }
    if wide || reg_extended || base_extended {
        let mut rex = REX::new();
        if wide {
            rex.set_w();
        }
        if reg_extended {
            rex.set_r();
        }
        if base_extended {
            rex.set_b();
        }
        out.emit_byte(rex.byte());
    }
    assert(out@ =~= old(out)@ + prefix_bytes(
        operand16,
        address32,
        wide,
        reg_extended,
        base_extended,
    ));
}

/// Appends the ModR/M byte of a register operand.
pub(crate) fn emit_direct(out: &mut Emitter, reg: u8, rm: Register)
    requires
        reg < 8,
    ensures
        final(out)@ == old(out)@ + (Addressing::Direct { reg, rm: rm.code() }).bytes(),
{
    let modrm = ModRM::new().mod_direct().reg(reg).rm_reg(rm);
    out.emit_byte(modrm.byte());
    assert(out@ =~= old(out)@ + (Addressing::Direct { reg, rm: rm.code() }).bytes());
}

/// Appends the ModR/M byte of a memory operand, the SIB byte where the base
/// register needs one, and the displacement as the instruction holds it:
/// one byte, or four bytes for a wider displacement.
pub(crate) fn emit_indirect(out: &mut Emitter, reg: u8, base: Register, displacement: Option<Displacement>)
    requires
        reg < 8,
    ensures
        final(out)@ == old(out)@ + (Addressing::Indirect {
            reg,
            base: base.code(),
            displacement,
        }).bytes(),
{
    let lone = base.value() == 0b101;
    let mode: u8 = match displacement {
        None => if lone {
            0b01
        } else {
            0b00
        },
        Some(Displacement::Disp8(_)) => 0b01,
        Some(_) => 0b10,
    };
    let modrm = ModRM::new().mod_(mode).reg(reg).rm_addr(base);
    out.emit_byte(modrm.byte());
    if modrm.sibp() {
        let sib = SIB::new().base_reg(base);
        out.emit_byte(sib.byte());
    }
    match displacement {
        None => {
            if lone {
                out.emit_byte(0);
            }
        },
        Some(Displacement::Disp8(d)) => out.emit_displacement(Displacement::Disp8(d)),
        Some(d) => out.emit_u32(i32_bits(d.get())),
    }
    assert(out@ =~= old(out)@ + (Addressing::Indirect {
        reg,
        base: base.code(),
        displacement,
    }).bytes());
}

/// An assembler session for x86-64. Instructions and labels are added in any
/// order; `finish` patches the jumps and hands the code out.
pub struct Assembler {
    unit: Unit,
}

impl View for Assembler {
    type V = Session;

    closed spec fn view(&self) -> Session {
        self.unit@
    }
}

impl Assembler {
    /// A session in which nothing has happened yet.
    pub fn new() -> (assembler: Self)
        ensures
            assembler@ == Session::empty(),
    {
        Assembler { unit: Unit::new() }
    }

    /// The code as it stands, with no jump patched.
    pub fn code(self) -> (code: Vec<u8>)
        ensures
            code@ == self@.code,
    {
        self.unit.code()
    }

    /// The number of bytes emitted so far.
    pub fn len(&self) -> (n: usize)
        ensures
            n == self@.code.len(),
    {
        self.unit.len()
    }

    /// Appends bytes that were made elsewhere.
    pub fn append(&mut self, other: Vec<u8>)
        ensures
            final(self)@ == old(self)@.emit(other@),
    {
        self.unit.append(other);
    }

    /// Adds a constant blob and returns its index.
    pub fn add_constant(&mut self, constant: Vec<u8>) -> (index: usize)
        ensures
            index == old(self)@.constants.len(),
            final(self)@ == old(self)@.add_constant(constant@),
    {
        self.unit.add_constant(constant)
    }

    /// Binds `label` to the end of the code emitted so far. A label that is
    /// bound again stands for the later place.
    pub fn label(&mut self, label: &str)
        ensures
            final(self)@ == old(self)@.define(label@),
    {
        self.unit.label(label);
    }

    /// Emits the opcode of a jump and a displacement of `width` zero bytes,
    /// and records the displacement for patching.
    fn jump(&mut self, opcode: Vec<u8>, label: &str, width: usize)
        requires
            width == SHORT || width == NEAR,
        ensures
            final(self)@ == old(self)@.jump(opcode@, label@, width as nat),
    {
        self.unit.jump(opcode, label, width);
    }

    /// Patches every jump with the distance to its label and hands the code
    /// out, or says why the first jump that cannot be patched cannot.
    pub fn try_finish(self) -> (r: Result<Vec<u8>, PatchError>)
        ensures
            self@.wf(),
            match r {
                Ok(code) => self@.resolvable() && self@.finishes_to(code@),
                Err(e) => self@.failure() == Some(e),
            },
    {
        self.unit.try_finish()
    }

    /// Patches every jump with the distance to its label and hands the code
    /// out. The session ends here.
    pub fn finish(self) -> (code: Vec<u8>)
        requires
            self@.resolvable(),
        ensures
            self@.wf(),
            self@.finishes_to(code@),
    {
        self.unit.finish()
    }
}

impl Assembler {
    /// Emits an instruction that names its register in the opcode.
    fn emit_in_opcode(&mut self, opcode: u8, register: Register)
        requires
            opcode <= 0xf8,
        ensures
            final(self)@ == old(self)@.emit(crate::amd64::encoding::in_opcode(opcode, register).bytes()),
    {
        let mut out = Emitter::new();
        emit_prefixes(&mut out, register.b16p(), false, false, false, register.rexp());
        out.emit_byte(opcode + register.value());
        assert(out@ =~= crate::amd64::encoding::in_opcode(opcode, register).bytes());
        self.append(out.code());
    }

    /// Emits an instruction on a register and an immediate.
    fn emit_register_immediate(
        &mut self,
        opcode: u8,
        extension: u8,
        wide: bool,
        to: Register,
        immediate: Vec<u8>,
    )
        requires
            extension < 8,
        ensures
            final(self)@ == old(self)@.emit(
                (crate::amd64::encoding::Encoding {
                    wide,
                    ..crate::amd64::encoding::register_immediate(opcode, extension, to, immediate@)
                }).bytes(),
            ),
    {
        let mut out = Emitter::new();
        emit_prefixes(&mut out, to.b16p(), false, wide, false, to.rexp());
        out.emit_byte(opcode);
        emit_direct(&mut out, extension, to);
        out.append(immediate);
        assert(out@ =~= (crate::amd64::encoding::Encoding {
            wide,
            ..crate::amd64::encoding::register_immediate(opcode, extension, to, immediate@)
        }).bytes());
        self.append(out.code());
    }

    /// Emits an instruction on memory and a register.
    pub(crate) fn emit_memory_register(
        &mut self,
        opcode: u8,
        base: Register,
        register: Register,
        displacement: Option<Displacement>,
    )
        ensures
            final(self)@ == old(self)@.emit(
                crate::amd64::encoding::memory_register(
                    opcode,
                    base,
                    register,
                    displacement,
                ).bytes(),
            ),
    {
        let mut out = Emitter::new();
        emit_prefixes(
            &mut out,
            register.b16p(),
            base.b32p(),
            register.b64p(),
            register.rexp(),
            base.rexp(),
        );
        out.emit_byte(opcode);
        emit_indirect(&mut out, register.value(), base, displacement);
        assert(out@ =~= crate::amd64::encoding::memory_register(
            opcode,
            base,
            register,
            displacement,
        ).bytes());
        self.append(out.code());
    }

    /// Emits an instruction on memory and an immediate.
    pub(crate) fn emit_memory_immediate(
        &mut self,
        opcode: u8,
        extension: u8,
        operand16: bool,
        wide: bool,
        base: Register,
        displacement: Option<Displacement>,
        immediate: Vec<u8>,
    )
        requires
            extension < 8,
        ensures
            final(self)@ == old(self)@.emit(
                crate::amd64::encoding::memory_immediate(
                    opcode,
                    extension,
                    operand16,
                    wide,
                    base,
                    displacement,
                    immediate@,
                ).bytes(),
            ),
    {
        let mut out = Emitter::new();
        emit_prefixes(&mut out, operand16, base.b32p(), wide, false, base.rexp());
        out.emit_byte(opcode);
        emit_indirect(&mut out, extension, base, displacement);
        out.append(immediate);
        assert(out@ =~= crate::amd64::encoding::memory_immediate(
            opcode,
            extension,
            operand16,
            wide,
            base,
            displacement,
            immediate@,
        ).bytes());
        self.append(out.code());
    }

    /// `push` of a register.
    pub fn push_reg(&mut self, from: Register)
        ensures
            final(self)@ == old(self)@.emit(crate::amd64::encoding::push_reg(from).bytes()),
    {
        self.emit_in_opcode(0x50, from);
    }

    /// `pop` into a register.
    pub fn pop_reg(&mut self, to: Register)
        ensures
            final(self)@ == old(self)@.emit(crate::amd64::encoding::pop_reg(to).bytes()),
    {
        self.emit_in_opcode(0x58, to);
    }

    /// `test` of two registers.
    pub fn test(&mut self, r1: Register, r2: Register)
        ensures
            final(self)@ == old(self)@.emit(crate::amd64::encoding::test(r1, r2).bytes()),
    {
        let mut out = Emitter::new();
        emit_prefixes(&mut out, r1.b16p(), false, r1.b64p(), r2.rexp(), r1.rexp());
        let opcode: u8 = if r1.b8p() {
            0x84
        } else {
            0x85
        };
        out.emit_byte(opcode);
        emit_direct(&mut out, r2.value(), r1);
        assert(out@ =~= crate::amd64::encoding::test(r1, r2).bytes());
        self.append(out.code());
    }

    /// A near jump to `label` that is taken if the zero flag is set.
    pub fn jz(&mut self, label: &str)
        ensures
            final(self)@ == old(self)@.jump(seq![0x0fu8, 0x84u8], label@, NEAR as nat),
    {
        let opcode: Vec<u8> = vec![0x0f, 0x84];
        assert(opcode@ =~= seq![0x0fu8, 0x84u8]);
        self.jump(opcode, label, NEAR);
    }

    /// A near jump to `label` that is taken if the zero flag is clear.
    pub fn jnz(&mut self, label: &str)
        ensures
            final(self)@ == old(self)@.jump(seq![0x0fu8, 0x85u8], label@, NEAR as nat),
    {
        let opcode: Vec<u8> = vec![0x0f, 0x85];
        assert(opcode@ =~= seq![0x0fu8, 0x85u8]);
        self.jump(opcode, label, NEAR);
    }

    /// A short jump to `label` that is taken if the zero flag is set.
    pub fn je(&mut self, label: &str)
        ensures
            final(self)@ == old(self)@.jump(seq![0x74u8], label@, SHORT as nat),
    {
        let opcode: Vec<u8> = vec![0x74];
        assert(opcode@ =~= seq![0x74u8]);
        self.jump(opcode, label, SHORT);
    }

    /// A short jump to `label`.
    pub fn jmp(&mut self, label: &str)
        ensures
            final(self)@ == old(self)@.jump(seq![0xebu8], label@, SHORT as nat),
    {
        let opcode: Vec<u8> = vec![0xeb];
        assert(opcode@ =~= seq![0xebu8]);
        self.jump(opcode, label, SHORT);
    }

    /// A near `call` of the code at `label`.
    pub fn call_label(&mut self, label: &str)
        ensures
            final(self)@ == old(self)@.jump(seq![0xe8u8], label@, NEAR as nat),
    {
        let opcode: Vec<u8> = vec![0xe8];
        assert(opcode@ =~= seq![0xe8u8]);
        self.jump(opcode, label, NEAR);
    }

    /// `ret`.
    pub fn ret(&mut self)
        ensures
            final(self)@ == old(self)@.emit(crate::amd64::encoding::ret().bytes()),
    {
        let code: Vec<u8> = vec![0xc3];
        assert(code@ =~= crate::amd64::encoding::ret().bytes());
        self.append(code);
    }

    /// `call` to the address in a register.
    pub fn call_addr(&mut self, reg: Register)
        ensures
            final(self)@ == old(self)@.emit(crate::amd64::encoding::call_addr(reg).bytes()),
    {
        let mut out = Emitter::new();
        emit_prefixes(&mut out, false, false, false, false, reg.rexp());
        out.emit_byte(0xff);
        emit_direct(&mut out, 2, reg);
        assert(out@ =~= crate::amd64::encoding::call_addr(reg).bytes());
        self.append(out.code());
    }

    /// `call` to the address in a register.
    pub fn call_reg(&mut self, reg: Register)
        ensures
            final(self)@ == old(self)@.emit(crate::amd64::encoding::call_addr(reg).bytes()),
    {
        self.call_addr(reg);
    }

    /// `call` to the address stored at the absolute 32-bit address `imm`.
    pub fn call_imm(&mut self, imm: Immediate)
        requires
            imm.is_32bit(),
        ensures
            final(self)@ == old(self)@.emit(crate::amd64::encoding::call_imm(imm).bytes()),
    {
        let modrm = ModRM::new().reg(2).rm(4);
        let sib = SIB::new().base(5);
        let mut out = Emitter::new();
        out.emit_byte(0xff);
        out.emit_byte(modrm.byte());
        out.emit_byte(sib.byte());
        out.emit_imm(imm);
        assert(out@ =~= crate::amd64::encoding::call_imm(imm).bytes());
        self.append(out.code());
    }

    /// `call` to the address stored at the absolute address `imm`, refused
    /// with `Error::Width` where the immediate is not 32 bits wide. A refusal
    /// emits nothing.
    pub fn try_call_imm(&mut self, imm: Immediate) -> (r: Result<(), Error>)
        ensures
            imm.is_32bit() ==> r is Ok && final(self)@ == old(self)@.emit(
                crate::amd64::encoding::call_imm(imm).bytes(),
            ),
            !imm.is_32bit() ==> r == Err::<(), Error>(Error::Width) && final(self)@ == old(
                self,
            )@,
    {
        if imm.b32p() {
            self.call_imm(imm);
            Ok(())
        } else {
            Err(Error::Width)
        }
    }

    /// `add` of an 8-bit immediate to a register.
    pub fn add_reg_u8(&mut self, to: Register, imm: u8)
        ensures
            final(self)@ == old(self)@.emit(crate::amd64::encoding::add_reg_u8(to, imm).bytes()),
    {
        let immediate: Vec<u8> = vec![imm];
        assert(immediate@ =~= seq![imm]);
        let opcode: u8 = if to.b8p() {
            0x80
        } else {
            0x83
        };
        self.emit_register_immediate(opcode, 0, to.b64p(), to, immediate);
    }

    /// `add` of a 32-bit immediate to a register of 32 or 64 bits. For one
    /// of 64 bits the processor extends the sign of the immediate.
    pub fn add_reg_u32(&mut self, to: Register, imm: u32)
        requires
            to.matches_immediate(Immediate::U32(imm)),
        ensures
            final(self)@ == old(self)@.emit(crate::amd64::encoding::add_reg_u32(to, imm).bytes()),
    {
        self.emit_register_immediate(0x81, 0, to.b64p(), to, Immediate::U32(imm).to_le_bytes());
    }

    /// `add` of an 8-bit immediate to the byte at the address in a register.
    pub fn add_addr_u8(&mut self, addr: Register, imm: u8)
        ensures
            final(self)@ == old(self)@.emit(crate::amd64::encoding::add_addr_u8(addr, imm).bytes()),
    {
        let immediate: Vec<u8> = vec![imm];
        assert(immediate@ =~= seq![imm]);
        self.emit_memory_immediate(0x80, 0, false, false, addr, None, immediate);
    }

    /// `add` of a register to memory.
    pub fn add_addr_reg(
        &mut self,
        addr: Register,
        from: Register,
        displacement: Option<Displacement>,
    )
        ensures
            final(self)@ == old(self)@.emit(
                crate::amd64::encoding::add_addr_reg(addr, from, displacement).bytes(),
            ),
    {
        let opcode: u8 = if from.b8p() {
            0x00
        } else {
            0x01
        };
        self.emit_memory_register(opcode, addr, from, displacement);
    }

    /// `sub` of a 64-bit immediate from a register, with a 64-bit operand.
    /// The immediate is the sign extension of its lowest 32 bits.
    pub fn sub_reg_u64(&mut self, to: Register, imm: u64)
        requires
            extends_dword(imm),
        ensures
            final(self)@ == old(self)@.emit(crate::amd64::encoding::sub_reg_u64(to, imm).bytes()),
    {
        if imm <= 0x7f || imm >= 0xffff_ffff_ffff_ff80 {
            let low: u8 = (imm % 0x100) as u8;
            let immediate: Vec<u8> = vec![low];
            assert(immediate@ =~= seq![low]);
            self.emit_register_immediate(0x83, 5, true, to, immediate);
        } else {
            let low: u32 = (imm % 0x1_0000_0000) as u32;
            self.emit_register_immediate(0x81, 5, true, to, Immediate::U32(low).to_le_bytes());
        }
    }

    /// `sub` of a 64-bit immediate from a register, refused with
    /// `Error::Width` where the immediate is not the sign extension of its
    /// lowest 32 bits. A refusal emits nothing.
    pub fn try_sub_reg_u64(&mut self, to: Register, imm: u64) -> (r: Result<(), Error>)
        ensures
            extends_dword(imm) ==> r is Ok && final(self)@ == old(self)@.emit(
                crate::amd64::encoding::sub_reg_u64(to, imm).bytes(),
            ),
            !extends_dword(imm) ==> r == Err::<(), Error>(Error::Width) && final(self)@ == old(
                self,
            )@,
    {
        if imm <= 0x7fff_ffff || imm >= 0xffff_ffff_8000_0000 {
            self.sub_reg_u64(to, imm);
            Ok(())
        } else {
            Err(Error::Width)
        }
    }

    /// `sub` of an 8-bit immediate from a register.
    pub fn sub_reg_u8(&mut self, to: Register, imm: u8)
        ensures
            final(self)@ == old(self)@.emit(crate::amd64::encoding::sub_reg_u8(to, imm).bytes()),
    {
        let immediate: Vec<u8> = vec![imm];
        assert(immediate@ =~= seq![imm]);
        let opcode: u8 = if to.b8p() {
            0x80
        } else {
            0x83
        };
        self.emit_register_immediate(opcode, 5, to.b64p(), to, immediate);
    }

    /// `sub` of a 32-bit immediate from a register of 32 or 64 bits. For
    /// one of 64 bits the processor extends the sign of the immediate.
    pub fn sub_reg_u32(&mut self, to: Register, imm: u32)
        requires
            to.matches_immediate(Immediate::U32(imm)),
        ensures
            final(self)@ == old(self)@.emit(crate::amd64::encoding::sub_reg_u32(to, imm).bytes()),
    {
        self.emit_register_immediate(0x81, 5, to.b64p(), to, Immediate::U32(imm).to_le_bytes());
    }

    /// `sub` of an 8-bit immediate from the byte at the address in a
    /// register.
    pub fn sub_addr_u8(&mut self, addr: Register, imm: u8)
        ensures
            final(self)@ == old(self)@.emit(crate::amd64::encoding::sub_addr_u8(addr, imm).bytes()),
    {
        let immediate: Vec<u8> = vec![imm];
        assert(immediate@ =~= seq![imm]);
        self.emit_memory_immediate(0x80, 5, false, false, addr, None, immediate);
    }

    /// `sub` of a register from memory.
    pub fn sub_addr_reg(
        &mut self,
        addr: Register,
        from: Register,
        displacement: Option<Displacement>,
    )
        ensures
            final(self)@ == old(self)@.emit(
                crate::amd64::encoding::sub_addr_reg(addr, from, displacement).bytes(),
            ),
    {
        let opcode: u8 = if from.b8p() {
            0x28
        } else {
            0x29
        };
        self.emit_memory_register(opcode, addr, from, displacement);
    }

    /// `and` of a register of 32 or 64 bits with a 32-bit immediate. For
    /// one of 64 bits the processor extends the sign of the immediate.
    pub fn and_reg_imm(&mut self, to: Register, imm: u32)
        requires
            to.matches_immediate(Immediate::U32(imm)),
        ensures
            final(self)@ == old(self)@.emit(crate::amd64::encoding::and_reg_imm(to, imm).bytes()),
    {
        self.emit_register_immediate(0x81, 4, to.b64p(), to, Immediate::U32(imm).to_le_bytes());
    }

    /// `mul` by a register.
    pub fn mul(&mut self, from: Register)
        ensures
            final(self)@ == old(self)@.emit(crate::amd64::encoding::mul(from).bytes()),
    {
        let opcode: u8 = if from.b8p() {
            0xf6
        } else {
            0xf7
        };
        self.emit_register_immediate(opcode, 4, from.b64p(), from, Vec::new());
    }

    /// `syscall`.
    pub fn syscall(&mut self)
        ensures
            final(self)@ == old(self)@.emit(crate::amd64::encoding::syscall().bytes()),
    {
        let code: Vec<u8> = vec![0x0f, 0x05];
        assert(code@ =~= crate::amd64::encoding::syscall().bytes());
        self.append(code);
    }
}


} // verus!
