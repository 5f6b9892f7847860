//! The `mov` family.

use super::{emit_direct, emit_prefixes, Assembler};
use crate::emitter::Emitter;
use crate::amd64::encoding::addressable;
use crate::amd64::error::Error;
use crate::amd64::register::Register;
use crate::syntax::{Displacement, Immediate};
use vstd::prelude::*;

verus! {

impl Assembler {
    /// `mov` of an immediate into a register that is wide enough for it.
    pub fn mov_reg_imm(&mut self, to: Register, imm: Immediate)
        requires
            to.matches_immediate(imm),
        ensures
            final(self)@ == old(self)@.emit(crate::amd64::encoding::mov_reg_imm(to, imm).bytes()),
    {
        let extended = to.b64p() && !imm.b64p() && imm.fits_dword();
        let mut out = Emitter::new();
        emit_prefixes(&mut out, to.b16p(), false, to.b64p(), false, to.rexp());
        let opcode = if to.b8p() {
            0xb0 + to.value()
        } else if extended {
            0xc7
        } else {
            0xb8 + to.value()
        };
        out.emit_byte(opcode);
        if extended {
            emit_direct(&mut out, 0, to);
            out.emit_widened(imm, 4);
        } else {
            let width: usize = if to.b8p() {
                1
            } else if to.b16p() {
                2
            } else if to.b32p() {
                4
            } else {
                8
            };
            out.emit_widened(imm, width);
        }
        assert(out@ =~= crate::amd64::encoding::mov_reg_imm(to, imm).bytes());
        self.append(out.code());
    }

    /// `mov` of an immediate into a register, refused with `Error::Width`
    /// where the register is too narrow for the immediate. A refusal emits
    /// nothing.
    pub fn try_mov_reg_imm(&mut self, to: Register, imm: Immediate) -> (r: Result<(), Error>)
        ensures
            to.matches_immediate(imm) ==> r is Ok && final(self)@ == old(self)@.emit(
                crate::amd64::encoding::mov_reg_imm(to, imm).bytes(),
            ),
            !to.matches_immediate(imm) ==> r == Err::<(), Error>(Error::Width) && final(self)@
                == old(self)@,
    {
        if to.matches_imm(imm) {
            self.mov_reg_imm(to, imm);
            Ok(())
        } else {
            Err(Error::Width)
        }
    }

    /// `mov` of a 32-bit immediate into a 32-bit or a 64-bit register.
    pub fn mov_reg_u32(&mut self, to: Register, imm: u32)
        requires
            to.matches_immediate(Immediate::U32(imm)),
        ensures
            final(self)@ == old(self)@.emit(
                crate::amd64::encoding::mov_reg_imm(to, Immediate::U32(imm)).bytes(),
            ),
    {
        self.mov_reg_imm(to, Immediate::U32(imm));
    }

    /// `mov` of a signed 32-bit immediate into a 32-bit or a 64-bit register.
    pub fn mov_reg_i32(&mut self, to: Register, imm: i32)
        requires
            to.matches_immediate(Immediate::I32(imm)),
        ensures
            final(self)@ == old(self)@.emit(
                crate::amd64::encoding::mov_reg_imm(to, Immediate::I32(imm)).bytes(),
            ),
    {
        self.mov_reg_imm(to, Immediate::I32(imm));
    }

    /// `mov` of a 64-bit immediate into a 64-bit register.
    pub fn mov_reg_u64(&mut self, to: Register, imm: u64)
        requires
            to.matches_immediate(Immediate::U64(imm)),
        ensures
            final(self)@ == old(self)@.emit(
                crate::amd64::encoding::mov_reg_imm(to, Immediate::U64(imm)).bytes(),
            ),
    {
        self.mov_reg_imm(to, Immediate::U64(imm));
    }

    /// `mov` of a signed 64-bit immediate into a 64-bit register.
    pub fn mov_reg_i64(&mut self, to: Register, imm: i64)
        requires
            to.matches_immediate(Immediate::I64(imm)),
        ensures
            final(self)@ == old(self)@.emit(
                crate::amd64::encoding::mov_reg_imm(to, Immediate::I64(imm)).bytes(),
            ),
    {
        self.mov_reg_imm(to, Immediate::I64(imm));
    }

    /// `mov` from one register into another of the same width.
    pub fn mov_reg_reg(&mut self, to: Register, from: Register)
        requires
            to.matches_register(from),
        ensures
            final(self)@ == old(self)@.emit(crate::amd64::encoding::mov_reg_reg(to, from).bytes()),
    {
        let mut out = Emitter::new();
        emit_prefixes(&mut out, to.b16p(), false, to.b64p(), from.rexp(), to.rexp());
        let opcode = if to.b8p() {
            0x88
        } else {
            0x89
        };
        out.emit_byte(opcode);
        emit_direct(&mut out, from.value(), to);
        assert(out@ =~= crate::amd64::encoding::mov_reg_reg(to, from).bytes());
        self.append(out.code());
    }

    /// `mov` from one register into another, refused with `Error::Width`
    /// where the two differ in width. A refusal emits nothing.
    pub fn try_mov_reg_reg(&mut self, to: Register, from: Register) -> (r: Result<(), Error>)
        ensures
            to.matches_register(from) ==> r is Ok && final(self)@ == old(self)@.emit(
                crate::amd64::encoding::mov_reg_reg(to, from).bytes(),
            ),
            !to.matches_register(from) ==> r == Err::<(), Error>(Error::Width) && final(self)@
                == old(self)@,
    {
        if to.matches_reg(from) {
            self.mov_reg_reg(to, from);
            Ok(())
        } else {
            Err(Error::Width)
        }
    }

    /// `mov` of an immediate into memory at the address in `to`, a register
    /// that is no narrower than the immediate. A 64-bit immediate is within
    /// the signed 32-bit range.
    pub fn mov_addr_imm(
        &mut self,
        to: Register,
        displacement: Option<Displacement>,
        imm: Immediate,
    )
        requires
            to.matches_immediate(imm),
            imm.storable(),
        ensures
            final(self)@ == old(self)@.emit(
                crate::amd64::encoding::mov_addr_imm(to, displacement, imm).bytes(),
            ),
    {
        let opcode = if imm.b8p() {
            0xc6
        } else {
            0xc7
        };
        let field = if imm.b64p() {
            let mut field = Emitter::new();
            field.emit_widened(imm, 4);
            assert(field@ =~= imm.widened(4));
            field.code()
        } else {
            imm.to_le_bytes()
        };
        self.emit_memory_immediate(opcode, 0, imm.b16p(), imm.b64p(), to, displacement, field);
    }

    /// `mov` of an immediate into memory, refused with `Error::Width` where
    /// the register that holds the address is narrower than the immediate,
    /// or a 64-bit immediate is outside the signed 32-bit range. A refusal
    /// emits nothing.
    pub fn try_mov_addr_imm(
        &mut self,
        to: Register,
        displacement: Option<Displacement>,
        imm: Immediate,
    ) -> (r: Result<(), Error>)
        ensures
            to.matches_immediate(imm) && imm.storable() ==> r is Ok && final(self)@ == old(
                self,
            )@.emit(crate::amd64::encoding::mov_addr_imm(to, displacement, imm).bytes()),
            !(to.matches_immediate(imm) && imm.storable()) ==> r == Err::<(), Error>(Error::Width)
                && final(self)@ == old(self)@,
    {
        if to.matches_imm(imm) && imm.storablep() {
            self.mov_addr_imm(to, displacement, imm);
            Ok(())
        } else {
            Err(Error::Width)
        }
    }

    /// `mov` of a signed 32-bit immediate into 64 bits of memory at the
    /// address in `to`.
    pub fn mov_addr_i32(&mut self, to: Register, displacement: Option<Displacement>, imm: i32)
        ensures
            final(self)@ == old(self)@.emit(
                crate::amd64::encoding::mov_addr_i32(to, displacement, imm).bytes(),
            ),
    {
        self.emit_memory_immediate(
            0xc7,
            0,
            false,
            true,
            to,
            displacement,
            Immediate::I32(imm).to_le_bytes(),
        );
    }

    /// `mov` of a byte into memory at the address in `to`.
    pub fn mov_addr_u8(&mut self, to: Register, imm: u8)
        ensures
            final(self)@ == old(self)@.emit(
                crate::amd64::encoding::mov_addr_imm(to, None, Immediate::U8(imm)).bytes(),
            ),
    {
        self.emit_memory_immediate(
            0xc6,
            0,
            false,
            false,
            to,
            None,
            Immediate::U8(imm).to_le_bytes(),
        );
        assert(!Immediate::U8(imm).is_64bit());
    }

    /// `mov` from memory at the address in `addr` into a register.
    pub fn mov_reg_addr(
        &mut self,
        to: Register,
        addr: Register,
        displacement: Option<Displacement>,
    )
        requires
            addressable(addr),
        ensures
            final(self)@ == old(self)@.emit(
                crate::amd64::encoding::mov_reg_addr(to, addr, displacement).bytes(),
            ),
    {
        let opcode = if to.b8p() {
            0x8a
        } else {
            0x8b
        };
        self.emit_memory_register(opcode, addr, to, displacement);
    }

    /// `mov` from memory into a register, refused with `Error::Width` where
    /// `addr` cannot hold an address. A refusal emits nothing.
    pub fn try_mov_reg_addr(
        &mut self,
        to: Register,
        addr: Register,
        displacement: Option<Displacement>,
    ) -> (r: Result<(), Error>)
        ensures
            addressable(addr) ==> r is Ok && final(self)@ == old(self)@.emit(
                crate::amd64::encoding::mov_reg_addr(to, addr, displacement).bytes(),
            ),
            !addressable(addr) ==> r == Err::<(), Error>(Error::Width) && final(self)@ == old(
                self,
            )@,
    {
        if addr.b64p() || addr.b32p() {
            self.mov_reg_addr(to, addr, displacement);
            Ok(())
        } else {
            Err(Error::Width)
        }
    }

    /// `mov` from a register into memory at the address in `addr`.
    pub fn mov_addr_reg(
        &mut self,
        addr: Register,
        from: Register,
        displacement: Option<Displacement>,
    )
        requires
            addressable(addr),
        ensures
            final(self)@ == old(self)@.emit(
                crate::amd64::encoding::mov_addr_reg(addr, from, displacement).bytes(),
            ),
    {
        let opcode = if from.b8p() {
            0x88
        } else {
            0x89
        };
        self.emit_memory_register(opcode, addr, from, displacement);
    }

    /// `mov` from a register into memory, refused with `Error::Width` where
    /// `addr` cannot hold an address. A refusal emits nothing.
    pub fn try_mov_addr_reg(
        &mut self,
        addr: Register,
        from: Register,
        displacement: Option<Displacement>,
    ) -> (r: Result<(), Error>)
        ensures
            addressable(addr) ==> r is Ok && final(self)@ == old(self)@.emit(
                crate::amd64::encoding::mov_addr_reg(addr, from, displacement).bytes(),
            ),
            !addressable(addr) ==> r == Err::<(), Error>(Error::Width) && final(self)@ == old(
                self,
            )@,
    {
        if addr.b64p() || addr.b32p() {
            self.mov_addr_reg(addr, from, displacement);
            Ok(())
        } else {
            Err(Error::Width)
        }
    }
}

} // verus!
