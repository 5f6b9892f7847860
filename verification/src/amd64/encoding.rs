//! What each instruction looks like in bytes.
//!
//! Every instruction is made of the same parts in the same order: the
//! operand-size override, the address-size override, the REX prefix, the
//! opcode, the ModR/M byte, the SIB byte, the displacement and the immediate.
//! An [`Encoding`] names the parts that an instruction has, and
//! [`Encoding::bytes`] puts them in that order. The functions of this module
//! say which parts each instruction of the assembler has.

use crate::amd64::aso::ADDRESS_SIZE_OVERRIDE;
use crate::amd64::modrm::modrm_byte;
use crate::amd64::oso::OPERAND_SIZE_OVERRIDE;
use crate::amd64::register::Register;
use crate::amd64::rex::rex_byte;
use crate::amd64::sib::{sib_byte, NO_INDEX};
use crate::bytes::{fits_signed, le_bytes, twos_complement};
use crate::syntax::{Displacement, Immediate};
use vstd::prelude::*;

verus! {

/// Where the operand of an instruction is, as its ModR/M byte says it.
pub enum Addressing {
    /// The instruction has no ModR/M byte.
    Implied,
    /// A register operand: `rm` names the register, `reg` a second register
    /// or the extension of the opcode.
    Direct { reg: u8, rm: u8 },
    /// A memory operand at the address in the register `base`, moved by
    /// `displacement` where there is one.
    Indirect { reg: u8, base: u8, displacement: Option<Displacement> },
    /// A memory operand at the 32-bit address that follows the instruction
    /// as its immediate.
    Absolute { reg: u8 },
}

impl Addressing {
    /// The `mod` field of the ModR/M byte: `11` for a register; for a
    /// memory operand `01` with a displacement of 8 bits, `10` with a wider
    /// one, and `00` without one. A base register whose code is `101` has no
    /// form without a displacement: it takes `01` and a displacement of
    /// zero.
    pub open spec fn mode(self) -> u8 {
        match self {
            Addressing::Direct { .. } => 0b11,
            Addressing::Indirect { base, displacement, .. } => match displacement {
                None => if base == 0b101 {
                    0b01
                } else {
                    0b00
                },
                Some(Displacement::Disp8(_)) => 0b01,
                Some(_) => 0b10,
            },
            _ => 0b00,
        }
    }

    /// The displacement as the instruction holds it: one byte for a
    /// displacement of 8 bits; four bytes for a wider one, its sign
    /// extended; one byte of zero where the base register has no form
    /// without a displacement; else nothing.
    pub open spec fn displacement_bytes(self) -> Seq<u8> {
        match self {
            Addressing::Indirect { base, displacement, .. } => match displacement {
                None => if base == 0b101 {
                    seq![0u8]
                } else {
                    Seq::empty()
                },
                Some(Displacement::Disp8(d)) => Displacement::Disp8(d).bytes(),
                Some(d) => le_bytes(twos_complement(d.value(), 4), 4),
            },
            _ => Seq::empty(),
        }
    }

    /// Whether every field is within its width: three bits for a register or
    /// for the extension of an opcode.
    pub open spec fn fields_in_range(self) -> bool {
        match self {
            Addressing::Implied => true,
            Addressing::Direct { reg, rm } => reg < 8 && rm < 8,
            Addressing::Indirect { reg, base, .. } => reg < 8 && base < 8,
            Addressing::Absolute { reg } => reg < 8,
        }
    }

    /// Whether a SIB byte follows the ModR/M byte: the operand is in memory
    /// and the `rm` field holds `100`.
    pub open spec fn has_sib(self) -> bool {
        match self {
            Addressing::Indirect { base, .. } => base == 0b100,
            Addressing::Absolute { .. } => true,
            _ => false,
        }
    }

    /// The ModR/M byte, the SIB byte where one is required, and the bytes of
    /// the displacement where there is one, in this order.
    pub open spec fn bytes(self) -> Seq<u8> {
        match self {
            Addressing::Implied => Seq::empty(),
            Addressing::Direct { reg, rm } => seq![modrm_byte(0b11, reg, rm)],
            Addressing::Indirect { reg, base, displacement } => seq![
                modrm_byte(self.mode(), reg, base),
            ] + (if self.has_sib() {
                seq![sib_byte(0, NO_INDEX, base)]
            } else {
                Seq::empty()
            }) + self.displacement_bytes(),
            Addressing::Absolute { reg } => seq![
                modrm_byte(0b00, reg, 0b100),
                sib_byte(0, NO_INDEX, 0b101),
            ],
        }
    }
}

/// The prefixes that the given needs call for, in their fixed order:
/// operand-size override, address-size override, and a REX prefix exactly when
/// one of its flags is needed.
pub open spec fn prefix_bytes(
    operand16: bool,
    address32: bool,
    wide: bool,
    reg_extended: bool,
    base_extended: bool,
) -> Seq<u8> {
    (if operand16 {
        seq![OPERAND_SIZE_OVERRIDE]
    } else {
        Seq::empty()
    }) + (if address32 {
        seq![ADDRESS_SIZE_OVERRIDE]
    } else {
        Seq::empty()
    }) + (if wide || reg_extended || base_extended {
        seq![rex_byte(wide, reg_extended, false, base_extended)]
    } else {
        Seq::empty()
    })
}

/// The parts of one instruction.
pub struct Encoding {
    /// The operand is 16 bits wide: the operand-size override comes first.
    pub operand16: bool,
    /// The memory operand has a 32-bit base register: the address-size
    /// override comes next.
    pub address32: bool,
    /// REX.W: the operand is 64 bits wide.
    pub wide: bool,
    /// REX.R: the register in the ModR/M `reg` field is an extended one.
    pub reg_extended: bool,
    /// REX.B: the register in the ModR/M `rm` field, the base register or
    /// the register in the opcode is an extended one.
    pub base_extended: bool,
    /// The opcode byte or bytes.
    pub opcode: Seq<u8>,
    /// The ModR/M byte and what belongs to it.
    pub addressing: Addressing,
    /// The bytes of the immediate.
    pub immediate: Seq<u8>,
}

impl Encoding {
    /// Whether the instruction has a REX prefix: exactly when one of its
    /// flags is needed.
    pub open spec fn has_rex(self) -> bool {
        self.wide || self.reg_extended || self.base_extended
    }

    /// The prefixes of the instruction, in their fixed order: operand-size
    /// override, address-size override, REX.
    pub open spec fn prefixes(self) -> Seq<u8> {
        prefix_bytes(
            self.operand16,
            self.address32,
            self.wide,
            self.reg_extended,
            self.base_extended,
        )
    }

    /// The instruction in bytes: prefixes, opcode, ModR/M with SIB and
    /// displacement, immediate.
    pub open spec fn bytes(self) -> Seq<u8> {
        self.prefixes() + self.opcode + self.addressing.bytes() + self.immediate
    }

    /// Where the REX prefix stands among the bytes, if the instruction has
    /// one: behind the two overrides.
    pub open spec fn rex_position(self) -> int {
        (if self.operand16 {
            1int
        } else {
            0int
        }) + (if self.address32 {
            1int
        } else {
            0int
        })
    }
}

/// Whether a register can hold the address of a memory operand: it is a
/// 64-bit register, or a 32-bit one, which takes the address-size override.
pub open spec fn addressable(base: Register) -> bool {
    base.is_64bit() || base.is_32bit()
}

/// An instruction without operands.
pub open spec fn plain(opcode: Seq<u8>) -> Encoding {
    Encoding {
        operand16: false,
        address32: false,
        wide: false,
        reg_extended: false,
        base_extended: false,
        opcode,
        addressing: Addressing::Implied,
        immediate: Seq::empty(),
    }
}

/// An instruction that names its one register in the low three bits of the
/// opcode and works on 64 bits by default, on 16 bits with the operand-size
/// override.
pub open spec fn in_opcode(opcode: u8, register: Register) -> Encoding {
    Encoding {
        operand16: register.is_16bit(),
        base_extended: register.needs_extended_prefix(),
        opcode: seq![(opcode + register.code()) as u8],
        ..plain(Seq::empty())
    }
}

/// An instruction on a register and an immediate: `extension` in the `reg`
/// field, the register in the `rm` field.
pub open spec fn register_immediate(
    opcode: u8,
    extension: u8,
    to: Register,
    immediate: Seq<u8>,
) -> Encoding {
    Encoding {
        operand16: to.is_16bit(),
        address32: false,
        wide: to.is_64bit(),
        reg_extended: false,
        base_extended: to.needs_extended_prefix(),
        opcode: seq![opcode],
        addressing: Addressing::Direct { reg: extension, rm: to.code() },
        immediate,
    }
}

/// An instruction on memory and a register: the register in the `reg` field,
/// the base register of the memory operand in the `rm` field. The operand is
/// as wide as the register.
pub open spec fn memory_register(
    opcode: u8,
    base: Register,
    register: Register,
    displacement: Option<Displacement>,
) -> Encoding {
    Encoding {
        operand16: register.is_16bit(),
        address32: base.is_32bit(),
        wide: register.is_64bit(),
        reg_extended: register.needs_extended_prefix(),
        base_extended: base.needs_extended_prefix(),
        opcode: seq![opcode],
        addressing: Addressing::Indirect { reg: register.code(), base: base.code(), displacement },
        immediate: Seq::empty(),
    }
}

/// An instruction on memory and an immediate: `extension` in the `reg`
/// field, the base register of the memory operand in the `rm` field.
pub open spec fn memory_immediate(
    opcode: u8,
    extension: u8,
    operand16: bool,
    wide: bool,
    base: Register,
    displacement: Option<Displacement>,
    immediate: Seq<u8>,
) -> Encoding {
    Encoding {
        operand16,
        address32: base.is_32bit(),
        wide,
        reg_extended: false,
        base_extended: base.needs_extended_prefix(),
        opcode: seq![opcode],
        addressing: Addressing::Indirect { reg: extension, base: base.code(), displacement },
        immediate,
    }
}

/// `push`: opcode `50` plus the register.
pub open spec fn push_reg(from: Register) -> Encoding {
    in_opcode(0x50, from)
}

/// `pop`: opcode `58` plus the register.
pub open spec fn pop_reg(to: Register) -> Encoding {
    in_opcode(0x58, to)
}

/// `ret`: the single byte `C3`.
pub open spec fn ret() -> Encoding {
    plain(seq![0xc3u8])
}

/// `syscall`: the two bytes `0F 05`.
pub open spec fn syscall() -> Encoding {
    plain(seq![0x0fu8, 0x05u8])
}

/// `call` to the address in a register: opcode `FF` with extension 2.
pub open spec fn call_addr(reg: Register) -> Encoding {
    Encoding {
        base_extended: reg.needs_extended_prefix(),
        addressing: Addressing::Direct { reg: 2, rm: reg.code() },
        ..plain(seq![0xffu8])
    }
}

/// `call` to the address stored at an absolute 32-bit address: opcode `FF`
/// with extension 2, then the address.
pub open spec fn call_imm(imm: Immediate) -> Encoding {
    Encoding {
        addressing: Addressing::Absolute { reg: 2 },
        immediate: imm.bytes(),
        ..plain(seq![0xffu8])
    }
}

/// `test` of two registers: opcode `84` for 8-bit registers, `85` for wider
/// ones; the first register in the `rm` field, the second in the `reg`
/// field. The operand is as wide as the first register.
pub open spec fn test(r1: Register, r2: Register) -> Encoding {
    Encoding {
        reg_extended: r2.needs_extended_prefix(),
        addressing: Addressing::Direct { reg: r2.code(), rm: r1.code() },
        ..register_immediate(if r1.is_8bit() { 0x84 } else { 0x85 }, 0, r1, Seq::empty())
    }
}

/// `mul` by a register: opcode `F6` for an 8-bit register, `F7` for a wider
/// one, with extension 4. The operand is as wide as the register.
pub open spec fn mul(from: Register) -> Encoding {
    register_immediate(if from.is_8bit() { 0xf6 } else { 0xf7 }, 4, from, Seq::empty())
}

/// `add` of an 8-bit immediate to a register: opcode `80` for an 8-bit
/// register, `83` for a wider one, for which the processor extends the sign
/// of the immediate; with extension 0.
pub open spec fn add_reg_u8(to: Register, imm: u8) -> Encoding {
    register_immediate(if to.is_8bit() { 0x80 } else { 0x83 }, 0, to, seq![imm])
}

/// `add` of a 32-bit immediate to a register: opcode `81` with extension 0.
pub open spec fn add_reg_u32(to: Register, imm: u32) -> Encoding {
    register_immediate(0x81, 0, to, le_bytes(imm as nat, 4))
}

/// `add` of an 8-bit immediate to a byte in memory: opcode `80` with
/// extension 0.
pub open spec fn add_addr_u8(addr: Register, imm: u8) -> Encoding {
    memory_immediate(0x80, 0, false, false, addr, None, seq![imm])
}

/// `add` of a register to memory: opcode `00` for an 8-bit register, `01`
/// for a wider one.
pub open spec fn add_addr_reg(
    addr: Register,
    from: Register,
    displacement: Option<Displacement>,
) -> Encoding {
    memory_register(if from.is_8bit() { 0x00 } else { 0x01 }, addr, from, displacement)
}

/// `sub` of an 8-bit immediate from a register: opcode `80` for an 8-bit
/// register, `83` for a wider one, for which the processor extends the sign
/// of the immediate; with extension 5.
pub open spec fn sub_reg_u8(to: Register, imm: u8) -> Encoding {
    register_immediate(if to.is_8bit() { 0x80 } else { 0x83 }, 5, to, seq![imm])
}

/// `sub` of a 32-bit immediate from a register: opcode `81` with extension 5.
pub open spec fn sub_reg_u32(to: Register, imm: u32) -> Encoding {
    register_immediate(0x81, 5, to, le_bytes(imm as nat, 4))
}

/// Whether a 64-bit number is the sign extension of its lowest byte.
pub open spec fn extends_byte(imm: u64) -> bool {
    imm <= 0x7f || imm >= 0xffff_ffff_ffff_ff80
}

/// Whether a 64-bit number is the sign extension of its lowest 32 bits. No
/// instruction subtracts any other 64-bit immediate.
pub open spec fn extends_dword(imm: u64) -> bool {
    imm <= 0x7fff_ffff || imm >= 0xffff_ffff_8000_0000
}

/// `sub` of a 64-bit immediate from a register, always with a 64-bit
/// operand: REX.W, then opcode `83` and the lowest byte of the immediate
/// where the immediate is the sign extension of that byte, else opcode `81`
/// and its lowest four bytes. The processor extends the sign.
pub open spec fn sub_reg_u64(to: Register, imm: u64) -> Encoding {
    if extends_byte(imm) {
        Encoding { wide: true, ..register_immediate(0x83, 5, to, seq![(imm % 0x100) as u8]) }
    } else {
        Encoding { wide: true, ..sub_reg_u32(to, (imm % 0x1_0000_0000) as u32) }
    }
}

/// `sub` of an 8-bit immediate from a byte in memory: opcode `80` with
/// extension 5.
pub open spec fn sub_addr_u8(addr: Register, imm: u8) -> Encoding {
    memory_immediate(0x80, 5, false, false, addr, None, seq![imm])
}

/// `sub` of a register from memory: opcode `28` for an 8-bit register, `29`
/// for a wider one.
pub open spec fn sub_addr_reg(
    addr: Register,
    from: Register,
    displacement: Option<Displacement>,
) -> Encoding {
    memory_register(if from.is_8bit() { 0x28 } else { 0x29 }, addr, from, displacement)
}

/// `and` of a register with a 32-bit immediate: opcode `81` with extension 4.
pub open spec fn and_reg_imm(to: Register, imm: u32) -> Encoding {
    register_immediate(0x81, 4, to, le_bytes(imm as nat, 4))
}

/// Whether a move of an immediate into a register takes the form with a
/// ModR/M byte and 32 bits of immediate, whose sign the processor extends:
/// the register is 64 bits wide, and the immediate is narrower and within
/// the signed 32-bit range.
pub open spec fn moves_extended(to: Register, imm: Immediate) -> bool {
    to.is_64bit() && !imm.is_64bit() && fits_signed(imm.value(), 4)
}

/// `mov` of an immediate into a register.
///
/// An 8-bit register takes opcode `B0` plus the register; a wider one takes
/// `B8` plus the register, with an immediate as wide as the register; but a
/// 64-bit register takes `C7`, a ModR/M byte that names the register, and
/// 32 bits of immediate where `moves_extended` holds.
pub open spec fn mov_reg_imm(to: Register, imm: Immediate) -> Encoding {
    Encoding {
        operand16: to.is_16bit(),
        address32: false,
        wide: to.is_64bit(),
        reg_extended: false,
        base_extended: to.needs_extended_prefix(),
        opcode: if to.is_8bit() {
            seq![(0xb0 + to.code()) as u8]
        } else if moves_extended(to, imm) {
            seq![0xc7u8]
        } else {
            seq![(0xb8 + to.code()) as u8]
        },
        addressing: if moves_extended(to, imm) {
            Addressing::Direct { reg: 0, rm: to.code() }
        } else {
            Addressing::Implied
        },
        immediate: if moves_extended(to, imm) {
            imm.widened(4)
        } else {
            imm.widened(to.width())
        },
    }
}

/// `mov` from one register into another of the same width: opcode `88` for
/// 8-bit registers, `89` for wider ones; the source in the `reg` field, the
/// destination in the `rm` field.
pub open spec fn mov_reg_reg(to: Register, from: Register) -> Encoding {
    Encoding {
        reg_extended: from.needs_extended_prefix(),
        addressing: Addressing::Direct { reg: from.code(), rm: to.code() },
        ..register_immediate(if to.is_8bit() { 0x88 } else { 0x89 }, 0, to, Seq::empty())
    }
}

/// `mov` of an immediate into memory: opcode `C6` for an 8-bit immediate,
/// `C7` for a wider one. The operand is as wide as the immediate; of a
/// 64-bit immediate the instruction holds 32 bits, whose sign the processor
/// extends.
pub open spec fn mov_addr_imm(
    to: Register,
    displacement: Option<Displacement>,
    imm: Immediate,
) -> Encoding {
    memory_immediate(
        if imm.is_8bit() { 0xc6 } else { 0xc7 },
        0,
        imm.is_16bit(),
        imm.is_64bit(),
        to,
        displacement,
        if imm.is_64bit() {
            imm.widened(4)
        } else {
            imm.bytes()
        },
    )
}

/// `mov` of a 32-bit immediate into 64 bits of memory: REX.W, opcode `C7`.
pub open spec fn mov_addr_i32(
    to: Register,
    displacement: Option<Displacement>,
    imm: i32,
) -> Encoding {
    memory_immediate(0xc7, 0, false, true, to, displacement, Immediate::I32(imm).bytes())
}

/// `mov` from memory into a register: opcode `8A` for an 8-bit register,
/// `8B` for a wider one; the destination in the `reg` field.
pub open spec fn mov_reg_addr(
    to: Register,
    addr: Register,
    displacement: Option<Displacement>,
) -> Encoding {
    memory_register(if to.is_8bit() { 0x8a } else { 0x8b }, addr, to, displacement)
}

/// `mov` from a register into memory: opcode `88` for an 8-bit register,
/// `89` for a wider one; the source in the `reg` field.
pub open spec fn mov_addr_reg(
    addr: Register,
    from: Register,
    displacement: Option<Displacement>,
) -> Encoding {
    memory_register(if from.is_8bit() { 0x88 } else { 0x89 }, addr, from, displacement)
}

/// Whether a byte, found where a prefix may stand, is a REX prefix.
pub open spec fn is_rex(byte: u8) -> bool {
    0x40 <= byte <= 0x4f
}

/// An instruction has a REX prefix exactly when one of its flags is needed.
/// Where it has one, the prefix stands behind the two overrides; where it has
/// none, the opcode stands there.
pub proof fn lemma_rex_is_present_when_needed(e: Encoding)
    requires
        e.opcode.len() > 0,
    ensures
        e.has_rex() <==> e.wide || e.reg_extended || e.base_extended,
        e.rex_position() < e.bytes().len(),
        e.has_rex() ==> is_rex(e.bytes()[e.rex_position()]),
        !e.has_rex() ==> e.bytes()[e.rex_position()] == e.opcode[0],
{
}

/// A move between two registers has a REX prefix exactly when the operand is
/// 64 bits wide or one of the two registers is an extended one.
pub proof fn lemma_mov_reg_reg_rex(to: Register, from: Register)
    ensures
        is_rex(mov_reg_reg(to, from).bytes()[mov_reg_reg(to, from).rex_position()]) <==> (
        to.is_64bit() || to.needs_extended_prefix() || from.needs_extended_prefix()),
        to.is_32bit() && !to.needs_extended_prefix() && !from.needs_extended_prefix()
            ==> mov_reg_reg(to, from).bytes() == seq![
            0x89u8,
            modrm_byte(0b11, from.code(), to.code()),
        ],
{
    lemma_rex_is_present_when_needed(mov_reg_reg(to, from));
    if to.is_32bit() && !to.needs_extended_prefix() && !from.needs_extended_prefix() {
        assert(mov_reg_reg(to, from).bytes() =~= seq![
            0x89u8,
            modrm_byte(0b11, from.code(), to.code()),
        ]);
    }
}

/// A test of two registers has a REX prefix exactly when the operand is 64
/// bits wide or one of the two registers is an extended one.
pub proof fn lemma_test_rex(r1: Register, r2: Register)
    ensures
        is_rex(test(r1, r2).bytes()[test(r1, r2).rex_position()]) <==> (r1.is_64bit()
            || r1.needs_extended_prefix() || r2.needs_extended_prefix()),
{
    lemma_rex_is_present_when_needed(test(r1, r2));
}

/// An instruction on memory and a register has a REX prefix exactly when
/// the operand is 64 bits wide, or the register or the base register is an
/// extended one.
pub proof fn lemma_memory_register_rex(
    opcode: u8,
    base: Register,
    register: Register,
    displacement: Option<Displacement>,
)
    ensures
        memory_register(opcode, base, register, displacement).has_rex() <==> (register.is_64bit()
            || register.needs_extended_prefix() || base.needs_extended_prefix()),
        !is_rex(opcode) ==> (is_rex(
            memory_register(opcode, base, register, displacement).bytes()[memory_register(
                opcode,
                base,
                register,
                displacement,
            ).rex_position()],
        ) <==> memory_register(opcode, base, register, displacement).has_rex()),
{
    lemma_rex_is_present_when_needed(memory_register(opcode, base, register, displacement));
}

/// The fields of the addressing bytes of every instruction are within their
/// width: no register code and no extension of an opcode is wider than
/// three bits.
pub proof fn lemma_instruction_fields_in_range(
    to: Register,
    from: Register,
    displacement: Option<Displacement>,
    imm: Immediate,
    byte: u8,
    number: u32,
    wide: u64,
    word: i32,
)
    ensures
        to.code() < 8,
        push_reg(to).addressing.fields_in_range(),
        pop_reg(to).addressing.fields_in_range(),
        ret().addressing.fields_in_range(),
        syscall().addressing.fields_in_range(),
        call_addr(to).addressing.fields_in_range(),
        call_imm(imm).addressing.fields_in_range(),
        test(to, from).addressing.fields_in_range(),
        self::mul(to).addressing.fields_in_range(),
        add_reg_u8(to, byte).addressing.fields_in_range(),
        add_reg_u32(to, number).addressing.fields_in_range(),
        add_addr_u8(to, byte).addressing.fields_in_range(),
        add_addr_reg(to, from, displacement).addressing.fields_in_range(),
        sub_reg_u8(to, byte).addressing.fields_in_range(),
        sub_reg_u32(to, number).addressing.fields_in_range(),
        sub_reg_u64(to, wide).addressing.fields_in_range(),
        sub_addr_u8(to, byte).addressing.fields_in_range(),
        sub_addr_reg(to, from, displacement).addressing.fields_in_range(),
        and_reg_imm(to, number).addressing.fields_in_range(),
        mov_reg_imm(to, imm).addressing.fields_in_range(),
        mov_reg_reg(to, from).addressing.fields_in_range(),
        mov_addr_imm(to, displacement, imm).addressing.fields_in_range(),
        mov_addr_i32(to, displacement, word).addressing.fields_in_range(),
        mov_reg_addr(to, from, displacement).addressing.fields_in_range(),
        mov_addr_reg(to, from, displacement).addressing.fields_in_range(),
{
}

/// The fields of a ModR/M or SIB byte can be read back from the byte: a field
/// that is within its width does not reach into its neighbours.
pub proof fn lemma_fields_do_not_overlap(high: u8, middle: u8, low: u8)
    requires
        high < 4,
        middle < 8,
        low < 8,
    ensures
        modrm_byte(high, middle, low) == sib_byte(high, middle, low),
        modrm_byte(high, middle, low) / 64 == high,
        (modrm_byte(high, middle, low) / 8) % 8 == middle,
        modrm_byte(high, middle, low) % 8 == low,
{
    let byte: int = 64 * high + 8 * middle + low;
    assert(byte == modrm_byte(high, middle, low));
    assert(byte / 64 == high && (byte / 8) % 8 == middle && byte % 8 == low) by (nonlinear_arith)
        requires
            byte == 64 * high + 8 * middle + low,
            0 <= high < 4,
            0 <= middle < 8,
            0 <= low < 8,
    ;
}

/// The parts of an instruction come in their fixed order, whatever the
/// instruction: the operand-size override, the address-size override, the
/// REX prefix, the opcode, the ModR/M byte with SIB byte and displacement,
/// the immediate.
pub proof fn lemma_parts_are_in_order(e: Encoding)
    ensures
        e.bytes() == (if e.operand16 {
            seq![OPERAND_SIZE_OVERRIDE]
        } else {
            Seq::empty()
        }) + (if e.address32 {
            seq![ADDRESS_SIZE_OVERRIDE]
        } else {
            Seq::empty()
        }) + (if e.has_rex() {
            seq![rex_byte(e.wide, e.reg_extended, false, e.base_extended)]
        } else {
            Seq::empty()
        }) + e.opcode + e.addressing.bytes() + e.immediate,
{
}

} // verus!
