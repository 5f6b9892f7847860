use incarnation::amd64::Error;
use incarnation::{Assembler, Displacement, Immediate, NonZeroI16, NonZeroI32, NonZeroI8, Register};

fn code_of(build: fn(&mut Assembler)) -> Vec<u8> {
    let mut assembler = Assembler::new();
    build(&mut assembler);
    assembler.finish()
}

#[test]
fn move_between_registers() {
    let code = code_of(|a| {
        a.mov_reg_reg(Register::R9, Register::R8);
        a.mov_reg_reg(Register::EAX, Register::EBX);
    });
    assert_eq!(code, vec![0x4d, 0x89, 0xc1, 0x89, 0xd8]);
}

#[test]
fn stack_adjustment_and_immediate_move() {
    let code = code_of(|a| {
        a.sub_reg_u8(Register::RSP, 8);
        a.mov_reg_imm(Register::RAX, Immediate::I32(1));
    });
    assert_eq!(code, vec![0x48, 0x83, 0xec, 0x08, 0x48, 0xc7, 0xc0, 0x01, 0, 0, 0]);
}

#[test]
fn byte_store_through_the_stack_pointer() {
    let code = code_of(|a| a.mov_addr_imm(Register::RSP, None, Immediate::U8(0x48)));
    assert_eq!(code, vec![0xc6, 0x04, 0x24, 0x48]);
}

#[test]
fn syscall_alone() {
    assert_eq!(code_of(|a| a.syscall()), vec![0x0f, 0x05]);
}

#[test]
fn ret_alone() {
    assert_eq!(code_of(|a| a.ret()), vec![0xc3]);
}

#[test]
fn push_and_pop() {
    assert_eq!(code_of(|a| a.push_reg(Register::RAX)), vec![0x50]);
    assert_eq!(code_of(|a| a.push_reg(Register::R8)), vec![0x41, 0x50]);
    assert_eq!(code_of(|a| a.pop_reg(Register::RDI)), vec![0x5f]);
    assert_eq!(code_of(|a| a.pop_reg(Register::R15)), vec![0x41, 0x5f]);
    assert_eq!(code_of(|a| a.push_reg(Register::AX)), vec![0x66, 0x50]);
    assert_eq!(code_of(|a| a.pop_reg(Register::R9W)), vec![0x66, 0x41, 0x59]);
}

#[test]
fn calls() {
    assert_eq!(code_of(|a| a.call_addr(Register::RAX)), vec![0xff, 0xd0]);
    assert_eq!(code_of(|a| a.call_addr(Register::R8)), vec![0x41, 0xff, 0xd0]);
    assert_eq!(code_of(|a| a.call_reg(Register::R8)), vec![0x41, 0xff, 0xd0]);
    assert_eq!(
        code_of(|a| a.call_imm(Immediate::U32(0x1000))),
        vec![0xff, 0x14, 0x25, 0x00, 0x10, 0, 0]
    );
}

#[test]
fn test_of_two_registers() {
    assert_eq!(code_of(|a| a.test(Register::RAX, Register::RBX)), vec![0x48, 0x85, 0xd8]);
    assert_eq!(code_of(|a| a.test(Register::EAX, Register::R8D)), vec![0x44, 0x85, 0xc0]);
    assert_eq!(code_of(|a| a.test(Register::R8D, Register::EAX)), vec![0x41, 0x85, 0xc0]);
    assert_eq!(code_of(|a| a.test(Register::ECX, Register::EDX)), vec![0x85, 0xd1]);
    assert_eq!(code_of(|a| a.test(Register::AL, Register::BL)), vec![0x84, 0xd8]);
    assert_eq!(code_of(|a| a.test(Register::AX, Register::BX)), vec![0x66, 0x85, 0xd8]);
    assert_eq!(code_of(|a| a.test(Register::R8L, Register::AL)), vec![0x41, 0x84, 0xc0]);
}

#[test]
fn additions() {
    assert_eq!(code_of(|a| a.add_reg_u8(Register::RDX, 16)), vec![0x48, 0x83, 0xc2, 0x10]);
    assert_eq!(code_of(|a| a.add_reg_u8(Register::R8D, 1)), vec![0x41, 0x83, 0xc0, 0x01]);
    assert_eq!(code_of(|a| a.add_reg_u8(Register::AX, 1)), vec![0x66, 0x83, 0xc0, 0x01]);
    assert_eq!(code_of(|a| a.add_reg_u8(Register::EBX, 2)), vec![0x83, 0xc3, 0x02]);
    assert_eq!(code_of(|a| a.add_reg_u8(Register::AL, 1)), vec![0x80, 0xc0, 0x01]);
    assert_eq!(code_of(|a| a.add_reg_u8(Register::R9L, 0xff)), vec![0x41, 0x80, 0xc1, 0xff]);
    assert_eq!(
        code_of(|a| a.add_reg_u32(Register::RAX, 0x12345678)),
        vec![0x48, 0x81, 0xc0, 0x78, 0x56, 0x34, 0x12]
    );
    assert_eq!(code_of(|a| a.add_addr_u8(Register::RAX, 8)), vec![0x80, 0x00, 0x08]);
    assert_eq!(code_of(|a| a.add_addr_u8(Register::RSP, 1)), vec![0x80, 0x04, 0x24, 0x01]);
    assert_eq!(code_of(|a| a.add_addr_u8(Register::EAX, 1)), vec![0x67, 0x80, 0x00, 0x01]);
    assert_eq!(code_of(|a| a.add_addr_u8(Register::R9, 1)), vec![0x41, 0x80, 0x01, 0x01]);
    assert_eq!(
        code_of(|a| a.add_addr_reg(Register::RDI, Register::AL, None)),
        vec![0x00, 0x07]
    );
    assert_eq!(
        code_of(|a| a.add_addr_reg(Register::R9, Register::R8, None)),
        vec![0x4d, 0x01, 0x01]
    );
    assert_eq!(
        code_of(|a| a.add_addr_reg(Register::RDI, Register::EAX, None)),
        vec![0x01, 0x07]
    );
    assert_eq!(
        code_of(|a| a.add_addr_reg(Register::RDI, Register::AX, None)),
        vec![0x66, 0x01, 0x07]
    );
    assert_eq!(
        code_of(|a| a.add_addr_reg(Register::EDI, Register::R9L, None)),
        vec![0x67, 0x44, 0x00, 0x0f]
    );
}

#[test]
fn subtractions() {
    assert_eq!(code_of(|a| a.sub_reg_u8(Register::RSP, 8)), vec![0x48, 0x83, 0xec, 0x08]);
    assert_eq!(code_of(|a| a.sub_reg_u8(Register::ECX, 1)), vec![0x83, 0xe9, 0x01]);
    assert_eq!(code_of(|a| a.sub_reg_u8(Register::BL, 2)), vec![0x80, 0xeb, 0x02]);
    assert_eq!(
        code_of(|a| a.sub_reg_u32(Register::RSP, 0x100)),
        vec![0x48, 0x81, 0xec, 0x00, 0x01, 0, 0]
    );
    assert_eq!(code_of(|a| a.sub_reg_u64(Register::R10, 1)), vec![0x49, 0x83, 0xea, 0x01]);
    assert_eq!(code_of(|a| a.sub_reg_u64(Register::RAX, 0x7f)), vec![0x48, 0x83, 0xe8, 0x7f]);
    assert_eq!(
        code_of(|a| a.sub_reg_u64(Register::RAX, 0x80)),
        vec![0x48, 0x81, 0xe8, 0x80, 0, 0, 0]
    );
    assert_eq!(
        code_of(|a| a.sub_reg_u64(Register::RAX, 0x7fff_ffff)),
        vec![0x48, 0x81, 0xe8, 0xff, 0xff, 0xff, 0x7f]
    );
    assert_eq!(
        code_of(|a| a.sub_reg_u64(Register::RAX, 0xffff_ffff_ffff_ff80)),
        vec![0x48, 0x83, 0xe8, 0x80]
    );
    assert_eq!(
        code_of(|a| a.sub_reg_u64(Register::EAX, 0xffff_ffff_8000_0000)),
        vec![0x48, 0x81, 0xe8, 0, 0, 0, 0x80]
    );
    let mut a = Assembler::new();
    assert_eq!(a.try_sub_reg_u64(Register::RAX, 0x0102030405060708), Err(Error::Width));
    assert_eq!(a.try_sub_reg_u64(Register::RAX, 0x8000_0000), Err(Error::Width));
    assert_eq!(a.try_sub_reg_u64(Register::RAX, 0xffff_ffff_7fff_ffff), Err(Error::Width));
    assert_eq!(a.len(), 0);
    assert_eq!(a.try_sub_reg_u64(Register::RSP, 8), Ok(()));
    assert_eq!(a.finish(), vec![0x48, 0x83, 0xec, 0x08]);
    assert_eq!(code_of(|a| a.sub_addr_u8(Register::RAX, 8)), vec![0x80, 0x28, 0x08]);
    assert_eq!(
        code_of(|a| a.sub_addr_reg(Register::RSP, Register::CL, None)),
        vec![0x28, 0x0c, 0x24]
    );
    assert_eq!(
        code_of(|a| a.sub_addr_reg(Register::RDI, Register::RAX, None)),
        vec![0x48, 0x29, 0x07]
    );
    assert_eq!(
        code_of(|a| a.sub_addr_reg(Register::RDI, Register::CX, None)),
        vec![0x66, 0x29, 0x0f]
    );
}

#[test]
fn and_with_an_immediate() {
    assert_eq!(
        code_of(|a| a.and_reg_imm(Register::RSP, 0xffff_fff0)),
        vec![0x48, 0x81, 0xe4, 0xf0, 0xff, 0xff, 0xff]
    );
    assert_eq!(
        code_of(|a| a.and_reg_imm(Register::EAX, 1)),
        vec![0x81, 0xe0, 0x01, 0, 0, 0]
    );
}

#[test]
fn multiplication() {
    assert_eq!(code_of(|a| a.mul(Register::BL)), vec![0xf6, 0xe3]);
    assert_eq!(code_of(|a| a.mul(Register::R9L)), vec![0x41, 0xf6, 0xe1]);
    assert_eq!(code_of(|a| a.mul(Register::EBX)), vec![0xf7, 0xe3]);
    assert_eq!(code_of(|a| a.mul(Register::BX)), vec![0x66, 0xf7, 0xe3]);
    assert_eq!(code_of(|a| a.mul(Register::RBX)), vec![0x48, 0xf7, 0xe3]);
    assert_eq!(code_of(|a| a.mul(Register::R9)), vec![0x49, 0xf7, 0xe1]);
}

#[test]
fn immediate_into_register() {
    assert_eq!(code_of(|a| a.mov_reg_imm(Register::AL, Immediate::U8(5))), vec![0xb0, 0x05]);
    assert_eq!(
        code_of(|a| a.mov_reg_imm(Register::EAX, Immediate::U8(1))),
        vec![0xb8, 0x01, 0, 0, 0]
    );
    assert_eq!(
        code_of(|a| a.mov_reg_imm(Register::AX, Immediate::I8(-1))),
        vec![0x66, 0xb8, 0xff, 0xff]
    );
    assert_eq!(
        code_of(|a| a.mov_reg_imm(Register::R10D, Immediate::I16(-2))),
        vec![0x41, 0xba, 0xfe, 0xff, 0xff, 0xff]
    );
    assert_eq!(
        code_of(|a| a.mov_reg_imm(Register::RAX, Immediate::U8(5))),
        vec![0x48, 0xc7, 0xc0, 0x05, 0, 0, 0]
    );
    assert_eq!(
        code_of(|a| a.mov_reg_imm(Register::RAX, Immediate::I16(-2))),
        vec![0x48, 0xc7, 0xc0, 0xfe, 0xff, 0xff, 0xff]
    );
    assert_eq!(
        code_of(|a| a.mov_reg_imm(Register::RAX, Immediate::U32(0x8000_0000))),
        vec![0x48, 0xb8, 0, 0, 0, 0x80, 0, 0, 0, 0]
    );
    assert_eq!(
        code_of(|a| a.mov_reg_imm(Register::RAX, Immediate::U32(0x7fff_ffff))),
        vec![0x48, 0xc7, 0xc0, 0xff, 0xff, 0xff, 0x7f]
    );
    assert_eq!(code_of(|a| a.mov_reg_imm(Register::BH, Immediate::I8(-1))), vec![0xb7, 0xff]);
    assert_eq!(
        code_of(|a| a.mov_reg_imm(Register::AX, Immediate::U16(0x1234))),
        vec![0x66, 0xb8, 0x34, 0x12]
    );
    assert_eq!(
        code_of(|a| a.mov_reg_imm(Register::EAX, Immediate::U32(1))),
        vec![0xb8, 0x01, 0, 0, 0]
    );
    assert_eq!(
        code_of(|a| a.mov_reg_imm(Register::R8D, Immediate::I32(-1))),
        vec![0x41, 0xb8, 0xff, 0xff, 0xff, 0xff]
    );
    assert_eq!(
        code_of(|a| a.mov_reg_imm(Register::RAX, Immediate::I64(5))),
        vec![0x48, 0xb8, 5, 0, 0, 0, 0, 0, 0, 0]
    );
    assert_eq!(
        code_of(|a| a.mov_reg_imm(Register::R9, Immediate::U32(7))),
        vec![0x49, 0xc7, 0xc1, 0x07, 0, 0, 0]
    );
    assert_eq!(
        code_of(|a| a.mov_reg_imm(Register::R15, Immediate::U64(0x1122334455667788))),
        vec![0x49, 0xbf, 0x88, 0x77, 0x66, 0x55, 0x44, 0x33, 0x22, 0x11]
    );
}

#[test]
fn typed_register_moves() {
    assert_eq!(
        code_of(|a| a.mov_reg_i32(Register::RAX, 231)),
        vec![0x48, 0xc7, 0xc0, 0xe7, 0, 0, 0]
    );
    assert_eq!(
        code_of(|a| a.mov_reg_u32(Register::RDI, 42)),
        vec![0x48, 0xc7, 0xc7, 0x2a, 0, 0, 0]
    );
    assert_eq!(
        code_of(|a| a.mov_reg_u64(Register::RAX, 5)),
        vec![0x48, 0xb8, 5, 0, 0, 0, 0, 0, 0, 0]
    );
    assert_eq!(
        code_of(|a| a.mov_reg_i64(Register::RAX, -2)),
        vec![0x48, 0xb8, 0xfe, 0xff, 0xff, 0xff, 0xff, 0xff, 0xff, 0xff]
    );
}

#[test]
fn register_into_register() {
    assert_eq!(code_of(|a| a.mov_reg_reg(Register::AL, Register::BL)), vec![0x88, 0xd8]);
    assert_eq!(code_of(|a| a.mov_reg_reg(Register::AX, Register::BX)), vec![0x66, 0x89, 0xd8]);
    assert_eq!(code_of(|a| a.mov_reg_reg(Register::RSI, Register::RSP)), vec![0x48, 0x89, 0xe6]);
    assert_eq!(code_of(|a| a.mov_reg_reg(Register::R9D, Register::R8D)), vec![0x45, 0x89, 0xc1]);
    assert_eq!(code_of(|a| a.mov_reg_reg(Register::RAX, Register::R8)), vec![0x4c, 0x89, 0xc0]);
    assert_eq!(code_of(|a| a.mov_reg_reg(Register::R8, Register::RAX)), vec![0x49, 0x89, 0xc0]);
}

#[test]
fn immediate_into_memory() {
    assert_eq!(
        code_of(|a| a.mov_addr_imm(Register::RDI, None, Immediate::U8(0))),
        vec![0xc6, 0x07, 0x00]
    );
    assert_eq!(
        code_of(|a| a.mov_addr_imm(
            Register::RDI,
            Some(Displacement::Disp8(NonZeroI8::new(8).unwrap())),
            Immediate::U32(1)
        )),
        vec![0xc7, 0x47, 0x08, 0x01, 0, 0, 0]
    );
    assert_eq!(
        code_of(|a| a.mov_addr_imm(Register::R12, None, Immediate::U8(1))),
        vec![0x41, 0xc6, 0x04, 0x24, 0x01]
    );
    assert_eq!(
        code_of(|a| a.mov_addr_imm(Register::EDI, None, Immediate::U8(1))),
        vec![0x67, 0xc6, 0x07, 0x01]
    );
    assert_eq!(
        code_of(|a| a.mov_addr_imm(Register::RAX, None, Immediate::I64(-1))),
        vec![0x48, 0xc7, 0x00, 0xff, 0xff, 0xff, 0xff]
    );
    assert_eq!(
        code_of(|a| a.mov_addr_imm(Register::RAX, None, Immediate::U64(0x7fff_ffff))),
        vec![0x48, 0xc7, 0x00, 0xff, 0xff, 0xff, 0x7f]
    );
    let mut a = Assembler::new();
    assert_eq!(
        a.try_mov_addr_imm(Register::RAX, None, Immediate::U64(0x8000_0000)),
        Err(Error::Width)
    );
    assert_eq!(
        a.try_mov_addr_imm(Register::RAX, None, Immediate::I64(-0x8000_0001)),
        Err(Error::Width)
    );
    assert_eq!(a.len(), 0);
    assert_eq!(
        code_of(|a| a.mov_addr_imm(Register::RDI, None, Immediate::U16(0x1234))),
        vec![0x66, 0xc7, 0x07, 0x34, 0x12]
    );
    assert_eq!(code_of(|a| a.mov_addr_u8(Register::RSP, 72)), vec![0xc6, 0x04, 0x24, 0x48]);
    assert_eq!(
        code_of(|a| a.mov_addr_i32(Register::RSP, None, 72)),
        vec![0x48, 0xc7, 0x04, 0x24, 0x48, 0, 0, 0]
    );
    assert_eq!(
        code_of(|a| a.mov_addr_i32(Register::RDX, None, 5)),
        vec![0x48, 0xc7, 0x02, 0x05, 0, 0, 0]
    );
}

#[test]
fn memory_into_register() {
    assert_eq!(
        code_of(|a| a.mov_reg_addr(Register::RAX, Register::RDI, None)),
        vec![0x48, 0x8b, 0x07]
    );
    assert_eq!(code_of(|a| a.mov_reg_addr(Register::AL, Register::RDI, None)), vec![0x8a, 0x07]);
    assert_eq!(
        code_of(|a| a.mov_reg_addr(Register::R8, Register::R9, None)),
        vec![0x4d, 0x8b, 0x01]
    );
    assert_eq!(
        code_of(|a| a.mov_reg_addr(Register::R8, Register::RAX, None)),
        vec![0x4c, 0x8b, 0x00]
    );
    assert_eq!(
        code_of(|a| a.mov_reg_addr(Register::AX, Register::EBX, None)),
        vec![0x66, 0x67, 0x8b, 0x03]
    );
    assert_eq!(
        code_of(|a| a.mov_reg_addr(
            Register::ECX,
            Register::RSP,
            Some(Displacement::Disp8(NonZeroI8::new(16).unwrap()))
        )),
        vec![0x8b, 0x4c, 0x24, 0x10]
    );
}

#[test]
fn register_into_memory() {
    assert_eq!(
        code_of(|a| a.mov_addr_reg(Register::RDI, Register::RAX, None)),
        vec![0x48, 0x89, 0x07]
    );
    assert_eq!(
        code_of(|a| a.mov_addr_reg(Register::R9, Register::R8, None)),
        vec![0x4d, 0x89, 0x01]
    );
    assert_eq!(
        code_of(|a| a.mov_addr_reg(Register::R9, Register::RAX, None)),
        vec![0x49, 0x89, 0x01]
    );
    assert_eq!(
        code_of(|a| a.mov_addr_reg(
            Register::RDI,
            Register::AL,
            Some(Displacement::Disp8(NonZeroI8::new(-5).unwrap()))
        )),
        vec![0x88, 0x47, 0xfb]
    );
    assert_eq!(
        code_of(|a| a.mov_addr_reg(Register::RDI, Register::AX, None)),
        vec![0x66, 0x89, 0x07]
    );
    assert_eq!(
        code_of(|a| a.mov_reg_addr(Register::AX, Register::RDI, None)),
        vec![0x66, 0x8b, 0x07]
    );
}

#[test]
fn refused_moves_emit_nothing() {
    let mut a = Assembler::new();
    assert_eq!(a.try_mov_reg_imm(Register::AL, Immediate::U16(1)), Err(Error::Width));
    assert_eq!(a.try_mov_reg_imm(Register::EAX, Immediate::U64(1)), Err(Error::Width));
    assert_eq!(a.try_mov_reg_reg(Register::RAX, Register::EAX), Err(Error::Width));
    assert_eq!(a.try_mov_addr_imm(Register::EDI, None, Immediate::U64(1)), Err(Error::Width));
    assert_eq!(a.try_mov_reg_addr(Register::RAX, Register::AX, None), Err(Error::Width));
    assert_eq!(a.try_mov_addr_reg(Register::AL, Register::RAX, None), Err(Error::Width));
    assert_eq!(a.try_call_imm(Immediate::U8(1)), Err(Error::Width));
    assert_eq!(a.len(), 0);
    assert_eq!(a.finish(), vec![]);
}

#[test]
fn accepted_moves_emit_the_move() {
    let mut a = Assembler::new();
    assert_eq!(a.try_mov_reg_imm(Register::RAX, Immediate::I32(1)), Ok(()));
    assert_eq!(a.try_mov_reg_reg(Register::EAX, Register::EBX), Ok(()));
    assert_eq!(a.try_mov_addr_imm(Register::RSP, None, Immediate::U8(0x48)), Ok(()));
    assert_eq!(a.try_mov_reg_addr(Register::RAX, Register::RDI, None), Ok(()));
    assert_eq!(a.try_mov_addr_reg(Register::RDI, Register::RAX, None), Ok(()));
    assert_eq!(a.try_call_imm(Immediate::U32(0x10)), Ok(()));
    assert_eq!(
        a.finish(),
        vec![
            0x48, 0xc7, 0xc0, 0x01, 0, 0, 0, // mov rax, 1
            0x89, 0xd8, // mov eax, ebx
            0xc6, 0x04, 0x24, 0x48, // mov byte [rsp], 0x48
            0x48, 0x8b, 0x07, // mov rax, [rdi]
            0x48, 0x89, 0x07, // mov [rdi], rax
            0xff, 0x14, 0x25, 0x10, 0, 0, 0, // call [0x10]
        ]
    );
}

#[test]
fn displacements_of_every_width() {
    assert_eq!(
        code_of(|a| a.sub_addr_reg(
            Register::RDI,
            Register::AL,
            Some(Displacement::Disp16(NonZeroI16::new(-2).unwrap()))
        )),
        vec![0x28, 0x87, 0xfe, 0xff, 0xff, 0xff]
    );
    assert_eq!(
        code_of(|a| a.add_addr_reg(
            Register::RDI,
            Register::AL,
            Some(Displacement::Disp32(NonZeroI32::new(0x01020304).unwrap()))
        )),
        vec![0x00, 0x87, 0x04, 0x03, 0x02, 0x01]
    );
    assert_eq!(
        code_of(|a| a.mov_reg_addr(
            Register::RAX,
            Register::RSP,
            Some(Displacement::Disp32(NonZeroI32::new(0x100).unwrap()))
        )),
        vec![0x48, 0x8b, 0x84, 0x24, 0x00, 0x01, 0x00, 0x00]
    );
    assert_eq!(
        code_of(|a| a.mov_reg_addr(
            Register::RAX,
            Register::RDI,
            Some(Displacement::Disp16(NonZeroI16::new(0x1234).unwrap()))
        )),
        vec![0x48, 0x8b, 0x87, 0x34, 0x12, 0x00, 0x00]
    );
    assert_eq!(
        code_of(|a| a.mov_addr_reg(
            Register::RBP,
            Register::RAX,
            Some(Displacement::Disp8(NonZeroI8::new(8).unwrap()))
        )),
        vec![0x48, 0x89, 0x45, 0x08]
    );
}

#[test]
fn base_registers_without_a_plain_form() {
    assert_eq!(
        code_of(|a| a.mov_reg_addr(Register::RAX, Register::RBP, None)),
        vec![0x48, 0x8b, 0x45, 0x00]
    );
    assert_eq!(
        code_of(|a| a.mov_reg_addr(Register::RAX, Register::R13, None)),
        vec![0x49, 0x8b, 0x45, 0x00]
    );
    assert_eq!(
        code_of(|a| a.mov_addr_reg(Register::EBP, Register::ECX, None)),
        vec![0x67, 0x89, 0x4d, 0x00]
    );
    assert_eq!(code_of(|a| a.add_addr_u8(Register::RBP, 1)), vec![0x80, 0x45, 0x00, 0x01]);
    assert_eq!(
        code_of(|a| a.mov_reg_addr(Register::RAX, Register::R12, None)),
        vec![0x49, 0x8b, 0x04, 0x24]
    );
}

#[test]
fn same_instruction_in_two_sessions() {
    let mut first = Assembler::new();
    first.mov_reg_imm(Register::R9, Immediate::U32(7));
    let mut second = Assembler::new();
    second.ret();
    second.mov_reg_imm(Register::R9, Immediate::U32(7));
    let first = first.finish();
    let second = second.finish();
    assert_eq!(first[..], second[1..]);
    assert_eq!(code_of(|a| a.test(Register::R8, Register::R9)), code_of(|a| a.test(Register::R8, Register::R9)));
}

#[test]
fn rex_only_when_needed() {
    let low32 = [
        Register::EAX, Register::ECX, Register::EDX, Register::EBX,
        Register::ESP, Register::EBP, Register::ESI, Register::EDI,
    ];
    for to in low32 {
        for from in low32 {
            let mut assembler = Assembler::new();
            assembler.mov_reg_reg(to, from);
            let code = assembler.finish();
            assert_eq!(code.len(), 2);
            assert_eq!(code[0], 0x89);
        }
    }
    let wide = [Register::RAX, Register::R8, Register::R15, Register::RSP];
    for to in wide {
        for from in wide {
            let mut assembler = Assembler::new();
            assembler.mov_reg_reg(to, from);
            let code = assembler.finish();
            assert_eq!(code.len(), 3);
            assert_eq!(code[0] & 0xf0, 0x40);
            assert_eq!(code[0] & 0x08, 0x08);
            assert_eq!(code[0] & 0x04 != 0, from.rexp());
            assert_eq!(code[0] & 0x01 != 0, to.rexp());
        }
    }
    let mut assembler = Assembler::new();
    assembler.mov_reg_reg(Register::R10D, Register::EAX);
    assert_eq!(assembler.finish(), vec![0x41, 0x89, 0xc2]);
}

#[test]
fn appended_bytes_and_constants() {
    let mut assembler = Assembler::new();
    assembler.append(vec![1, 2, 3]);
    assert_eq!(assembler.len(), 3);
    assert_eq!(assembler.add_constant(vec![9, 9]), 0);
    assert_eq!(assembler.add_constant(vec![]), 1);
    assembler.ret();
    assert_eq!(assembler.code(), vec![1, 2, 3, 0xc3]);
}
