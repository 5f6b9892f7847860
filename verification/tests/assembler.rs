use incarnation::{Assembler, Displacement, Immediate, NonZeroI8, Register};

#[test]
fn assembler_basic() {
    let code = vec![0x4d, 0x89, 0xc1,
                    0x89, 0xd8,
                    0x48, 0x83, 0xec, 8, // sub 8, rsp
                    0xc6, 0x04, 0x24, 0x48,
                    0x48, 0xc7, 0xc0, 1, 0, 0, 0,
    ];
    let mut assembler = Assembler::new();
    assembler.mov_reg_reg(Register::R9, Register::R8);
    assembler.mov_reg_reg(Register::EAX, Register::EBX);
    assembler.sub_reg_u8(Register::RSP, 8);
    assembler.mov_addr_u8(Register::RSP, 72);
    assembler.mov_reg_i32(Register::RAX, 1);
    assert_eq!(code, assembler.finish());
}

#[test]
fn mod_basic() {
    let code = vec![0xff, 0xd0, // call *rax
                    0x41, 0xff, 0xd0, // call *r8
                    0x48, 0xb8, 0x05, 0, 0, 0, 0, 0, 0, 0, // movabs 5, rax
    ];
    let mut assembler = Assembler::new();
    assembler.call_addr(Register::RAX);
    assembler.call_addr(Register::R8);
    assembler.mov_reg_imm(Register::RAX, Immediate::I64(5));
    assert_eq!(code, assembler.finish());

    let code = vec![0x4d, 0x89, 0xc1, // mov r8, r9
    ];
    let mut assembler = Assembler::new();
    assembler.mov_reg_reg(Register::R9, Register::R8);
    assert_eq!(code, assembler.finish());

    let code = vec![0x4d, 0x89, 0xc1,
                    0x89, 0xd8,
                    0x45, 0x89, 0xc1,
                    0x48, 0x83, 0xec, 8, // sub 8, rsp
                    0x48, 0xc7, 0xc0, 1, 0, 0, 0,
                    0xc6, 0x07, 0,
                    0x8a, 0x07,
                    0x88, 0x47, 0xfb,
                    0x00, 0x47, 0xfb,
                    0x28, 0x07,
    ];
    let mut assembler = Assembler::new();
    assembler.mov_reg_reg(Register::R9, Register::R8);
    assembler.mov_reg_reg(Register::EAX, Register::EBX);
    assembler.mov_reg_reg(Register::R9D, Register::R8D);
    assembler.sub_reg_u8(Register::RSP, 8);
    assembler.mov_reg_imm(Register::RAX, Immediate::I32(1));
    assembler.mov_addr_imm(Register::RDI, None, Immediate::U8(0));
    assembler.mov_reg_addr(Register::AL, Register::RDI, None);
    assembler.mov_addr_reg(Register::RDI, Register::AL, Some(Displacement::Disp8(NonZeroI8::new(-5).unwrap())));
    assembler.add_addr_reg(Register::RDI, Register::AL, Some(Displacement::Disp8(NonZeroI8::new(-5).unwrap())));
    assembler.sub_addr_reg(Register::RDI, Register::AL, None);
    assert_eq!(code, assembler.finish());
}
