use incarnation::amd64::driver::{test_shape, Kind};
use incarnation::amd64::{assemble, Error, Mnemonic};
use incarnation::{
    Assembler, Displacement, Immediate, Instruction, NonZeroI8, Operand, Register, StringInterner,
};

struct Program {
    interner: StringInterner,
    instructions: Vec<Instruction>,
}

impl Program {
    fn new() -> Self {
        Program { interner: StringInterner::new(), instructions: Vec::new() }
    }

    fn reg(&mut self, name: &str) -> Operand {
        Operand::Register(self.interner.get_symbol(name.to_string()))
    }

    fn mem(&mut self, name: &str, displacement: Option<i8>) -> Operand {
        let displacement = displacement.map(|d| Displacement::Disp8(NonZeroI8::new(d).unwrap()));
        Operand::Address(displacement, self.interner.get_symbol(name.to_string()))
    }

    fn target(&mut self, name: &str) -> Operand {
        Operand::Label(self.interner.get_symbol(name.to_string()))
    }

    fn op(&mut self, mnemonic: &str, operands: Vec<Operand>) {
        let opcode = self.interner.get_symbol(mnemonic.to_string());
        self.instructions.push(Instruction::new(opcode, operands));
    }

    fn label(&mut self, text: &str) {
        let symbol = self.interner.get_symbol(text.to_string());
        self.instructions.push(Instruction::Label(symbol));
    }

    fn assemble(self) -> Result<Vec<u8>, Error> {
        assemble(self.instructions, &self.interner)
    }
}

fn imm(i: Immediate) -> Operand {
    Operand::Constant(i)
}

#[test]
fn exit_program() {
    let mut p = Program::new();
    let rax = p.reg("rax");
    p.op("mov", vec![rax, imm(Immediate::I32(231))]);
    let rdi = p.reg("rdi");
    p.op("mov", vec![rdi, imm(Immediate::I32(42))]);
    p.op("syscall", vec![]);
    let expected = {
        let mut assembler = Assembler::new();
        assembler.mov_reg_i32(Register::RAX, 231);
        assembler.mov_reg_i32(Register::RDI, 42);
        assembler.syscall();
        assembler.finish()
    };
    assert_eq!(p.assemble(), Ok(expected));
}

#[test]
fn hello_program() {
    let mut p = Program::new();
    let o = [p.reg("rax"), p.reg("rdi"), p.mem("rsp", None), p.reg("rsi"), p.reg("rsp"), p.reg("rdx")];
    p.op("mov", vec![o[0], imm(Immediate::I32(1))]);
    p.op("mov", vec![o[1], imm(Immediate::I32(1))]);
    p.op("mov", vec![o[2], imm(Immediate::U8(72))]);
    p.op("mov", vec![o[3], o[4]]);
    p.op("mov", vec![o[5], imm(Immediate::I32(1))]);
    p.op("syscall", vec![]);
    p.op("mov", vec![o[0], imm(Immediate::I32(231))]);
    p.op("mov", vec![o[1], imm(Immediate::I32(0))]);
    p.op("syscall", vec![]);
    assert_eq!(
        p.assemble(),
        Ok(vec![
            0x48, 0xc7, 0xc0, 0x01, 0, 0, 0,
            0x48, 0xc7, 0xc7, 0x01, 0, 0, 0,
            0xc6, 0x04, 0x24, 0x48,
            0x48, 0x89, 0xe6,
            0x48, 0xc7, 0xc2, 0x01, 0, 0, 0,
            0x0f, 0x05,
            0x48, 0xc7, 0xc0, 0xe7, 0, 0, 0,
            0x48, 0xc7, 0xc7, 0, 0, 0, 0,
            0x0f, 0x05,
        ])
    );
}

#[test]
fn every_mnemonic() {
    let mut p = Program::new();
    let (rax, rbx, r8, bl) = (p.reg("RAX"), p.reg("rbx"), p.reg("r8"), p.reg("bl"));
    let at_rdi = p.mem("rdi", None);
    let at_rdi_minus = p.mem("rdi", Some(-5));
    let end = p.target("end");
    p.label("start:");
    p.op("push", vec![rbx]);
    p.op("pop", vec![r8]);
    p.op("mov", vec![rax, at_rdi]);
    p.op("mov", vec![at_rdi_minus, rax]);
    p.op("add", vec![rax, imm(Immediate::U8(1))]);
    p.op("add", vec![rax, imm(Immediate::U32(1))]);
    p.op("add", vec![at_rdi, imm(Immediate::U8(2))]);
    p.op("add", vec![at_rdi_minus, bl]);
    p.op("sub", vec![rax, imm(Immediate::U8(1))]);
    p.op("sub", vec![rax, imm(Immediate::U32(1))]);
    p.op("sub", vec![rax, imm(Immediate::U64(1))]);
    p.op("sub", vec![at_rdi, imm(Immediate::U8(2))]);
    p.op("sub", vec![at_rdi, bl]);
    p.op("and", vec![rax, imm(Immediate::U32(0xff))]);
    p.op("mul", vec![bl]);
    p.op("test", vec![rax, rbx]);
    p.op("jz", vec![end]);
    p.op("jnz", vec![end]);
    p.op("je", vec![end]);
    p.op("jmp", vec![end]);
    p.op("call", vec![rax]);
    p.op("call", vec![imm(Immediate::U32(0x400000))]);
    p.op("call", vec![end]);
    p.label("end:");
    p.op("ret", vec![]);
    p.op("syscall", vec![]);
    let expected = {
        let d = Some(Displacement::Disp8(NonZeroI8::new(-5).unwrap()));
        let mut a = Assembler::new();
        a.label("start");
        a.push_reg(Register::RBX);
        a.pop_reg(Register::R8);
        a.mov_reg_addr(Register::RAX, Register::RDI, None);
        a.mov_addr_reg(Register::RDI, Register::RAX, d);
        a.add_reg_u8(Register::RAX, 1);
        a.add_reg_u32(Register::RAX, 1);
        a.add_addr_u8(Register::RDI, 2);
        a.add_addr_reg(Register::RDI, Register::BL, d);
        a.sub_reg_u8(Register::RAX, 1);
        a.sub_reg_u32(Register::RAX, 1);
        a.sub_reg_u64(Register::RAX, 1);
        a.sub_addr_u8(Register::RDI, 2);
        a.sub_addr_reg(Register::RDI, Register::BL, None);
        a.and_reg_imm(Register::RAX, 0xff);
        a.mul(Register::BL);
        a.test(Register::RAX, Register::RBX);
        a.jz("end");
        a.jnz("end");
        a.je("end");
        a.jmp("end");
        a.call_addr(Register::RAX);
        a.call_imm(Immediate::U32(0x400000));
        a.call_label("end");
        a.label("end");
        a.ret();
        a.syscall();
        a.finish()
    };
    assert_eq!(p.assemble(), Ok(expected));
}

#[test]
fn loop_with_a_backward_jump() {
    let mut p = Program::new();
    let rcx = p.reg("rcx");
    let again = p.target("again");
    p.label("again:");
    p.op("sub", vec![rcx, imm(Immediate::U8(1))]);
    p.op("test", vec![rcx, rcx]);
    p.op("jnz", vec![again]);
    p.op("ret", vec![]);
    assert_eq!(
        p.assemble(),
        Ok(vec![0x48, 0x83, 0xe9, 0x01, 0x48, 0x85, 0xc9, 0x0f, 0x85, 0xf3, 0xff, 0xff, 0xff, 0xc3])
    );
}

#[test]
fn empty_program() {
    assert_eq!(Program::new().assemble(), Ok(vec![]));
}

#[test]
fn unknown_mnemonic() {
    let mut p = Program::new();
    let rax = p.reg("rax");
    p.op("xchg", vec![rax, rax]);
    assert_eq!(p.assemble(), Err(Error::Opcode));
    let mut p = Program::new();
    p.op("MOV", vec![]);
    assert_eq!(p.assemble(), Err(Error::Opcode));
    let p = Program::new();
    let interner = p.interner;
    let instructions = vec![Instruction::new(incarnation::Symbol::new(3), vec![])];
    assert_eq!(assemble(instructions, &interner), Err(Error::Opcode));
}

#[test]
fn wrong_operands() {
    let mut p = Program::new();
    let rax = p.reg("rax");
    p.op("syscall", vec![rax]);
    assert_eq!(p.assemble(), Err(Error::Operands));
    let mut p = Program::new();
    let rax = p.reg("rax");
    p.op("mov", vec![rax]);
    assert_eq!(p.assemble(), Err(Error::Operands));
    let mut p = Program::new();
    let rax = p.reg("rax");
    p.op("mov", vec![rax, rax, rax]);
    assert_eq!(p.assemble(), Err(Error::Operands));
    let mut p = Program::new();
    let (a, b) = (p.mem("rax", None), p.mem("rbx", None));
    p.op("mov", vec![a, b]);
    assert_eq!(p.assemble(), Err(Error::Operands));
    let mut p = Program::new();
    p.op("push", vec![imm(Immediate::U8(1))]);
    assert_eq!(p.assemble(), Err(Error::Operands));
    let mut p = Program::new();
    let rax = p.reg("rax");
    p.op("jmp", vec![rax]);
    assert_eq!(p.assemble(), Err(Error::Operands));
    let mut p = Program::new();
    let l = p.target("l");
    p.op("mov", vec![l, imm(Immediate::U8(1))]);
    assert_eq!(p.assemble(), Err(Error::Operands));
    let mut p = Program::new();
    let at = p.mem("rax", Some(4));
    p.op("add", vec![at, imm(Immediate::U8(1))]);
    assert_eq!(p.assemble(), Err(Error::Operands));
}

#[test]
fn invalid_register() {
    let mut p = Program::new();
    let r = p.reg("rzx");
    p.op("push", vec![r]);
    assert_eq!(p.assemble(), Err(Error::Register));
    let mut p = Program::new();
    let (rax, m) = (p.reg("rax"), p.mem("nope", None));
    p.op("mov", vec![rax, m]);
    assert_eq!(p.assemble(), Err(Error::Register));
    let mut p = Program::new();
    let (rzx, rax) = (p.reg("rzx"), p.reg("rax"));
    p.op("test", vec![rzx, rax]);
    assert_eq!(p.assemble(), Err(Error::Register));
}

#[test]
fn number_and_kinds_come_before_names() {
    let mut p = Program::new();
    let r = p.reg("rzx");
    p.op("syscall", vec![r]);
    assert_eq!(p.assemble(), Err(Error::Operands));
    let mut p = Program::new();
    let r = p.reg("rzx");
    p.op("mov", vec![imm(Immediate::U8(1)), r]);
    assert_eq!(p.assemble(), Err(Error::ToConstant));
    let mut p = Program::new();
    let m = p.mem("nope", None);
    p.op("mov", vec![imm(Immediate::U8(1)), m]);
    assert_eq!(p.assemble(), Err(Error::ToConstant));
    let mut p = Program::new();
    let r = p.reg("rzx");
    p.op("mov", vec![r]);
    assert_eq!(p.assemble(), Err(Error::Operands));
    let mut p = Program::new();
    let (a, b) = (p.mem("nope", None), p.mem("rzx", None));
    p.op("mov", vec![a, b]);
    assert_eq!(p.assemble(), Err(Error::Operands));
    let mut p = Program::new();
    let r = p.reg("rzx");
    p.op("jmp", vec![r]);
    assert_eq!(p.assemble(), Err(Error::Operands));
    let mut p = Program::new();
    let (a, b, c) = (p.reg("rzx"), p.reg("rzy"), p.reg("rzz"));
    p.op("add", vec![a, b, c]);
    assert_eq!(p.assemble(), Err(Error::Operands));
    let mut p = Program::new();
    let r = p.reg("rzx");
    p.op("bogus", vec![r]);
    assert_eq!(p.assemble(), Err(Error::Opcode));
    let mut p = Program::new();
    let r = p.reg("rzx");
    p.op("mov", vec![r, imm(Immediate::U64(1))]);
    assert_eq!(p.assemble(), Err(Error::Register));
}

#[test]
fn shapes() {
    let mut p = Program::new();
    let (r, m, d, l) = (p.reg("x"), p.mem("x", None), p.mem("x", Some(4)), p.target("x"));
    let c = imm(Immediate::U8(1));
    assert_eq!(Kind::of_operand(&r), Kind::Register);
    assert_eq!(Kind::of_operand(&m), Kind::Memory);
    assert_eq!(Kind::of_operand(&d), Kind::Displaced);
    assert_eq!(Kind::of_operand(&c), Kind::Constant);
    assert_eq!(Kind::of_operand(&l), Kind::Label);
    assert_eq!(test_shape(Mnemonic::Ret, &vec![]), Ok(()));
    assert_eq!(test_shape(Mnemonic::Syscall, &vec![]), Ok(()));
    assert_eq!(test_shape(Mnemonic::Mov, &vec![]), Err(Error::Operands));
    assert_eq!(test_shape(Mnemonic::Push, &vec![r]), Ok(()));
    assert_eq!(test_shape(Mnemonic::Push, &vec![c]), Err(Error::Operands));
    assert_eq!(test_shape(Mnemonic::Call, &vec![r]), Ok(()));
    assert_eq!(test_shape(Mnemonic::Call, &vec![c]), Ok(()));
    assert_eq!(test_shape(Mnemonic::Call, &vec![l]), Ok(()));
    assert_eq!(test_shape(Mnemonic::Call, &vec![m]), Err(Error::Operands));
    assert_eq!(test_shape(Mnemonic::Je, &vec![l]), Ok(()));
    assert_eq!(test_shape(Mnemonic::Je, &vec![r]), Err(Error::Operands));
    assert_eq!(test_shape(Mnemonic::Ret, &vec![r]), Err(Error::Operands));
    assert_eq!(test_shape(Mnemonic::Mov, &vec![r, r]), Ok(()));
    assert_eq!(test_shape(Mnemonic::Mov, &vec![r, d]), Ok(()));
    assert_eq!(test_shape(Mnemonic::Mov, &vec![d, c]), Ok(()));
    assert_eq!(test_shape(Mnemonic::Mov, &vec![m, m]), Err(Error::Operands));
    assert_eq!(test_shape(Mnemonic::Mov, &vec![r, l]), Err(Error::Operands));
    assert_eq!(test_shape(Mnemonic::Mov, &vec![l, r]), Err(Error::Operands));
    assert_eq!(test_shape(Mnemonic::Mov, &vec![c, r]), Err(Error::ToConstant));
    assert_eq!(test_shape(Mnemonic::Mov, &vec![c, l]), Err(Error::ToConstant));
    assert_eq!(test_shape(Mnemonic::Add, &vec![c, r]), Err(Error::Operands));
    assert_eq!(test_shape(Mnemonic::Add, &vec![r, c]), Ok(()));
    assert_eq!(test_shape(Mnemonic::Add, &vec![m, c]), Ok(()));
    assert_eq!(test_shape(Mnemonic::Add, &vec![d, c]), Err(Error::Operands));
    assert_eq!(test_shape(Mnemonic::Sub, &vec![d, r]), Ok(()));
    assert_eq!(test_shape(Mnemonic::Sub, &vec![r, r]), Err(Error::Operands));
    assert_eq!(test_shape(Mnemonic::And, &vec![r, c]), Ok(()));
    assert_eq!(test_shape(Mnemonic::And, &vec![m, c]), Err(Error::Operands));
    assert_eq!(test_shape(Mnemonic::Test, &vec![r, r]), Ok(()));
    assert_eq!(test_shape(Mnemonic::Test, &vec![r, c]), Err(Error::Operands));
    assert_eq!(test_shape(Mnemonic::Mov, &vec![r, r, r]), Err(Error::Operands));
}

#[test]
fn move_to_a_constant() {
    let mut p = Program::new();
    let rax = p.reg("rax");
    p.op("mov", vec![imm(Immediate::U8(1)), rax]);
    assert_eq!(p.assemble(), Err(Error::ToConstant));
}

#[test]
fn mismatched_widths() {
    let mut p = Program::new();
    let (rax, eax) = (p.reg("rax"), p.reg("eax"));
    p.op("mov", vec![rax, eax]);
    assert_eq!(p.assemble(), Err(Error::Width));
    let mut p = Program::new();
    let al = p.reg("al");
    p.op("mov", vec![al, imm(Immediate::U16(1))]);
    assert_eq!(p.assemble(), Err(Error::Width));
    let mut p = Program::new();
    let (rax, at_ax) = (p.reg("rax"), p.mem("ax", None));
    p.op("mov", vec![rax, at_ax]);
    assert_eq!(p.assemble(), Err(Error::Width));
    let mut p = Program::new();
    let rax = p.reg("rax");
    p.op("sub", vec![rax, imm(Immediate::I8(1))]);
    assert_eq!(p.assemble(), Err(Error::Width));
    let mut p = Program::new();
    p.op("call", vec![imm(Immediate::U64(1))]);
    assert_eq!(p.assemble(), Err(Error::Width));
    let mut p = Program::new();
    let rax = p.reg("rax");
    p.op("sub", vec![rax, imm(Immediate::U64(0x1_0000_0000))]);
    assert_eq!(p.assemble(), Err(Error::Width));
    let mut p = Program::new();
    let ax = p.reg("ax");
    p.op("add", vec![ax, imm(Immediate::U32(1))]);
    assert_eq!(p.assemble(), Err(Error::Width));
    let mut p = Program::new();
    let al = p.reg("al");
    p.op("and", vec![al, imm(Immediate::U32(1))]);
    assert_eq!(p.assemble(), Err(Error::Width));
    let mut p = Program::new();
    let bx = p.reg("bx");
    p.op("sub", vec![bx, imm(Immediate::U32(1))]);
    assert_eq!(p.assemble(), Err(Error::Width));
    let mut p = Program::new();
    let at_rdi = p.mem("rdi", None);
    p.op("mov", vec![at_rdi, imm(Immediate::U64(0x1_0000_0000))]);
    assert_eq!(p.assemble(), Err(Error::Width));
    let mut p = Program::new();
    let at_edi = p.mem("edi", None);
    p.op("mov", vec![at_edi, imm(Immediate::U64(1))]);
    assert_eq!(p.assemble(), Err(Error::Width));
    let mut p = Program::new();
    let xmm = p.reg("xmm0");
    p.op("mov", vec![xmm, imm(Immediate::U8(1))]);
    assert_eq!(p.assemble(), Err(Error::Width));
}

#[test]
fn unknown_label() {
    let mut p = Program::new();
    let l = p.target("nowhere");
    p.op("jz", vec![l]);
    p.label("somewhere:");
    assert_eq!(p.assemble(), Err(Error::Label));
}

#[test]
fn jump_out_of_range() {
    let mut p = Program::new();
    let l = p.target("far");
    let rax = p.reg("rax");
    p.op("jmp", vec![l]);
    for _ in 0..13 {
        p.op("mov", vec![rax, imm(Immediate::U64(0))]);
    }
    p.label("far:");
    assert_eq!(p.assemble(), Err(Error::Range));
}

#[test]
fn failed_instruction_stops_the_program() {
    let mut p = Program::new();
    let l = p.target("nowhere");
    p.op("jz", vec![l]);
    p.op("bogus", vec![]);
    assert_eq!(p.assemble(), Err(Error::Opcode));
}

#[test]
fn error_messages() {
    assert_eq!(Error::Opcode.to_string(), "Invalid opcode");
    assert_eq!(Error::Operands.to_string(), "Incorrect number of operands");
    assert_eq!(Error::Register.to_string(), "Invalid register name");
    assert_eq!(Error::ToConstant.to_string(), "Cannot mov to a constant");
    assert_eq!(Error::InvalidConstant.to_string(), "Unable to parse constant to expected type");
    assert_eq!(Error::Width.to_string(), "Operand widths do not match");
    assert_eq!(Error::Label.to_string(), "Unknown label");
    assert_eq!(Error::Range.to_string(), "Jump out of range");
    let e: Error = "x".parse::<u8>().unwrap_err().into();
    assert_eq!(e, Error::InvalidConstant);
}

#[test]
fn mnemonics_by_name() {
    assert_eq!(Mnemonic::from_str("mov"), Some(Mnemonic::Mov));
    assert_eq!(Mnemonic::from_str("syscall"), Some(Mnemonic::Syscall));
    assert_eq!(Mnemonic::from_str("jnz"), Some(Mnemonic::Jnz));
    assert_eq!(Mnemonic::from_str("Mov"), None);
    assert_eq!(Mnemonic::from_str(""), None);
}

#[test]
fn operand_kinds() {
    let mut p = Program::new();
    let r = p.reg("rax");
    let m = p.mem("rbx", Some(3));
    let l = p.target("x");
    let c = imm(Immediate::U8(1));
    assert!(r.is_register() && !r.is_address() && !r.is_constant() && !r.is_label());
    assert!(m.is_address() && !m.is_register());
    assert!(c.is_constant() && l.is_label());
    assert_eq!(r.unwrap_register(), incarnation::Symbol::new(0));
    assert_eq!(m.unwrap_register(), incarnation::Symbol::new(1));
    assert_eq!(m.unwrap_disp(), Some(Displacement::Disp8(NonZeroI8::new(3).unwrap())));
    assert_eq!(Instruction::Label(incarnation::Symbol::new(7)).unwrap_label(), incarnation::Symbol::new(7));
}
