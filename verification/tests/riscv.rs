use incarnation::riscv::driver::{assemble, Error, Opcode};
use incarnation::riscv::encoding::{
    BranchOp, ImmediateOp, LoadOp, RegisterOp, ShiftOp, StoreOp,
};
use incarnation::riscv::{Assembler, Register};
use incarnation::tokenizer::Tokenizer;
use incarnation::{Index, PatchError, Token};

fn words(code: &[u8]) -> Vec<u32> {
    assert_eq!(code.len() % 4, 0);
    code.chunks(4).map(|c| u32::from_le_bytes([c[0], c[1], c[2], c[3]])).collect()
}

fn r(name: &str) -> Register {
    Register::from_str(name).unwrap()
}

fn lex(input: &str) -> Vec<Token> {
    Tokenizer::tokenize(input).unwrap()
}

fn run(input: &str) -> Result<(Vec<u32>, Vec<Vec<u8>>, Vec<(usize, usize)>), Error> {
    assemble(lex(input), input).map(|a| {
        let mut rewrites: Vec<(usize, usize)> = a.rewrites.into_iter().collect();
        rewrites.sort();
        (words(&a.code), a.data, rewrites)
    })
}

fn code(input: &str) -> Vec<u32> {
    run(input).unwrap().0
}

#[test]
fn riscv_registers_by_name() {
    assert_eq!(r("x0"), Register::X0);
    assert_eq!(r("zero"), Register::X0);
    assert_eq!(r("ra"), Register::X1);
    assert_eq!(r("sp"), Register::X2);
    assert_eq!(r("s0"), Register::X8);
    assert_eq!(r("fp"), Register::X8);
    assert_eq!(r("FP"), Register::X8);
    assert_eq!(r("a0"), Register::X10);
    assert_eq!(r("A7"), Register::X17);
    assert_eq!(r("s11"), Register::X27);
    assert_eq!(r("t6"), Register::X31);
    assert_eq!(r("X31"), Register::X31);
    assert_eq!(Register::from_str("x32"), None);
    assert_eq!(Register::from_str("x"), None);
    assert_eq!(Register::from_str("a8"), None);
    assert_eq!(Register::from_str("x01"), None);
    assert_eq!(Register::from_str(""), None);
    for n in 0..32u8 {
        let register = Register::from_number(n);
        assert_eq!(register.value(), n);
        assert_eq!(Register::from_str(&format!("x{}", n)), Some(register));
    }
}

#[test]
fn riscv_register_operations() {
    let mut a = Assembler::new();
    a.register_op(RegisterOp::Add, r("a0"), r("a1"), r("a2"));
    a.register_op(RegisterOp::Sub, r("a0"), r("a1"), r("a2"));
    a.register_op(RegisterOp::Xor, r("t0"), r("t1"), r("t2"));
    a.register_op(RegisterOp::Or, r("a0"), r("a0"), r("a1"));
    a.register_op(RegisterOp::And, r("a0"), r("a0"), r("a1"));
    a.register_op(RegisterOp::Sll, r("a0"), r("a0"), r("a1"));
    a.register_op(RegisterOp::Srl, r("a0"), r("a0"), r("a1"));
    a.register_op(RegisterOp::Sra, r("a0"), r("a0"), r("a1"));
    a.register_op(RegisterOp::Slt, r("a0"), r("a0"), r("a1"));
    a.register_op(RegisterOp::Sltu, r("x31"), r("x31"), r("x31"));
    assert_eq!(
        words(&a.finish()),
        vec![
            0x00c58533, 0x40c58533, 0x0073_42b3, 0x00b56533, 0x00b57533, 0x00b51533, 0x00b55533,
            0x40b55533, 0x00b52533, 0x01ffbfb3,
        ]
    );
}

#[test]
fn riscv_immediate_operations() {
    let mut a = Assembler::new();
    a.immediate_op(ImmediateOp::Addi, r("a0"), r("a0"), 1);
    a.immediate_op(ImmediateOp::Addi, r("sp"), r("sp"), -16);
    a.immediate_op(ImmediateOp::Addi, r("a0"), r("zero"), 2047);
    a.immediate_op(ImmediateOp::Addi, r("a0"), r("zero"), -2048);
    a.immediate_op(ImmediateOp::Xori, r("a0"), r("a0"), -1);
    a.immediate_op(ImmediateOp::Ori, r("a0"), r("a0"), 1);
    a.immediate_op(ImmediateOp::Andi, r("a0"), r("a0"), 255);
    a.immediate_op(ImmediateOp::Slti, r("a0"), r("a0"), 5);
    a.immediate_op(ImmediateOp::Sltiu, r("a0"), r("a0"), 5);
    a.shift_op(ShiftOp::Slli, r("a0"), r("a0"), 3);
    a.shift_op(ShiftOp::Srli, r("a0"), r("a0"), 63);
    a.shift_op(ShiftOp::Srai, r("a0"), r("a0"), 3);
    assert_eq!(
        words(&a.finish()),
        vec![
            0x00150513, 0xff010113, 0x7ff00513, 0x80000513, 0xfff54513, 0x00156513, 0x0ff57513,
            0x00552513, 0x00553513, 0x00351513, 0x03f55513, 0x40355513,
        ]
    );
}

#[test]
fn riscv_loads_and_stores() {
    let mut a = Assembler::new();
    a.load(LoadOp::Lw, r("a0"), r("sp"), 4);
    a.load(LoadOp::Ld, r("ra"), r("sp"), 8);
    a.load(LoadOp::Lb, r("a0"), r("a1"), -1);
    a.load(LoadOp::Lh, r("a0"), r("a1"), 0);
    a.load(LoadOp::Lbu, r("a0"), r("a1"), 0);
    a.load(LoadOp::Lhu, r("a0"), r("a1"), 0);
    a.load(LoadOp::Lwu, r("a0"), r("a1"), 0);
    a.store(StoreOp::Sw, r("a0"), r("sp"), 8);
    a.store(StoreOp::Sd, r("ra"), r("sp"), 8);
    a.store(StoreOp::Sb, r("a0"), r("a1"), -1);
    a.store(StoreOp::Sh, r("a0"), r("a1"), 2047);
    assert_eq!(
        words(&a.finish()),
        vec![
            0x00412503, 0x00813083, 0xfff58503, 0x00059503, 0x0005c503, 0x0005d503, 0x0005e503,
            0x00a12423, 0x00113423, 0xfea58fa3, 0x7ea59fa3,
        ]
    );
}

#[test]
fn riscv_upper_immediates_and_system() {
    let mut a = Assembler::new();
    a.lui(r("a0"), 0x12345);
    a.auipc(r("a0"), 0xfffff);
    a.jalr(r("zero"), r("ra"), 0);
    a.ecall();
    a.ebreak();
    a.emit_word(0xdeadbeef);
    assert_eq!(a.len(), 24);
    assert_eq!(
        words(&a.finish()),
        vec![0x12345537, 0xfffff517, 0x00008067, 0x00000073, 0x00100073, 0xdeadbeef]
    );
}

#[test]
fn riscv_branches_are_patched() {
    let mut a = Assembler::new();
    a.branch(BranchOp::Beq, r("a0"), r("a1"), "skip");
    a.ecall();
    a.label("skip");
    a.label("back");
    a.ecall();
    a.branch(BranchOp::Bne, r("a0"), r("zero"), "back");
    assert_eq!(words(&a.finish()), vec![0x00b50463, 0x00000073, 0x00000073, 0xfe051ee3]);

    let mut a = Assembler::new();
    a.branch(BranchOp::Blt, r("a0"), r("a1"), "here");
    a.branch(BranchOp::Bge, r("a0"), r("a1"), "here");
    a.label("here");
    a.branch(BranchOp::Bltu, r("a0"), r("a1"), "here");
    a.branch(BranchOp::Bgeu, r("a0"), r("a1"), "here");
    assert_eq!(words(&a.finish()), vec![0x00b54463, 0x00b55263, 0x00b56063, 0xfeb57ee3]);
}

#[test]
fn riscv_jumps_are_patched() {
    let mut a = Assembler::new();
    a.jal(r("ra"), "f");
    a.ecall();
    a.ecall();
    a.ecall();
    a.label("f");
    a.label("loop");
    a.ecall();
    a.ecall();
    a.jal(r("zero"), "loop");
    assert_eq!(words(&a.finish())[0], 0x010000ef);

    let mut a = Assembler::new();
    a.label("loop");
    a.ecall();
    a.ecall();
    a.jal(r("zero"), "loop");
    assert_eq!(words(&a.finish())[2], 0xff9ff06f);

    let mut a = Assembler::new();
    a.jal(r("zero"), "far");
    assert_eq!(words(&a.code()), vec![0x0000006f]);
}

#[test]
fn riscv_jump_failures() {
    let mut a = Assembler::new();
    a.jal(r("ra"), "nowhere");
    assert_eq!(a.try_finish(), Err(PatchError::UnknownLabel));

    let mut a = Assembler::new();
    a.branch(BranchOp::Beq, r("a0"), r("a0"), "far");
    for _ in 0..1024 {
        a.ecall();
    }
    a.label("far");
    assert_eq!(a.try_finish(), Err(PatchError::OutOfRange));

    let mut a = Assembler::new();
    a.branch(BranchOp::Beq, r("a0"), r("a0"), "far");
    for _ in 0..1022 {
        a.ecall();
    }
    a.label("far");
    assert_eq!(words(&a.try_finish().unwrap())[0], 0x7ea50ee3);

    let mut a = Assembler::new();
    a.label("back");
    for _ in 0..1024 {
        a.ecall();
    }
    a.branch(BranchOp::Beq, r("a0"), r("a0"), "back");
    assert_eq!(words(&a.try_finish().unwrap())[1024], 0x80a50063);
}

#[test]
fn riscv_program() {
    let source = "
        ; exit with status 42
        (define EXIT 93)
        start
        (addi a0 zero 42)
        (addi a7 zero EXIT)
        (ecall)
    ";
    assert_eq!(code(source), vec![0x02a00513, 0x05d00893, 0x00000073]);
}

#[test]
fn riscv_every_opcode() {
    let source = "
        (define N 5)
        (define NL #'\\n')
        (define A #'A')
        top
        (add a0 a1 a2) (sub a0 a1 a2) (xor a0 a1 a2) (or a0 a1 a2) (and a0 a1 a2)
        (sll a0 a1 a2) (srl a0 a1 a2) (sra a0 a1 a2) (slt a0 a1 a2) (sltu a0 a1 a2)
        (addi a0 a1 N) (subi a0 a1 N) (xori a0 a1 NL) (ori a0 a1 A) (andi a0 a1 -1)
        (slli a0 a1 63) (srli a0 a1 1) (srai a0 a1 0) (slti a0 a1 #'0') (sltiu a0 a1 7)
        (lb a0 sp) (lh a0 (+ sp 2)) (lw a0 (- sp 4)) (ld a0 (+ 8 sp)) (lbu a0 (- 1 sp))
        (lhu a0 sp) (lwu a0 sp)
        (sb sp a0) (sh (+ sp 2) a0) (sw (- sp 4) a0) (sd (+ 8 sp) a0)
        (beq a0 a1 top) (bne a0 a1 top) (blt a0 a1 end) (bge a0 a1 end)
        (bltu a0 a1 end) (bgeu a0 a1 end)
        (jal ra end) (jalr ra (+ a0 4)) (jalr zero ra)
        (lui a0 N) (auipc a0 1048575)
        (ecall) (ebreak)
        end
    ";
    let expected = {
        let (a0, a1, a2, sp, ra, zero) = (r("a0"), r("a1"), r("a2"), r("sp"), r("ra"), r("zero"));
        let mut a = Assembler::new();
        a.label("top");
        for op in [
            RegisterOp::Add, RegisterOp::Sub, RegisterOp::Xor, RegisterOp::Or, RegisterOp::And,
            RegisterOp::Sll, RegisterOp::Srl, RegisterOp::Sra, RegisterOp::Slt, RegisterOp::Sltu,
        ] {
            a.register_op(op, a0, a1, a2);
        }
        a.immediate_op(ImmediateOp::Addi, a0, a1, 5);
        a.immediate_op(ImmediateOp::Addi, a0, a1, -5);
        a.immediate_op(ImmediateOp::Xori, a0, a1, 10);
        a.immediate_op(ImmediateOp::Ori, a0, a1, 65);
        a.immediate_op(ImmediateOp::Andi, a0, a1, -1);
        a.shift_op(ShiftOp::Slli, a0, a1, 63);
        a.shift_op(ShiftOp::Srli, a0, a1, 1);
        a.shift_op(ShiftOp::Srai, a0, a1, 0);
        a.immediate_op(ImmediateOp::Slti, a0, a1, 48);
        a.immediate_op(ImmediateOp::Sltiu, a0, a1, 7);
        a.load(LoadOp::Lb, a0, sp, 0);
        a.load(LoadOp::Lh, a0, sp, 2);
        a.load(LoadOp::Lw, a0, sp, -4);
        a.load(LoadOp::Ld, a0, sp, 8);
        a.load(LoadOp::Lbu, a0, sp, -1);
        a.load(LoadOp::Lhu, a0, sp, 0);
        a.load(LoadOp::Lwu, a0, sp, 0);
        a.store(StoreOp::Sb, a0, sp, 0);
        a.store(StoreOp::Sh, a0, sp, 2);
        a.store(StoreOp::Sw, a0, sp, -4);
        a.store(StoreOp::Sd, a0, sp, 8);
        a.branch(BranchOp::Beq, a0, a1, "top");
        a.branch(BranchOp::Bne, a0, a1, "top");
        a.branch(BranchOp::Blt, a0, a1, "end");
        a.branch(BranchOp::Bge, a0, a1, "end");
        a.branch(BranchOp::Bltu, a0, a1, "end");
        a.branch(BranchOp::Bgeu, a0, a1, "end");
        a.jal(ra, "end");
        a.jalr(ra, a0, 4);
        a.jalr(zero, ra, 0);
        a.lui(a0, 5);
        a.auipc(a0, 0xfffff);
        a.ecall();
        a.ebreak();
        a.label("end");
        words(&a.finish())
    };
    assert_eq!(code(source), expected);
}

#[test]
fn riscv_data_and_rewrites() {
    let source = "
        (define hello \"hi\\n\")
        (define other \"\")
        (ecall)
        (la a0 hello)
        (la a1 other)
        (la a2 hello)
    ";
    let (code, data, rewrites) = run(source).unwrap();
    assert_eq!(data, vec![b"hi\\n".to_vec(), vec![]]);
    assert_eq!(rewrites, vec![(4, 0), (12, 1), (20, 0)]);
    assert_eq!(
        code,
        vec![0x00000073, 0x00000537, 0x00050513, 0x000005b7, 0x00058593, 0x00000637, 0x00060613]
    );
}

#[test]
fn riscv_later_definition_wins() {
    assert_eq!(
        code("(define N 1) (define N 2) (addi a0 a0 N)"),
        vec![0x00250513]
    );
    assert_eq!(code("l (ecall) l (jal zero l)"), vec![0x00000073, 0x0000006f]);
}

#[test]
fn riscv_errors() {
    assert_eq!(run("(addi a0 a0"), Err(Error::EndOfInput));
    assert_eq!(run("("), Err(Error::EndOfInput));
    assert_eq!(run("(add a0 a1 a2"), Err(Error::EndOfInput));
    assert_eq!(run("(define X"), Err(Error::EndOfInput));
    assert_eq!(run(")"), Err(Error::Token));
    assert_eq!(run("5"), Err(Error::Token));
    assert_eq!(run("((add a0 a1 a2))"), Err(Error::Token));
    assert_eq!(run("(add a0 a1 a2 a3)"), Err(Error::Token));
    assert_eq!(run("(add a0 a1 5)"), Err(Error::Token));
    assert_eq!(run("(addi a0 a1 \"x\")"), Err(Error::Token));
    assert_eq!(run("(lw a0 (* sp 4))"), Err(Error::Token));
    assert_eq!(run("(lw a0 (+ sp sp))"), Err(Error::Token));
    assert_eq!(run("(lw a0 5)"), Err(Error::Token));
    assert_eq!(run("(define X Y)"), Err(Error::Token));
    assert_eq!(run("(define 5 5)"), Err(Error::Token));
    assert_eq!(run("(ecall a0)"), Err(Error::Token));
    assert_eq!(run("(mov a0 a1)"), Err(Error::Opcode));
    assert_eq!(run("(ADD a0 a1 a2)"), Err(Error::Opcode));
    assert_eq!(run("(add a0 a1 rax)"), Err(Error::Register));
    assert_eq!(run("(lw x32 sp)"), Err(Error::Register));
    assert_eq!(run("(sw (+ 4 bad) a0)"), Err(Error::Register));
    assert_eq!(run("(addi a0 a0 N)"), Err(Error::Constant));
    assert_eq!(run("(addi a0 a0 99999999999)"), Err(Error::Constant));
    assert_eq!(run("(addi a0 a0 #'\\q')"), Err(Error::Constant));
    assert_eq!(run("(la a0 nothing)"), Err(Error::Global));
    assert_eq!(run("(define N 5) (la a0 N)"), Err(Error::Global));
    assert_eq!(run("(addi a0 a0 2048)"), Err(Error::Range));
    assert_eq!(run("(addi a0 a0 -2049)"), Err(Error::Range));
    assert_eq!(run("(subi a0 a0 -2048)"), Err(Error::Range));
    assert_eq!(run("(subi a0 a0 2049)"), Err(Error::Range));
    assert_eq!(run("(slli a0 a0 64)"), Err(Error::Range));
    assert_eq!(run("(srai a0 a0 -1)"), Err(Error::Range));
    assert_eq!(run("(lw a0 (+ sp 4096))"), Err(Error::Range));
    assert_eq!(run("(lw a0 (- sp -2147483648))"), Err(Error::Range));
    assert_eq!(run("(sd (- sp 2049) a0)"), Err(Error::Range));
    assert_eq!(run("(lui a0 1048576)"), Err(Error::Range));
    assert_eq!(run("(auipc a0 -1)"), Err(Error::Range));
    assert_eq!(run("(beq a0 a0 nowhere)"), Err(Error::Label));
    assert_eq!(run("(jal ra nowhere) somewhere"), Err(Error::Label));
    assert_eq!(code("(subi a0 a0 2048)"), vec![0x80050513]);
    assert_eq!(code("(subi a0 a0 -2047)"), vec![0x7ff50513]);
    assert_eq!(code("(sd (- sp 2048) a0)"), vec![0x80a13023]);
    assert_eq!(code(""), Vec::<u32>::new());
    assert_eq!(code("; nothing but a comment"), Vec::<u32>::new());
    assert_eq!(code("(add ; between\n a0 a1 a2)"), vec![0x00c58533]);
}

#[test]
fn riscv_first_error_is_reported() {
    assert_eq!(run("(beq a0 a0 nowhere) (bogus)"), Err(Error::Opcode));
    assert_eq!(run("(addi rax a0 2048)"), Err(Error::Register));
    assert_eq!(run("(addi a0 a0 2048"), Err(Error::EndOfInput));
}

#[test]
fn riscv_error_messages_and_opcodes() {
    assert_eq!(Error::EndOfInput.to_string(), "Unexpected end of input");
    assert_eq!(Error::Token.to_string(), "Unexpected token");
    assert_eq!(Error::Opcode.to_string(), "Invalid opcode");
    assert_eq!(Error::Register.to_string(), "Invalid register name");
    assert_eq!(Error::Constant.to_string(), "Invalid constant");
    assert_eq!(Error::Global.to_string(), "Unknown data name");
    assert_eq!(Error::Range.to_string(), "Value out of range");
    assert_eq!(Error::Label.to_string(), "Unknown label");
    assert_eq!(Opcode::from_str("add"), Some(Opcode::Register(RegisterOp::Add)));
    assert_eq!(Opcode::from_str("subi"), Some(Opcode::Subi));
    assert_eq!(Opcode::from_str("ebreak"), Some(Opcode::Ebreak));
    assert_eq!(Opcode::from_str("define"), None);
}

#[test]
fn riscv_tokens_made_by_hand() {
    let input = "(ecall)";
    let tokens = vec![
        Token::LParen(Index { start: 0, end: 1 }),
        Token::Symbol(Index { start: 1, end: 6 }),
        Token::RParen(Index { start: 6, end: 7 }),
    ];
    assert_eq!(assemble(tokens, input).map(|a| a.code), Ok(vec![0x73, 0, 0, 0]));
}
