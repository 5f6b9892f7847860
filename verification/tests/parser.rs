use incarnation::amd64::{assemble, Error as AssembleError};
use incarnation::syntax::parser::parse;
use incarnation::syntax::Error;
use incarnation::tokenizer::Tokenizer;
use incarnation::{
    Displacement, Immediate, Instruction, NonZeroI16, NonZeroI32, NonZeroI8, Operand, Operation,
    StringInterner, Symbol,
};

fn parsed(input: &str, inline: bool) -> Result<(Vec<Instruction>, StringInterner), Error> {
    let tokens = Tokenizer::tokenize(input).unwrap();
    let mut interner = StringInterner::new();
    parse(&tokens, input, inline, &mut interner).map(|i| (i, interner))
}

fn error(input: &str) -> Error {
    parsed(input, false).map(|_| ()).unwrap_err()
}

fn name(interner: &StringInterner, symbol: Symbol) -> String {
    interner.get_value(symbol).unwrap()
}

fn operation(instruction: &Instruction) -> &Operation {
    match instruction {
        Instruction::Operation(operation) => operation,
        _ => panic!("no operation"),
    }
}

fn build(input: &str) -> Result<Vec<u8>, AssembleError> {
    let (instructions, interner) = parsed(input, false).unwrap();
    assemble(instructions, &interner)
}

#[test]
fn parse_instruction_with_registers() {
    let (instructions, interner) = parsed("(mov rsi rsp)", false).unwrap();
    assert_eq!(instructions.len(), 1);
    let op = operation(&instructions[0]);
    assert_eq!(name(&interner, op.opcode), "mov");
    assert_eq!(op.operands.len(), 2);
    assert_eq!(name(&interner, op.operands[0].unwrap_register()), "rsi");
    assert_eq!(name(&interner, op.operands[1].unwrap_register()), "rsp");
    assert!(op.operands[0].is_register());
}

#[test]
fn parse_constants_of_every_type() {
    let (instructions, _) = parsed(
        "(x (u8 255) (U16 1) (u32 +7) (u64 18446744073709551615) (i8 -128) (I16 -1) (i32 231) (i64 -5))",
        false,
    )
    .unwrap();
    assert_eq!(
        operation(&instructions[0]).operands,
        vec![
            Operand::Constant(Immediate::U8(255)),
            Operand::Constant(Immediate::U16(1)),
            Operand::Constant(Immediate::U32(7)),
            Operand::Constant(Immediate::U64(u64::MAX)),
            Operand::Constant(Immediate::I8(-128)),
            Operand::Constant(Immediate::I16(-1)),
            Operand::Constant(Immediate::I32(231)),
            Operand::Constant(Immediate::I64(-5)),
        ]
    );
}

#[test]
fn parse_addresses_and_labels() {
    let (instructions, interner) = parsed(
        "(a (address rsp) (address (+ rdi (i8 5))) (address (- (i16 5) rdi)) (address (- rbx (i32 -70000))) (label end))",
        false,
    )
    .unwrap();
    let operands = &operation(&instructions[0]).operands;
    assert_eq!(operands.len(), 5);
    assert!(operands[0].is_address());
    assert_eq!(operands[0].unwrap_disp(), None);
    assert_eq!(name(&interner, operands[0].unwrap_register()), "rsp");
    assert_eq!(operands[1].unwrap_disp(), Some(Displacement::Disp8(NonZeroI8::new(5).unwrap())));
    assert_eq!(name(&interner, operands[1].unwrap_register()), "rdi");
    assert_eq!(operands[2].unwrap_disp(), Some(Displacement::Disp16(NonZeroI16::new(-5).unwrap())));
    assert_eq!(name(&interner, operands[2].unwrap_register()), "rdi");
    assert_eq!(
        operands[3].unwrap_disp(),
        Some(Displacement::Disp32(NonZeroI32::new(70000).unwrap()))
    );
    assert_eq!(name(&interner, operands[3].unwrap_register()), "rbx");
    match operands[4] {
        Operand::Label(symbol) => assert_eq!(name(&interner, symbol), "end"),
        _ => panic!("no label"),
    }
}

#[test]
fn parse_labels_and_comments() {
    let input = "
        ; a program
        start:
        (syscall) #| between |#
        end: (ret ; inside
        )
    ";
    let (instructions, interner) = parsed(input, false).unwrap();
    assert_eq!(instructions.len(), 4);
    assert_eq!(name(&interner, instructions[0].clone().unwrap_label()), "start:");
    assert_eq!(name(&interner, operation(&instructions[1]).opcode), "syscall");
    assert_eq!(name(&interner, instructions[2].clone().unwrap_label()), "end:");
    assert_eq!(name(&interner, operation(&instructions[3]).opcode), "ret");
    assert!(operation(&instructions[3]).operands.is_empty());
}

#[test]
fn parse_interns_each_name_once() {
    let (instructions, interner) = parsed("(mov rax rax) (mov rax rbx)", false).unwrap();
    let first = operation(&instructions[0]);
    let second = operation(&instructions[1]);
    assert_eq!(first.opcode, second.opcode);
    assert_eq!(first.operands[0], first.operands[1]);
    assert_eq!(first.operands[0], second.operands[0]);
    assert_ne!(second.operands[0], second.operands[1]);
    assert_eq!(interner.len(), 3);
}

#[test]
fn parse_keeps_the_names_that_were_there() {
    let input = "(mov rax rbx)";
    let tokens = Tokenizer::tokenize(input).unwrap();
    let mut interner = StringInterner::new();
    let before = interner.get_symbol("rbx".to_string());
    let instructions = parse(&tokens, input, false, &mut interner).unwrap();
    assert_eq!(interner.get_value(before), Some("rbx".to_string()));
    assert_eq!(operation(&instructions[0]).operands[1], Operand::Register(before));
}

#[test]
fn parse_inline_assembly() {
    let (instructions, _) = parsed("(syscall) (ret) ) rest", true).unwrap();
    assert_eq!(instructions.len(), 2);
    let (instructions, _) = parsed(")", true).unwrap();
    assert!(instructions.is_empty());
    assert_eq!(parsed("(syscall)", true).map(|_| ()), Err(Error::EndOfInput));
    assert_eq!(parsed("", true).map(|_| ()), Err(Error::EndOfInput));
    assert_eq!(parsed("; only a comment", true).map(|_| ()), Err(Error::EndOfInput));
}

#[test]
fn parse_empty_program() {
    assert!(parsed("", false).unwrap().0.is_empty());
    assert!(parsed("; nothing", false).unwrap().0.is_empty());
}

#[test]
fn parse_errors() {
    assert_eq!(error("(syscall"), Error::EndOfInput);
    assert_eq!(error("("), Error::EndOfInput);
    assert_eq!(error("(mov rax (i32 1"), Error::EndOfInput);
    assert_eq!(error("(mov rax (i32"), Error::EndOfInput);
    assert_eq!(error("(mov (address"), Error::EndOfInput);
    assert_eq!(error("(mov (address (+ rdi"), Error::EndOfInput);
    assert_eq!(error(")"), Error::Closer);
    assert_eq!(error("(ret) )"), Error::Closer);
    assert_eq!(error("mov"), Error::Opener);
    assert_eq!(error("5"), Error::Opener);
    assert_eq!(error("\"text\""), Error::Opener);
    assert_eq!(error("(mov rax (float 1))"), Error::Mode);
    assert_eq!(error("(mov rax (addr rsp))"), Error::Mode);
    assert_eq!(error("(mov (address (+ rdi (u8 5))) al)"), Error::Mode);
    assert_eq!(error("(mov (address (+ rdi (i64 5))) al)"), Error::Mode);
    assert_eq!(error("(mov (address (+ rdi (word 5))) al)"), Error::Mode);
    assert_eq!(error("((mov))"), Error::Token);
    assert_eq!(error("(5)"), Error::Token);
    assert_eq!(error("(mov \"rax\")"), Error::Token);
    assert_eq!(error("(mov (5 5))"), Error::Token);
    assert_eq!(error("(mov (i32 x))"), Error::Token);
    assert_eq!(error("(mov (i32 1 2))"), Error::Token);
    assert_eq!(error("(mov (label 5))"), Error::Token);
    assert_eq!(error("(mov (label a b))"), Error::Token);
    assert_eq!(error("(mov (address 5))"), Error::Token);
    assert_eq!(error("(mov (address rsp rsp))"), Error::Token);
    assert_eq!(error("(mov (address (+ rdi rsi)))"), Error::Token);
    assert_eq!(error("(mov (address (+ (i8 1) (i8 2))))"), Error::Token);
    assert_eq!(error("(mov (address (+ rdi (i8 x))))"), Error::Token);
    assert_eq!(error("(mov (address (+ rdi (i8 1.5))))"), Error::Token);
    assert_eq!(error("(mov (address (+ rdi (i8 1) x)))"), Error::Token);
    assert_eq!(error("(mov (address (* rdi (i8 1))))"), Error::Token);
    assert_eq!(error("(mov (address (5 rdi (i8 1))))"), Error::Token);
    assert_eq!(error("(mov rax 5)"), Error::NoType);
    assert_eq!(error("(mov rax 1.5)"), Error::NoType);
    assert_eq!(error("(mov rax (u8 -1))"), Error::ConstantType);
    assert_eq!(error("(mov rax (u32 1.5))"), Error::ConstantType);
    assert_eq!(error("(mov rax (i32 1.5))"), Error::ConstantType);
    assert_eq!(error("(mov rax (u8 256))"), Error::InvalidDisplacement);
    assert_eq!(error("(mov rax (i8 -129))"), Error::InvalidDisplacement);
    assert_eq!(error("(mov (address (+ rdi (i8 0))) al)"), Error::InvalidDisplacement);
    assert_eq!(error("(mov (address (+ rdi (i8 128))) al)"), Error::InvalidDisplacement);
    assert_eq!(error("(mov (address (- rdi (i8 -128))) al)"), Error::InvalidDisplacement);
    assert_eq!(error("(mov (address (- rdi (i32 -2147483648))) al)"), Error::InvalidDisplacement);
}

#[test]
fn parse_first_error_is_reported() {
    assert_eq!(error("(mov rax 5) )"), Error::NoType);
    assert_eq!(error("(mov (u8 -1) (float 1))"), Error::ConstantType);
    assert_eq!(error("(mov (i32 x"), Error::Token);
    assert_eq!(error("(mov (address (* rdi (i8 0))))"), Error::InvalidDisplacement);
}

#[test]
fn parse_error_messages() {
    assert_eq!(Error::EndOfInput.to_string(), "Unexpected end of input");
    assert_eq!(Error::Closer.to_string(), "Unexpected closer");
    assert_eq!(Error::Opener.to_string(), "Unexpected opener");
    assert_eq!(Error::Mode.to_string(), "Invalid mode");
    assert_eq!(Error::Token.to_string(), "Unexpected token");
    assert_eq!(Error::NoType.to_string(), "Expected a type specifier");
    assert_eq!(Error::ConstantType.to_string(), "Given value does not match expected type");
    assert_eq!(Error::InvalidDisplacement.to_string(), "Invalid value given for displacement");
    let e: Error = "x".parse::<i8>().unwrap_err().into();
    assert_eq!(e, Error::InvalidDisplacement);
}

#[test]
fn text_to_code() {
    let input = "
        ;; print 'H'
        (mov rax (i32 1))
        ;; stdout
        (mov rdi (i32 1))
        ;; write 'H' to the stack
        (mov (address rsp) (u8 72))
        ;; our string is the stack pointer
        (mov rsi rsp)
        ;; length
        (mov rdx (i32 1))
        (syscall)

        ;; Call exit syscall with exitcode 0
        (mov rax (i32 231))
        (mov rdi (i32 0))
        (syscall)
    ";
    assert_eq!(
        build(input),
        Ok(vec![
            0x48, 0xc7, 0xc0, 0x01, 0, 0, 0,
            0x48, 0xc7, 0xc7, 0x01, 0, 0, 0,
            0xc6, 0x04, 0x24, 0x48,
            0x48, 0x89, 0xe6,
            0x48, 0xc7, 0xc2, 0x01, 0, 0, 0,
            0x0f, 0x05,
            0x48, 0xc7, 0xc0, 0xe7, 0, 0, 0,
            0x48, 0xc7, 0xc7, 0, 0, 0, 0,
            0x0f, 0x05,
        ])
    );
}

#[test]
fn text_with_labels_to_code() {
    let input = "
        (mov rcx (i32 3))
        again:
        (sub rcx (u8 1))
        (test rcx rcx)
        (jnz (label again))
        (mov (address (- rsp (i8 8))) rcx)
        (jmp (label done))
        (mov al (address (+ (i8 1) rdi)))
        done:
        (ret)
    ";
    assert_eq!(
        build(input),
        Ok(vec![
            0x48, 0xc7, 0xc1, 0x03, 0, 0, 0,
            0x48, 0x83, 0xe9, 0x01,
            0x48, 0x85, 0xc9,
            0x0f, 0x85, 0xf3, 0xff, 0xff, 0xff,
            0x48, 0x89, 0x4c, 0x24, 0xf8,
            0xeb, 0x03,
            0x8a, 0x47, 0x01,
            0xc3,
        ])
    );
    assert_eq!(build("(jz (label nowhere))"), Err(AssembleError::Label));
    assert_eq!(build("(mov rzx (i32 1))"), Err(AssembleError::Register));
}
