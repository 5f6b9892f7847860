use incarnation::amd64::Error as AssembleError;
use incarnation::assembly::{self, Error, Instruction, Operand};
use incarnation::tokenizer::Tokenizer;
use incarnation::{Assembler, Register, Token};

#[test]
pub fn assembly_basic() {
    let input = r"
    (mov rax 231)
    (mov rdi 42)
    (syscall)
    ";

    let tokens = Tokenizer::tokenize(input).unwrap();
    let instructions = assembly::parse(&tokens, input, false).unwrap();
    let expected = {
        let mut assembler = Assembler::new();
        assembler.mov_reg_i32(Register::RAX, 231);
        assembler.mov_reg_i32(Register::RDI, 42);
        assembler.syscall();
        assembler.finish()
    };
    assert_eq!(expected, assembly::assemble(instructions, input).unwrap());
}

#[test]
pub fn hello() {
    let input = r"
    ;; print 'H'
    (mov rax 1)
    ;; stdout
    (mov rdi 1)
    ;; write 'H' to the stack
    (mov (address rsp) 72)
    ;; our string is the stack pointer
    (mov rsi rsp)
    ;; length
    (mov rdx 1)
    (syscall)

    ;; Call exit syscall with exitcode 0
    (mov rax 231)
    (mov rdi 0)
    (syscall)
    ";

    let tokens = Tokenizer::tokenize(input).unwrap();
    println!("{:?}", tokens);
    let instructions = assembly::parse(&tokens, input, false).unwrap();
    let expected = {
        let mut assembler = Assembler::new();
        assembler.mov_reg_i32(Register::RAX, 1);
        assembler.mov_reg_i32(Register::RDI, 1);
        assembler.mov_addr_i32(Register::RSP, None, 72);
        assembler.mov_reg_reg(Register::RSI, Register::RSP);
        assembler.mov_reg_i32(Register::RDX, 1);
        assembler.syscall();

        assembler.mov_reg_i32(Register::RAX, 231);
        assembler.mov_reg_i32(Register::RDI, 0);
        assembler.syscall();
        assembler.finish()
    };
    let asm_expected = vec![
        0x48, 0xc7, 0xc0, 0x01, 0, 0, 0,
        0x48, 0x0c7, 0x0c7, 0x01, 0, 0, 0,
        0x48, 0x0c7, 0x04, 0x24, 0x048, 0, 0, 0,
        0x48, 0x89, 0xe6,
        0x48, 0xc7, 0xc2, 0x01, 0, 0, 0,
        0x0f, 0x05,
        0x48, 0xc7, 0xc0, 0xe7, 0, 0, 0,
        0x48, 0xc7, 0xc7, 0, 0, 0, 0,
        0x0f, 0x05,
    ];
    assert_eq!(expected, asm_expected);
    assert_eq!(expected, assembly::assemble(instructions, input).unwrap());
}

fn parsed(input: &str, inline: bool) -> Result<Vec<Instruction>, Error> {
    let tokens = Tokenizer::tokenize(input).unwrap();
    assembly::parse(&tokens, input, inline)
}

fn built(input: &str) -> Result<Vec<u8>, AssembleError> {
    assembly::assemble(parsed(input, false).unwrap(), input)
}

#[test]
fn plain_operands() {
    let input = "(op rax 5 1.5 (address rsp))";
    let instructions = parsed(input, false).unwrap();
    assert_eq!(instructions.len(), 1);
    assert_eq!(instructions[0].opcode.as_str(input), "op");
    let texts: Vec<(&str, &str)> = instructions[0]
        .operands
        .iter()
        .map(|o| match o {
            Operand::Register(t) => ("register", t.as_str(input)),
            Operand::Constant(t) => ("constant", t.as_str(input)),
            Operand::Address(t) => ("address", t.as_str(input)),
        })
        .collect();
    assert_eq!(
        texts,
        vec![("register", "rax"), ("constant", "5"), ("constant", "1.5"), ("address", "rsp")]
    );
    let made = Instruction::new(instructions[0].opcode, vec![]);
    assert!(made.operands.is_empty());
    assert!(matches!(made.opcode, Token::Symbol(_)));
}

#[test]
fn plain_parse_errors() {
    assert_eq!(parsed("(syscall", false), Err(Error::EndOfInput));
    assert_eq!(parsed("(", false), Err(Error::EndOfInput));
    assert_eq!(parsed("(mov (address rsp", false), Err(Error::EndOfInput));
    assert_eq!(parsed("(mov (address", false), Err(Error::EndOfInput));
    assert_eq!(parsed("(mov (", false), Err(Error::EndOfInput));
    assert_eq!(parsed("(syscall)", true), Err(Error::EndOfInput));
    assert_eq!(parsed(")", false), Err(Error::Closer));
    assert_eq!(parsed("(syscall) )", false), Err(Error::Closer));
    assert_eq!(parsed("mov", false), Err(Error::Opener));
    assert_eq!(parsed("5", false), Err(Error::Opener));
    assert_eq!(parsed("(mov (label x))", false), Err(Error::Mode));
    assert_eq!(parsed("(mov (u8 x))", false), Err(Error::Mode));
    assert_eq!(parsed("(5)", false), Err(Error::Token));
    assert_eq!(parsed("((mov))", false), Err(Error::Token));
    assert_eq!(parsed("(mov \"s\")", false), Err(Error::Token));
    assert_eq!(parsed("(mov (address 5))", false), Err(Error::Token));
    assert_eq!(parsed("(mov (5 rsp))", false), Err(Error::Token));
    assert_eq!(parsed("(mov (address rsp rsp))", false), Err(Error::Token));
    assert_eq!(parsed("(syscall) )", true).map(|i| i.len()), Ok(1));
    assert_eq!(parsed("", false).map(|i| i.len()), Ok(0));
    assert_eq!(Error::EndOfInput.to_string(), "Unexpected end of input");
    assert_eq!(Error::Closer.to_string(), "Unexpected closer");
    assert_eq!(Error::Opener.to_string(), "Unexpected opener");
    assert_eq!(Error::Mode.to_string(), "Invalid mode");
    assert_eq!(Error::Token.to_string(), "Unexpected token");
}

#[test]
fn plain_programs() {
    assert_eq!(built("(sub rsp 8) (push rbx) (pop r8)"), Ok(vec![0x48, 0x83, 0xec, 8, 0x53, 0x41, 0x58]));
    assert_eq!(built("(mov eax ebx)"), Ok(vec![0x89, 0xd8]));
    assert_eq!(built("(mov rax (address rdi))"), Ok(vec![0x48, 0x8b, 0x07]));
    assert_eq!(built("(mov (address rdi) rax)"), Ok(vec![0x48, 0x89, 0x07]));
    assert_eq!(built("(mov eax -1)"), Ok(vec![0xb8, 0xff, 0xff, 0xff, 0xff]));
    assert_eq!(built("(mov (address rsp) 72)"), Ok(vec![0x48, 0xc7, 0x04, 0x24, 0x48, 0, 0, 0]));
    assert_eq!(built(""), Ok(vec![]));
}

#[test]
fn plain_assemble_errors() {
    assert_eq!(built("(xor rax rax)"), Err(AssembleError::Opcode));
    assert_eq!(built("(mov rax)"), Err(AssembleError::Operands));
    assert_eq!(built("(syscall rax)"), Err(AssembleError::Operands));
    assert_eq!(built("(sub rsp rax)"), Err(AssembleError::Operands));
    assert_eq!(built("(push 5)"), Err(AssembleError::Operands));
    assert_eq!(built("(mov (address rax) (address rbx))"), Err(AssembleError::Operands));
    assert_eq!(built("(mov rzx 1)"), Err(AssembleError::Register));
    assert_eq!(built("(mov rax rzx)"), Err(AssembleError::Register));
    assert_eq!(built("(pop nothing)"), Err(AssembleError::Register));
    assert_eq!(built("(mov 5 rax)"), Err(AssembleError::ToConstant));
    assert_eq!(built("(mov rax 1.5)"), Err(AssembleError::InvalidConstant));
    assert_eq!(built("(mov rax 99999999999)"), Err(AssembleError::InvalidConstant));
    assert_eq!(built("(sub rsp 256)"), Err(AssembleError::InvalidConstant));
    assert_eq!(built("(mov al 1)"), Err(AssembleError::Width));
    assert_eq!(built("(mov rax eax)"), Err(AssembleError::Width));
    assert_eq!(built("(mov (address ax) rax)"), Err(AssembleError::Width));
    assert_eq!(built("(mov rax (address ax))"), Err(AssembleError::Width));
    assert_eq!(built("(mov (address rzx) (address rzy))"), Err(AssembleError::Operands));
    assert_eq!(built("(mov (address rzx) 1)"), Err(AssembleError::Register));
    assert_eq!(built("(mov rax 1) (bogus) (mov rzx 1)"), Err(AssembleError::Opcode));
}
