//! The plain form of assembly programs, in which constants carry no type.
//!
//! A program is a row of instructions in brackets: a mnemonic and its
//! operands. An operand is a register name, a number, or `(address r)` for
//! the memory at the address in a register. A number stands for a signed
//! 32-bit constant, but as the operand of `sub`, where it stands for a byte.
//! Comments are skipped wherever they stand.

use crate::amd64::assembler::Assembler;
use crate::amd64::driver::Error as AssembleError;
use crate::amd64::encoding::addressable;
use crate::amd64::register::Register;
use crate::number::{parse_i32, parse_u8, parsed_i32, parsed_u8};
use crate::session::{PatchError, Session};
use crate::syntax::Immediate;
use crate::text::same_text;
use crate::token::{all_fit, significant, without_comments, Token};
use vstd::prelude::*;

verus! {

/// Why a token stream is no program.
#[derive(Debug, Copy, Clone, PartialEq, Eq, Structural)]
pub enum Error {
    /// The tokens end in the middle of an instruction, or before the closer
    /// that ends inline assembly.
    EndOfInput,
    /// A closer stands where an instruction should begin.
    Closer,
    /// Something other than an opener stands where an instruction should
    /// begin.
    Opener,
    /// An operand in brackets begins with a name other than `address`.
    Mode,
    /// A token is of a kind that cannot stand where it stands.
    Token,
}

impl Error {
    /// What went wrong, in words.
    pub open spec fn text(self) -> Seq<char> {
        match self {
            Error::EndOfInput => "Unexpected end of input"@,
            Error::Closer => "Unexpected closer"@,
            Error::Opener => "Unexpected opener"@,
            Error::Mode => "Invalid mode"@,
            Error::Token => "Unexpected token"@,
        }
    }

    /// What went wrong, in words.
    pub fn to_string(&self) -> (message: String)
        ensures
            message@ == self.text(),
    {
        match self {
            Error::EndOfInput => "Unexpected end of input",
            Error::Closer => "Unexpected closer",
            Error::Opener => "Unexpected opener",
            Error::Mode => "Invalid mode",
            Error::Token => "Unexpected token",
        }.to_owned()
    }
}

/// An operand, by the token that names it.
#[derive(Debug, Copy, Clone, PartialEq, Eq, Structural)]
pub enum Operand {
    /// A register, by name.
    Register(Token),
    /// The memory at the address in a register, by the name of the register.
    Address(Token),
    /// A number.
    Constant(Token),
}

/// A mnemonic with its operands.
#[derive(Debug, Clone, PartialEq)]
pub struct Instruction {
    /// The token of the mnemonic.
    pub opcode: Token,
    /// The operands, destination first.
    pub operands: Vec<Operand>,
}

/// An instruction as plain values.
pub struct Line {
    pub opcode: Token,
    pub operands: Seq<Operand>,
}

impl View for Instruction {
    type V = Line;

    open spec fn view(&self) -> Line {
        Line { opcode: self.opcode, operands: self.operands@ }
    }
}

impl Instruction {
    /// An instruction.
    pub fn new(opcode: Token, operands: Vec<Operand>) -> (instruction: Self)
        ensures
            instruction@ == (Line { opcode, operands: operands@ }),
    {
        Instruction { opcode, operands }
    }
}

/// What was read, and the position behind it.
pub struct Parsed<T> {
    pub value: T,
    pub next: nat,
}

/// The token at a position, or the error that there is none.
pub open spec fn token_at(tokens: Seq<Token>, pos: nat) -> Result<Token, Error> {
    if pos < tokens.len() {
        Ok(tokens[pos as int])
    } else {
        Err(Error::EndOfInput)
    }
}

/// The memory operand at a position, behind the opener of its group: the
/// mode `address`, the name of a register, and the closer.
pub open spec fn group_at(tokens: Seq<Token>, input: Seq<char>, pos: nat) -> Result<
    Operand,
    Error,
> {
    match token_at(tokens, pos) {
        Err(e) => Err(e),
        Ok(mode) => if !(mode is Symbol) {
            Err(Error::Token)
        } else {
            match token_at(tokens, pos + 1) {
                Err(e) => Err(e),
                Ok(register) => if !(register is Symbol) {
                    Err(Error::Token)
                } else {
                    match token_at(tokens, pos + 2) {
                        Err(e) => Err(e),
                        Ok(closer) => if !closer.is_closer() {
                            Err(Error::Token)
                        } else if mode.text(input) == "address"@ {
                            Ok(Operand::Address(register))
                        } else {
                            Err(Error::Mode)
                        },
                    }
                },
            }
        },
    }
}

/// The operand at a position, or `None` for the closer that ends the
/// operands.
pub open spec fn operand_at(tokens: Seq<Token>, input: Seq<char>, pos: nat) -> Result<
    Parsed<Option<Operand>>,
    Error,
> {
    match token_at(tokens, pos) {
        Err(e) => Err(e),
        Ok(token) => if token.is_closer() {
            Ok(Parsed { value: None, next: pos + 1 })
        } else if token.is_opener() {
            match group_at(tokens, input, pos + 1) {
                Err(e) => Err(e),
                Ok(operand) => Ok(Parsed { value: Some(operand), next: pos + 4 }),
            }
        } else if token is Integer || token is Float {
            Ok(Parsed { value: Some(Operand::Constant(token)), next: pos + 1 })
        } else if token is Symbol {
            Ok(Parsed { value: Some(Operand::Register(token)), next: pos + 1 })
        } else {
            Err(Error::Token)
        },
    }
}

/// The operands from a position on, up to the closer that ends them.
pub open spec fn operands_from(tokens: Seq<Token>, input: Seq<char>, pos: nat) -> Result<
    Parsed<Seq<Operand>>,
    Error,
>
    decreases tokens.len() - pos,
{
    match operand_at(tokens, input, pos) {
        Err(e) => Err(e),
        Ok(parsed) => match parsed.value {
            None => Ok(Parsed { value: Seq::empty(), next: parsed.next }),
            Some(operand) => if pos < parsed.next <= tokens.len() {
                match operands_from(tokens, input, parsed.next) {
                    Err(e) => Err(e),
                    Ok(rest) => Ok(Parsed { value: seq![operand] + rest.value, next: rest.next }),
                }
            } else {
                Err(Error::EndOfInput)
            },
        },
    }
}

/// The program from a position on. Inline assembly ends at the closer of the
/// group that holds it; a program of its own ends with the tokens.
pub open spec fn lines_from(tokens: Seq<Token>, input: Seq<char>, pos: nat, inlinep: bool) -> Result<
    Seq<Line>,
    Error,
>
    decreases tokens.len() - pos,
{
    if pos >= tokens.len() {
        if inlinep {
            Err(Error::EndOfInput)
        } else {
            Ok(Seq::empty())
        }
    } else if tokens[pos as int].is_closer() {
        if inlinep {
            Ok(Seq::empty())
        } else {
            Err(Error::Closer)
        }
    } else if !tokens[pos as int].is_opener() {
        Err(Error::Opener)
    } else {
        match token_at(tokens, pos + 1) {
            Err(e) => Err(e),
            Ok(opcode) => if !(opcode is Symbol) {
                Err(Error::Token)
            } else {
                match operands_from(tokens, input, pos + 2) {
                    Err(e) => Err(e),
                    Ok(operands) => if pos < operands.next <= tokens.len() {
                        match lines_from(tokens, input, operands.next, inlinep) {
                            Err(e) => Err(e),
                            Ok(rest) => Ok(
                                seq![Line { opcode, operands: operands.value }] + rest,
                            ),
                        }
                    } else {
                        Err(Error::EndOfInput)
                    },
                }
            },
        }
    }
}

/// The program that the tokens spell.
pub open spec fn program(tokens: Seq<Token>, input: Seq<char>, inlinep: bool) -> Result<
    Seq<Line>,
    Error,
> {
    lines_from(significant(tokens), input, 0, inlinep)
}

/// The instructions as plain values.
pub open spec fn lines(instructions: Seq<Instruction>) -> Seq<Line> {
    Seq::new(instructions.len(), |i: int| instructions[i]@)
}

/// A reader of tokens: the tokens and the position of the next one.
struct Parser<'a> {
    position: usize,
    tokens: &'a [Token],
}

impl<'a> Parser<'a> {
    fn new(tokens: &'a [Token]) -> (parser: Self)
        ensures
            parser.position == 0,
            parser.tokens@ == tokens@,
    {
        Parser { position: 0, tokens }
    }

    /// Reads the next token.
    fn next(&mut self) -> (r: Option<Token>)
        requires
            old(self).position <= old(self).tokens@.len(),
        ensures
            final(self).tokens@ == old(self).tokens@,
            final(self).position <= final(self).tokens@.len() <= usize::MAX,
            match r {
                Some(token) => token_at(old(self).tokens@, old(self).position as nat) == Ok::<
                    Token,
                    Error,
                >(token) && final(self).position == old(self).position + 1,
                None => old(self).position == old(self).tokens@.len() && final(self).position
                    == old(self).position,
            },
    {
        if self.position < self.tokens.len() {
            self.position += 1;
            Some(self.tokens[self.position - 1])
        } else {
            None
        }
    }

    /// The next token, which stays unread.
    fn peek(&self) -> (r: Option<Token>)
        requires
            self.position <= self.tokens@.len(),
        ensures
            match r {
                Some(token) => token_at(self.tokens@, self.position as nat) == Ok::<Token, Error>(
                    token,
                ),
                None => self.position == self.tokens@.len(),
            },
    {
        if self.position < self.tokens.len() {
            Some(self.tokens[self.position])
        } else {
            None
        }
    }
}

/// Reads a memory operand behind the opener of its group.
fn parse_group(parser: &mut Parser, input: &str) -> (r: Result<Operand, Error>)
    requires
        old(parser).position <= old(parser).tokens@.len(),
        all_fit(old(parser).tokens@, input@.len()),
    ensures
        final(parser).tokens@ == old(parser).tokens@,
        final(parser).position <= final(parser).tokens@.len(),
        r == group_at(old(parser).tokens@, input@, old(parser).position as nat),
        r is Ok ==> final(parser).position == old(parser).position + 3,
        r is Ok ==> operand_token(r->Ok_0).place().fits(input@.len()),
{
    let mode = match parser.next() {
        None => {
            return Err(Error::EndOfInput);
        },
        Some(t) => t,
    };
    if !mode.is_symbol() {
        return Err(Error::Token);
    }
    let operand = match parser.next() {
        None => {
            return Err(Error::EndOfInput);
        },
        Some(t) => t,
    };
    if !operand.is_symbol() {
        return Err(Error::Token);
    }
    match parser.next() {
        None => {
            return Err(Error::EndOfInput);
        },
        Some(t) => {
            // A mode takes one argument only.
            if !t.closerp() {
                return Err(Error::Token);
            }
        },
    }
    if same_text(mode.as_str(input), "address") {
        Ok(Operand::Address(operand))
    } else {
        Err(Error::Mode)
    }
}

/// Reads one operand, or the closer that ends the operands.
fn parse_operand(parser: &mut Parser, input: &str) -> (r: Result<Option<Operand>, Error>)
    requires
        old(parser).position <= old(parser).tokens@.len(),
        all_fit(old(parser).tokens@, input@.len()),
    ensures
        final(parser).tokens@ == old(parser).tokens@,
        final(parser).position <= final(parser).tokens@.len(),
        match operand_at(old(parser).tokens@, input@, old(parser).position as nat) {
            Err(e) => r == Err::<Option<Operand>, Error>(e),
            Ok(parsed) => {
                &&& r == Ok::<Option<Operand>, Error>(parsed.value)
                &&& final(parser).position == parsed.next
                &&& old(parser).position < parsed.next
                &&& parsed.value is Some ==> operand_token(parsed.value->0).place().fits(
                    input@.len(),
                )
            },
        },
{
    let t = match parser.next() {
        None => {
            return Err(Error::EndOfInput);
        },
        Some(t) => t,
    };
    if t.closerp() {
        Ok(None)
    } else if t.openerp() {
        match parse_group(parser, input) {
            Err(e) => Err(e),
            Ok(operand) => Ok(Some(operand)),
        }
    } else if t.is_integer() || t.is_float() {
        Ok(Some(Operand::Constant(t)))
    } else if t.is_symbol() {
        // A name is taken for a register. Which names are registers differs
        // between instruction sets and is checked later.
        Ok(Some(Operand::Register(t)))
    } else {
        Err(Error::Token)
    }
}

/// Parses a program. Inline assembly ends at the closer of the group that
/// holds it; a program of its own ends with the tokens.
pub fn parse(tokens: &[Token], input: &str, inlinep: bool) -> (r: Result<Vec<Instruction>, Error>)
    requires
        all_fit(tokens@, input@.len()),
    ensures
        match program(tokens@, input@, inlinep) {
            Err(e) => r == Err::<Vec<Instruction>, Error>(e),
            Ok(program) => r is Ok && lines(r->Ok_0@) == program,
        },
        r is Ok ==> lines_fit(lines(r->Ok_0@), input@.len()),
{
    let kept = without_comments(tokens);
    let mut parser = Parser::new(kept.as_slice());
    let mut instructions: Vec<Instruction> = Vec::new();
    let ghost all = significant(tokens@);
    proof {
        assert(lines(instructions@) =~= Seq::<Line>::empty());
    }
    loop
        invariant
            parser.tokens@ == all,
            all == significant(tokens@),
            parser.position <= all.len(),
            all_fit(all, input@.len()),
            lines_fit(lines(instructions@), input@.len()),
            match lines_from(all, input@, parser.position as nat, inlinep) {
                Ok(rest) => lines_from(all, input@, 0, inlinep) == Ok::<Seq<Line>, Error>(
                    lines(instructions@) + rest,
                ),
                Err(e) => lines_from(all, input@, 0, inlinep) == Err::<Seq<Line>, Error>(e),
            },
        decreases all.len() - parser.position,
    {
        let ghost start = parser.position as nat;
        match parser.next() {
            None => {
                if inlinep {
                    return Err(Error::EndOfInput);
                } else {
                    assert(lines(instructions@) + Seq::<Line>::empty() =~= lines(instructions@));
                    return Ok(instructions);
                }
            },
            Some(t) => {
                if t.closerp() {
                    if inlinep {
                        assert(lines(instructions@) + Seq::<Line>::empty() =~= lines(
                            instructions@,
                        ));
                        return Ok(instructions);
                    } else {
                        return Err(Error::Closer);
                    }
                } else if !t.openerp() {
                    return Err(Error::Opener);
                }
            },
        }
        let opcode = match parser.next() {
            None => {
                return Err(Error::EndOfInput);
            },
            Some(t) => t,
        };
        if !opcode.is_symbol() {
            return Err(Error::Token);
        }
        let mut operands: Vec<Operand> = Vec::new();
        loop
            invariant_except_break
                match operands_from(all, input@, parser.position as nat) {
                    Ok(rest) => operands_from(all, input@, start + 2) == Ok::<
                        Parsed<Seq<Operand>>,
                        Error,
                    >(Parsed { value: operands@ + rest.value, next: rest.next }),
                    Err(e) => operands_from(all, input@, start + 2) == Err::<
                        Parsed<Seq<Operand>>,
                        Error,
                    >(e),
                },
            invariant
                parser.tokens@ == all,
                all == significant(tokens@),
                lines_fit(lines(instructions@), input@.len()),
                opcode.place().fits(input@.len()),
                forall|j: int|
                    0 <= j < operands@.len() ==> operand_token(
                        #[trigger] operands@[j],
                    ).place().fits(input@.len()),
                start + 2 <= parser.position <= all.len(),
                all_fit(all, input@.len()),
                start < all.len(),
                all[start as int].is_opener(),
                !all[start as int].is_closer(),
                token_at(all, start + 1) == Ok::<Token, Error>(opcode),
                opcode is Symbol,
                match lines_from(all, input@, start, inlinep) {
                    Ok(rest) => lines_from(all, input@, 0, inlinep) == Ok::<Seq<Line>, Error>(
                        lines(instructions@) + rest,
                    ),
                    Err(e) => lines_from(all, input@, 0, inlinep) == Err::<Seq<Line>, Error>(e),
                },
            ensures
                parser.tokens@ == all,
                start + 2 < parser.position <= all.len(),
                operands_from(all, input@, start + 2) == Ok::<Parsed<Seq<Operand>>, Error>(
                    Parsed { value: operands@, next: parser.position as nat },
                ),
            decreases all.len() - parser.position,
        {
            let ghost before = operands@;
            match parse_operand(&mut parser, input) {
                Err(e) => {
                    proof {
                        assert(operands_from(all, input@, start + 2) == Err::<
                            Parsed<Seq<Operand>>,
                            Error,
                        >(e));
                        assert(lines_from(all, input@, start, inlinep) == Err::<Seq<Line>, Error>(
                            e,
                        ));
                    }
                    return Err(e);
                },
                Ok(None) => {
                    assert(operands@ + Seq::<Operand>::empty() =~= operands@);
                    break;
                },
                Ok(Some(operand)) => {
                    proof {
                        let rest = operands_from(all, input@, parser.position as nat);
                        if rest is Ok {
                            assert(before + (seq![operand] + rest->Ok_0.value) =~= before.push(
                                operand,
                            ) + rest->Ok_0.value);
                        }
                    }
                    operands.push(operand);
                },
            }
        }
        let instruction = Instruction::new(opcode, operands);
        proof {
            let line = instruction@;
            let rest = lines_from(all, input@, parser.position as nat, inlinep);
            assert(lines_from(all, input@, start, inlinep) == match rest {
                Err(e) => Err::<Seq<Line>, Error>(e),
                Ok(rest) => Ok(seq![line] + rest),
            });
            assert(lines(instructions@.push(instruction)) =~= lines(instructions@).push(line));
            assert forall|i: int| 0 <= i < instructions@.len() + 1 implies (#[trigger] lines(
                instructions@.push(instruction),
            )[i]).opcode.place().fits(input@.len()) && forall|j: int|
                0 <= j < lines(instructions@.push(instruction))[i].operands.len()
                    ==> operand_token(
                    #[trigger] lines(instructions@.push(instruction))[i].operands[j],
                ).place().fits(input@.len()) by {
                if i < instructions@.len() {
                    assert(lines(instructions@.push(instruction))[i] == lines(instructions@)[i]);
                }
            }
            if rest is Ok {
                assert(lines(instructions@) + (seq![line] + rest->Ok_0) =~= lines(
                    instructions@,
                ).push(line) + rest->Ok_0);
            }
        }
        instructions.push(instruction);
    }
}

/// What an instruction appends to the code: its encoding, or the error that
/// its mnemonic or its operands give. The mnemonic is looked at first, then
/// the number of operands, then the operands from left to right.
pub open spec fn encode(line: Line, input: Seq<char>) -> Result<
    crate::amd64::encoding::Encoding,
    AssembleError,
> {
    let opcode = line.opcode.text(input);
    let operands = line.operands;
    if opcode == "mov"@ {
        if operands.len() != 2 {
            Err(AssembleError::Operands)
        } else {
            encode_mov(operands[0], operands[1], input)
        }
    } else if opcode == "syscall"@ {
        if operands.len() != 0 {
            Err(AssembleError::Operands)
        } else {
            Ok(crate::amd64::encoding::syscall())
        }
    } else if opcode == "sub"@ {
        if operands.len() != 2 {
            Err(AssembleError::Operands)
        } else {
            match (operands[0], operands[1]) {
                (Operand::Register(to), Operand::Constant(c)) => match Register::from_name(
                    to.text(input),
                ) {
                    None => Err(AssembleError::Register),
                    Some(to) => match parsed_u8(c.text(input)) {
                        None => Err(AssembleError::InvalidConstant),
                        Some(v) => Ok(crate::amd64::encoding::sub_reg_u8(to, v)),
                    },
                },
                _ => Err(AssembleError::Operands),
            }
        }
    } else if opcode == "push"@ || opcode == "pop"@ {
        if operands.len() != 1 {
            Err(AssembleError::Operands)
        } else {
            match operands[0] {
                Operand::Register(name) => match Register::from_name(name.text(input)) {
                    None => Err(AssembleError::Register),
                    Some(register) => Ok(
                        if opcode == "push"@ {
                            crate::amd64::encoding::push_reg(register)
                        } else {
                            crate::amd64::encoding::pop_reg(register)
                        },
                    ),
                },
                _ => Err(AssembleError::Operands),
            }
        }
    } else {
        Err(AssembleError::Opcode)
    }
}

/// The encoding of a move, by its two operands.
pub open spec fn encode_mov(to: Operand, from: Operand, input: Seq<char>) -> Result<
    crate::amd64::encoding::Encoding,
    AssembleError,
> {
    match to {
        Operand::Constant(_) => Err(AssembleError::ToConstant),
        Operand::Register(name) => match Register::from_name(name.text(input)) {
            None => Err(AssembleError::Register),
            Some(to) => match from {
                Operand::Constant(c) => match parsed_i32(c.text(input)) {
                    None => Err(AssembleError::InvalidConstant),
                    Some(v) => if to.matches_immediate(Immediate::I32(v)) {
                        Ok(crate::amd64::encoding::mov_reg_imm(to, Immediate::I32(v)))
                    } else {
                        Err(AssembleError::Width)
                    },
                },
                Operand::Register(name) => match Register::from_name(name.text(input)) {
                    None => Err(AssembleError::Register),
                    Some(from) => if to.matches_register(from) {
                        Ok(crate::amd64::encoding::mov_reg_reg(to, from))
                    } else {
                        Err(AssembleError::Width)
                    },
                },
                Operand::Address(name) => match Register::from_name(name.text(input)) {
                    None => Err(AssembleError::Register),
                    Some(addr) => if addressable(addr) {
                        Ok(crate::amd64::encoding::mov_reg_addr(to, addr, None))
                    } else {
                        Err(AssembleError::Width)
                    },
                },
            },
        },
        Operand::Address(name) => match from {
            Operand::Address(_) => Err(AssembleError::Operands),
            Operand::Constant(c) => match Register::from_name(name.text(input)) {
                None => Err(AssembleError::Register),
                Some(addr) => match parsed_i32(c.text(input)) {
                    None => Err(AssembleError::InvalidConstant),
                    Some(v) => Ok(crate::amd64::encoding::mov_addr_i32(addr, None, v)),
                },
            },
            Operand::Register(source) => match Register::from_name(name.text(input)) {
                None => Err(AssembleError::Register),
                Some(addr) => match Register::from_name(source.text(input)) {
                    None => Err(AssembleError::Register),
                    Some(from) => if addressable(addr) {
                        Ok(crate::amd64::encoding::mov_addr_reg(addr, from, None))
                    } else {
                        Err(AssembleError::Width)
                    },
                },
            },
        },
    }
}

/// The code of a program: the encodings of its instructions one after the
/// other, or the error of the first instruction that gives one.
pub open spec fn code_of(program: Seq<Line>, input: Seq<char>) -> Result<Seq<u8>, AssembleError>
    decreases program.len(),
{
    if program.len() == 0 {
        Ok(Seq::empty())
    } else {
        match code_of(program.drop_last(), input) {
            Err(e) => Err(e),
            Ok(code) => match encode(program.last(), input) {
                Err(e) => Err(e),
                Ok(encoding) => Ok(code + encoding.bytes()),
            },
        }
    }
}

/// Whether every token of every instruction lies within a text of `len`
/// characters.
pub open spec fn lines_fit(program: Seq<Line>, len: nat) -> bool {
    forall|i: int|
        0 <= i < program.len() ==> (#[trigger] program[i]).opcode.place().fits(len) && forall|
            j: int,
        |
            0 <= j < program[i].operands.len() ==> operand_token(
                #[trigger] program[i].operands[j],
            ).place().fits(len)
}

/// The token of an operand.
pub open spec fn operand_token(operand: Operand) -> Token {
    match operand {
        Operand::Register(t) => t,
        Operand::Address(t) => t,
        Operand::Constant(t) => t,
    }
}

/// The register that a token names.
fn register_named(name: &Token, input: &str) -> (r: Option<Register>)
    requires
        name.place().fits(input@.len()),
    ensures
        r == Register::from_name(name.text(input@)),
{
    Register::from_str(name.as_str(input))
}

/// The signed 32-bit number that a token spells.
fn number(token: &Token, input: &str) -> (r: Option<i32>)
    requires
        token.place().fits(input@.len()),
    ensures
        r == parsed_i32(token.text(input@)),
{
    match parse_i32(token.as_str(input)) {
        Ok(v) => Some(v),
        Err(_) => None,
    }
}

/// The byte that a token spells.
fn byte(token: &Token, input: &str) -> (r: Option<u8>)
    requires
        token.place().fits(input@.len()),
    ensures
        r == parsed_u8(token.text(input@)),
{
    match parse_u8(token.as_str(input)) {
        Ok(v) => Some(v),
        Err(_) => None,
    }
}

/// Whether the assembler did what `outcome` says: on an encoding, it has
/// appended it; on an error, it is unchanged and reports the error.
pub open spec fn encoded(
    outcome: Result<crate::amd64::encoding::Encoding, AssembleError>,
    before: Session,
    after: Session,
    result: Result<(), AssembleError>,
) -> bool {
    match outcome {
        Ok(encoding) => result is Ok && after == before.emit(encoding.bytes()),
        Err(e) => result == Err::<(), AssembleError>(e) && after == before,
    }
}

/// Encodes a move.
fn assemble_mov(assembler: &mut Assembler, to: &Operand, from: &Operand, input: &str) -> (r: Result<
    (),
    AssembleError,
>)
    requires
        operand_token(*to).place().fits(input@.len()),
        operand_token(*from).place().fits(input@.len()),
    ensures
        encoded(encode_mov(*to, *from, input@), old(assembler)@, final(assembler)@, r),
{
    match to {
        Operand::Constant(_) => Err(AssembleError::ToConstant),
        Operand::Register(name) => {
            let to = match register_named(name, input) {
                None => {
                    return Err(AssembleError::Register);
                },
                Some(to) => to,
            };
            match from {
                Operand::Constant(c) => {
                    let v = match number(c, input) {
                        None => {
                            return Err(AssembleError::InvalidConstant);
                        },
                        Some(v) => v,
                    };
                    if !to.matches_imm(Immediate::I32(v)) {
                        return Err(AssembleError::Width);
                    }
                    assembler.mov_reg_i32(to, v);
                    Ok(())
                },
                Operand::Register(name) => {
                    let from = match register_named(name, input) {
                        None => {
                            return Err(AssembleError::Register);
                        },
                        Some(from) => from,
                    };
                    if !to.matches_reg(from) {
                        return Err(AssembleError::Width);
                    }
                    assembler.mov_reg_reg(to, from);
                    Ok(())
                },
                Operand::Address(name) => {
                    let addr = match register_named(name, input) {
                        None => {
                            return Err(AssembleError::Register);
                        },
                        Some(addr) => addr,
                    };
                    if !(addr.b64p() || addr.b32p()) {
                        return Err(AssembleError::Width);
                    }
                    assembler.mov_reg_addr(to, addr, None);
                    Ok(())
                },
            }
        },
        Operand::Address(name) => {
            if let Operand::Address(_) = from {
                return Err(AssembleError::Operands);
            }
            let addr = match register_named(name, input) {
                None => {
                    return Err(AssembleError::Register);
                },
                Some(addr) => addr,
            };
            match from {
                Operand::Constant(c) => {
                    let v = match number(c, input) {
                        None => {
                            return Err(AssembleError::InvalidConstant);
                        },
                        Some(v) => v,
                    };
                    assembler.mov_addr_i32(addr, None, v);
                    Ok(())
                },
                Operand::Register(name) => {
                    let from = match register_named(name, input) {
                        None => {
                            return Err(AssembleError::Register);
                        },
                        Some(from) => from,
                    };
                    if !(addr.b64p() || addr.b32p()) {
                        return Err(AssembleError::Width);
                    }
                    assembler.mov_addr_reg(addr, from, None);
                    Ok(())
                },
                Operand::Address(_) => Err(AssembleError::Operands),
            }
        },
    }
}

/// Encodes one instruction, or says why it cannot be encoded. An instruction
/// that cannot be encoded leaves the session as it was.
pub fn assemble_one(assembler: &mut Assembler, instruction: &Instruction, input: &str) -> (r:
    Result<(), AssembleError>)
    requires
        instruction.opcode.place().fits(input@.len()),
        forall|j: int|
            0 <= j < instruction.operands@.len() ==> operand_token(
                #[trigger] instruction.operands@[j],
            ).place().fits(input@.len()),
    ensures
        encoded(encode(instruction@, input@), old(assembler)@, final(assembler)@, r),
{
    let opcode = instruction.opcode.as_str(input);
    let operands = &instruction.operands;
    if same_text(opcode, "mov") {
        if operands.len() != 2 {
            return Err(AssembleError::Operands);
        }
        assemble_mov(assembler, &operands[0], &operands[1], input)
    } else if same_text(opcode, "syscall") {
        if operands.len() != 0 {
            return Err(AssembleError::Operands);
        }
        assembler.syscall();
        Ok(())
    } else if same_text(opcode, "sub") {
        if operands.len() != 2 {
            return Err(AssembleError::Operands);
        }
        match (&operands[0], &operands[1]) {
            (Operand::Register(to), Operand::Constant(c)) => {
                let to = match register_named(to, input) {
                    None => {
                        return Err(AssembleError::Register);
                    },
                    Some(to) => to,
                };
                let v = match byte(c, input) {
                    None => {
                        return Err(AssembleError::InvalidConstant);
                    },
                    Some(v) => v,
                };
                assembler.sub_reg_u8(to, v);
                Ok(())
            },
            _ => Err(AssembleError::Operands),
        }
    } else {
        let push = same_text(opcode, "push");
        if push || same_text(opcode, "pop") {
            if operands.len() != 1 {
                return Err(AssembleError::Operands);
            }
            match &operands[0] {
                Operand::Register(name) => {
                    let register = match register_named(name, input) {
                        None => {
                            return Err(AssembleError::Register);
                        },
                        Some(register) => register,
                    };
                    if push {
                        assembler.push_reg(register);
                    } else {
                        assembler.pop_reg(register);
                    }
                    Ok(())
                },
                _ => Err(AssembleError::Operands),
            }
        } else {
            Err(AssembleError::Opcode)
        }
    }
}

/// Assembles a program for x86-64: the encodings of its instructions one
/// after the other. The first instruction that cannot be encoded gives the
/// error.
pub fn assemble(instructions: Vec<Instruction>, input: &str) -> (r: Result<Vec<u8>, AssembleError>)
    requires
        lines_fit(lines(instructions@), input@.len()),
    ensures
        match code_of(lines(instructions@), input@) {
            Ok(code) => r is Ok && r->Ok_0@ == code,
            Err(e) => r == Err::<Vec<u8>, AssembleError>(e),
        },
{
    let mut assembler = Assembler::new();
    let mut i: usize = 0;
    let ghost program = lines(instructions@);
    assert(program.take(0) =~= Seq::<Line>::empty());
    assert(Session::empty().code =~= Seq::<u8>::empty());
    while i < instructions.len()
        invariant
            i <= instructions@.len(),
            program == lines(instructions@),
            lines_fit(program, input@.len()),
            assembler@.jumps.len() == 0,
            code_of(program.take(i as int), input@) == Ok::<Seq<u8>, AssembleError>(
                assembler@.code,
            ),
        decreases instructions@.len() - i,
    {
        proof {
            assert(program.take(i + 1).drop_last() =~= program.take(i as int));
            assert(program.take(i + 1).last() == program[i as int]);
            assert(program[i as int] == instructions@[i as int]@);
            assert(program[i as int].opcode.place().fits(input@.len()));
            assert forall|j: int| 0 <= j < instructions@[i as int].operands@.len() implies
                operand_token(#[trigger] instructions@[i as int].operands@[j]).place().fits(
                input@.len(),
            ) by {
                assert(instructions@[i as int].operands@[j] == program[i as int].operands[j]);
            }
        }
        match assemble_one(&mut assembler, &instructions[i], input) {
            Ok(()) => {},
            Err(e) => {
                proof {
                    lemma_code_of_fails(program, i as int, input@);
                }
                return Err(e);
            },
        }
        i += 1;
    }
    assert(program.take(i as int) =~= program);
    proof {
        assembler@.lemma_no_failure_is_resolvable();
    }
    match assembler.try_finish() {
        Ok(code) => {
            assert(code@ =~= assembler@.code);
            Ok(code)
        },
        Err(PatchError::UnknownLabel) => Err(AssembleError::Label),
        Err(PatchError::OutOfRange) => Err(AssembleError::Range),
    }
}

/// The first instruction that gives an error decides the error of the
/// program.
proof fn lemma_code_of_fails(program: Seq<Line>, i: int, input: Seq<char>)
    requires
        0 <= i < program.len(),
        code_of(program.take(i), input) is Ok,
        encode(program[i], input) is Err,
    ensures
        code_of(program, input) == Err::<Seq<u8>, AssembleError>(encode(program[i], input)->Err_0),
    decreases program.len(),
{
    if i == program.len() - 1 {
        assert(program.drop_last() =~= program.take(i));
    } else {
        assert(program.drop_last().take(i) =~= program.take(i));
        lemma_code_of_fails(program.drop_last(), i, input);
    }
}

} // verus!
