//! The driver for x86-64: takes a parsed program, checks each instruction
//! against the shapes that its mnemonic allows, and has the assembler encode
//! it.

use crate::amd64::assembler::Assembler;
use crate::amd64::encoding::{addressable, extends_dword, Encoding};
use crate::amd64::register::Register;
use crate::interner::{text_of, StringInterner, Symbol};
use crate::session::{PatchError, Session, NEAR, SHORT};
use crate::syntax::{Displacement, Immediate, Instruction, Operand};
use crate::text::same_text;
use vstd::prelude::*;
use vstd::string::StrSliceExecFns;

pub use crate::amd64::error::Error;

verus! {

/// The instructions that the driver knows.
#[derive(Debug, Copy, Clone, PartialEq, Eq, Structural)]
pub enum Mnemonic {
    Mov,
    Add,
    Sub,
    And,
    Mul,
    Test,
    Push,
    Pop,
    Call,
    Ret,
    Syscall,
    Jz,
    Jnz,
    Je,
    Jmp,
}

impl Mnemonic {
    /// The instruction that `text` names, if it names one.
    pub open spec fn from_text(text: Seq<char>) -> Option<Mnemonic> {
        if text == "mov"@ {
            Some(Mnemonic::Mov)
        } else if text == "add"@ {
            Some(Mnemonic::Add)
        } else if text == "sub"@ {
            Some(Mnemonic::Sub)
        } else if text == "and"@ {
            Some(Mnemonic::And)
        } else if text == "mul"@ {
            Some(Mnemonic::Mul)
        } else if text == "test"@ {
            Some(Mnemonic::Test)
        } else if text == "push"@ {
            Some(Mnemonic::Push)
        } else if text == "pop"@ {
            Some(Mnemonic::Pop)
        } else if text == "call"@ {
            Some(Mnemonic::Call)
        } else if text == "ret"@ {
            Some(Mnemonic::Ret)
        } else if text == "syscall"@ {
            Some(Mnemonic::Syscall)
        } else if text == "jz"@ {
            Some(Mnemonic::Jz)
        } else if text == "jnz"@ {
            Some(Mnemonic::Jnz)
        } else if text == "je"@ {
            Some(Mnemonic::Je)
        } else if text == "jmp"@ {
            Some(Mnemonic::Jmp)
        } else {
            None
        }
    }

    /// Looks an instruction up by its name.
    pub fn from_str(text: &str) -> (r: Option<Mnemonic>)
        ensures
            r == Mnemonic::from_text(text@),
    {
        if same_text(text, "mov") {
            Some(Mnemonic::Mov)
        } else if same_text(text, "add") {
            Some(Mnemonic::Add)
        } else if same_text(text, "sub") {
            Some(Mnemonic::Sub)
        } else if same_text(text, "and") {
            Some(Mnemonic::And)
        } else if same_text(text, "mul") {
            Some(Mnemonic::Mul)
        } else if same_text(text, "test") {
            Some(Mnemonic::Test)
        } else if same_text(text, "push") {
            Some(Mnemonic::Push)
        } else if same_text(text, "pop") {
            Some(Mnemonic::Pop)
        } else if same_text(text, "call") {
            Some(Mnemonic::Call)
        } else if same_text(text, "ret") {
            Some(Mnemonic::Ret)
        } else if same_text(text, "syscall") {
            Some(Mnemonic::Syscall)
        } else if same_text(text, "jz") {
            Some(Mnemonic::Jz)
        } else if same_text(text, "jnz") {
            Some(Mnemonic::Jnz)
        } else if same_text(text, "je") {
            Some(Mnemonic::Je)
        } else if same_text(text, "jmp") {
            Some(Mnemonic::Jmp)
        } else {
            None
        }
    }
}

/// The kind of an operand: what is known of it before its names are
/// resolved.
#[derive(Debug, Copy, Clone, PartialEq, Eq, Structural)]
pub enum Kind {
    /// A register.
    Register,
    /// The memory at the address in a register.
    Memory,
    /// The memory at the address in a register, moved by a displacement.
    Displaced,
    /// A typed constant.
    Constant,
    /// A label.
    Label,
}

impl Kind {
    /// The kind of an operand.
    pub open spec fn of(operand: Operand) -> Kind {
        match operand {
            Operand::Register(_) => Kind::Register,
            Operand::Address(None, _) => Kind::Memory,
            Operand::Address(Some(_), _) => Kind::Displaced,
            Operand::Constant(_) => Kind::Constant,
            Operand::Label(_) => Kind::Label,
        }
    }

    /// The kind of an operand.
    pub fn of_operand(operand: &Operand) -> (kind: Kind)
        ensures
            kind == Kind::of(*operand),
    {
        match operand {
            Operand::Register(_) => Kind::Register,
            Operand::Address(None, _) => Kind::Memory,
            Operand::Address(Some(_), _) => Kind::Displaced,
            Operand::Constant(_) => Kind::Constant,
            Operand::Label(_) => Kind::Label,
        }
    }

    /// Whether the operand is in memory, with a displacement or without.
    pub open spec fn in_memory(self) -> bool {
        self == Kind::Memory || self == Kind::Displaced
    }
}

/// Whether an instruction takes two operands of these kinds: `Ok`, or the
/// error that the kinds give.
pub open spec fn shape_of_two(mnemonic: Mnemonic, to: Kind, from: Kind) -> Result<(), Error> {
    let fits = match mnemonic {
        Mnemonic::Mov => (to == Kind::Register && from != Kind::Label) || (to.in_memory() && (from
            == Kind::Register || from == Kind::Constant)),
        Mnemonic::Add | Mnemonic::Sub => (to == Kind::Register && from == Kind::Constant) || (to
            == Kind::Memory && from == Kind::Constant) || (to.in_memory() && from
            == Kind::Register),
        Mnemonic::And => to == Kind::Register && from == Kind::Constant,
        Mnemonic::Test => to == Kind::Register && from == Kind::Register,
        _ => false,
    };
    if mnemonic == Mnemonic::Mov && to == Kind::Constant {
        Err(Error::ToConstant)
    } else if fits {
        Ok(())
    } else {
        Err(Error::Operands)
    }
}

/// Whether an instruction takes one operand of this kind.
pub open spec fn shape_of_one(mnemonic: Mnemonic, operand: Kind) -> Result<(), Error> {
    let fits = match mnemonic {
        Mnemonic::Mul | Mnemonic::Push | Mnemonic::Pop => operand == Kind::Register,
        Mnemonic::Call => operand == Kind::Register || operand == Kind::Constant || operand
            == Kind::Label,
        Mnemonic::Jz | Mnemonic::Jnz | Mnemonic::Je | Mnemonic::Jmp => operand == Kind::Label,
        _ => false,
    };
    if fits {
        Ok(())
    } else {
        Err(Error::Operands)
    }
}

/// Whether an instruction takes no operand.
pub open spec fn shape_of_none(mnemonic: Mnemonic) -> Result<(), Error> {
    if mnemonic == Mnemonic::Ret || mnemonic == Mnemonic::Syscall {
        Ok(())
    } else {
        Err(Error::Operands)
    }
}

/// Whether an instruction takes these operands, by their number and kinds
/// alone: `Ok`, or `Error::ToConstant` for a move into a constant, or
/// `Error::Operands`. No name is looked at.
pub open spec fn shape(mnemonic: Mnemonic, operands: Seq<Operand>) -> Result<(), Error> {
    if operands.len() == 0 {
        shape_of_none(mnemonic)
    } else if operands.len() == 1 {
        shape_of_one(mnemonic, Kind::of(operands[0]))
    } else if operands.len() == 2 {
        shape_of_two(mnemonic, Kind::of(operands[0]), Kind::of(operands[1]))
    } else {
        Err(Error::Operands)
    }
}

/// An operand whose names are resolved, as a plain value.
pub enum Target {
    /// A register.
    Register(Register),
    /// The memory at the address in a register, moved by a displacement
    /// where there is one.
    Memory(Register, Option<Displacement>),
    /// A typed constant.
    Constant(Immediate),
    /// A label, by its name.
    Label(Seq<char>),
}

/// An operand whose names are resolved.
pub enum Resolved {
    /// A register.
    Register(Register),
    /// The memory at the address in a register, moved by a displacement
    /// where there is one.
    Memory(Register, Option<Displacement>),
    /// A typed constant.
    Constant(Immediate),
    /// A label, by its name.
    Label(String),
}

impl View for Resolved {
    type V = Target;

    open spec fn view(&self) -> Target {
        match self {
            Resolved::Register(r) => Target::Register(*r),
            Resolved::Memory(r, d) => Target::Memory(*r, *d),
            Resolved::Constant(imm) => Target::Constant(*imm),
            Resolved::Label(name) => Target::Label(name@),
        }
    }
}

/// What an instruction does to the session.
pub enum Action {
    /// It appends an encoded instruction.
    Emit(Encoding),
    /// It appends a jump whose displacement is patched at the end.
    Jump { opcode: Seq<u8>, label: Seq<char>, width: nat },
}

/// The register that a symbol names, if it names one.
pub open spec fn register_of(names: Seq<Seq<char>>, symbol: Symbol) -> Option<Register> {
    match text_of(names, symbol) {
        Some(text) => Register::from_name(text),
        None => None,
    }
}

/// The name that a label definition defines: its text without the colon
/// that ends it.
pub open spec fn label_name(text: Seq<char>) -> Seq<char> {
    if text.len() > 0 && text.last() == ':' {
        text.drop_last()
    } else {
        text
    }
}

/// An operand with its names resolved, or the error that its name gives: a
/// register name that names no register, a label without text.
pub open spec fn resolve(operand: Operand, names: Seq<Seq<char>>) -> Result<Target, Error> {
    match operand {
        Operand::Register(symbol) => match register_of(names, symbol) {
            Some(register) => Ok(Target::Register(register)),
            None => Err(Error::Register),
        },
        Operand::Address(displacement, symbol) => match register_of(names, symbol) {
            Some(register) => Ok(Target::Memory(register, displacement)),
            None => Err(Error::Register),
        },
        Operand::Constant(imm) => Ok(Target::Constant(imm)),
        Operand::Label(symbol) => match text_of(names, symbol) {
            Some(text) => Ok(Target::Label(text)),
            None => Err(Error::Label),
        },
    }
}

/// The operands with their names resolved, or the error of the first one
/// that cannot be resolved.
pub open spec fn resolve_all(operands: Seq<Operand>, names: Seq<Seq<char>>) -> Result<
    Seq<Target>,
    Error,
>
    decreases operands.len(),
{
    if operands.len() == 0 {
        Ok(Seq::empty())
    } else {
        match resolve_all(operands.drop_last(), names) {
            Err(e) => Err(e),
            Ok(front) => match resolve(operands.last(), names) {
                Err(e) => Err(e),
                Ok(target) => Ok(front.push(target)),
            },
        }
    }
}

/// The encoding of a move, by the kinds and widths of its two operands.
pub open spec fn select_mov(to: Target, from: Target) -> Result<Action, Error> {
    match (to, from) {
        (Target::Constant(_), _) => Err(Error::ToConstant),
        (Target::Register(to), Target::Register(from)) => if to.matches_register(from) {
            Ok(Action::Emit(crate::amd64::encoding::mov_reg_reg(to, from)))
        } else {
            Err(Error::Width)
        },
        (Target::Register(to), Target::Memory(addr, displacement)) => if addressable(addr) {
            Ok(Action::Emit(crate::amd64::encoding::mov_reg_addr(to, addr, displacement)))
        } else {
            Err(Error::Width)
        },
        (Target::Register(to), Target::Constant(imm)) => if to.matches_immediate(imm) {
            Ok(Action::Emit(crate::amd64::encoding::mov_reg_imm(to, imm)))
        } else {
            Err(Error::Width)
        },
        (Target::Memory(addr, displacement), Target::Register(from)) => if addressable(addr) {
            Ok(Action::Emit(crate::amd64::encoding::mov_addr_reg(addr, from, displacement)))
        } else {
            Err(Error::Width)
        },
        (Target::Memory(addr, displacement), Target::Constant(imm)) => if addr.matches_immediate(
            imm,
        ) && imm.storable() {
            Ok(Action::Emit(crate::amd64::encoding::mov_addr_imm(addr, displacement, imm)))
        } else {
            Err(Error::Width)
        },
        _ => Err(Error::Operands),
    }
}

/// The encoding of an addition, by the kinds and widths of its two operands.
pub open spec fn select_add(to: Target, from: Target) -> Result<Action, Error> {
    match (to, from) {
        (Target::Register(to), Target::Constant(Immediate::U8(imm))) => Ok(
            Action::Emit(crate::amd64::encoding::add_reg_u8(to, imm)),
        ),
        (Target::Register(to), Target::Constant(Immediate::U32(imm))) => if to.matches_immediate(
            Immediate::U32(imm),
        ) {
            Ok(Action::Emit(crate::amd64::encoding::add_reg_u32(to, imm)))
        } else {
            Err(Error::Width)
        },
        (Target::Register(_), Target::Constant(_)) => Err(Error::Width),
        (Target::Memory(addr, None), Target::Constant(Immediate::U8(imm))) => Ok(
            Action::Emit(crate::amd64::encoding::add_addr_u8(addr, imm)),
        ),
        (Target::Memory(_, None), Target::Constant(_)) => Err(Error::Width),
        (Target::Memory(addr, displacement), Target::Register(from)) => Ok(
            Action::Emit(crate::amd64::encoding::add_addr_reg(addr, from, displacement)),
        ),
        _ => Err(Error::Operands),
    }
}

/// The encoding of a subtraction, by the kinds and widths of its two
/// operands.
pub open spec fn select_sub(to: Target, from: Target) -> Result<Action, Error> {
    match (to, from) {
        (Target::Register(to), Target::Constant(Immediate::U8(imm))) => Ok(
            Action::Emit(crate::amd64::encoding::sub_reg_u8(to, imm)),
        ),
        (Target::Register(to), Target::Constant(Immediate::U32(imm))) => if to.matches_immediate(
            Immediate::U32(imm),
        ) {
            Ok(Action::Emit(crate::amd64::encoding::sub_reg_u32(to, imm)))
        } else {
            Err(Error::Width)
        },
        (Target::Register(to), Target::Constant(Immediate::U64(imm))) => if extends_dword(imm) {
            Ok(Action::Emit(crate::amd64::encoding::sub_reg_u64(to, imm)))
        } else {
            Err(Error::Width)
        },
        (Target::Register(_), Target::Constant(_)) => Err(Error::Width),
        (Target::Memory(addr, None), Target::Constant(Immediate::U8(imm))) => Ok(
            Action::Emit(crate::amd64::encoding::sub_addr_u8(addr, imm)),
        ),
        (Target::Memory(_, None), Target::Constant(_)) => Err(Error::Width),
        (Target::Memory(addr, displacement), Target::Register(from)) => Ok(
            Action::Emit(crate::amd64::encoding::sub_addr_reg(addr, from, displacement)),
        ),
        _ => Err(Error::Operands),
    }
}

/// The encoding of an instruction with two operands.
pub open spec fn select_binary(mnemonic: Mnemonic, to: Target, from: Target) -> Result<
    Action,
    Error,
> {
    match mnemonic {
        Mnemonic::Mov => select_mov(to, from),
        Mnemonic::Add => select_add(to, from),
        Mnemonic::Sub => select_sub(to, from),
        Mnemonic::And => match (to, from) {
            (Target::Register(to), Target::Constant(Immediate::U32(imm)))
                => if to.matches_immediate(Immediate::U32(imm)) {
                Ok(Action::Emit(crate::amd64::encoding::and_reg_imm(to, imm)))
            } else {
                Err(Error::Width)
            },
            (Target::Register(_), Target::Constant(_)) => Err(Error::Width),
            _ => Err(Error::Operands),
        },
        Mnemonic::Test => match (to, from) {
            (Target::Register(r1), Target::Register(r2)) => Ok(
                Action::Emit(crate::amd64::encoding::test(r1, r2)),
            ),
            _ => Err(Error::Operands),
        },
        _ => Err(Error::Operands),
    }
}

/// The encoding of an instruction with one operand.
pub open spec fn select_unary(mnemonic: Mnemonic, operand: Target) -> Result<Action, Error> {
    match (mnemonic, operand) {
        (Mnemonic::Mul, Target::Register(from)) => Ok(
            Action::Emit(crate::amd64::encoding::mul(from)),
        ),
        (Mnemonic::Push, Target::Register(from)) => Ok(
            Action::Emit(crate::amd64::encoding::push_reg(from)),
        ),
        (Mnemonic::Pop, Target::Register(to)) => Ok(Action::Emit(crate::amd64::encoding::pop_reg(to))),
        (Mnemonic::Call, Target::Register(reg)) => Ok(
            Action::Emit(crate::amd64::encoding::call_addr(reg)),
        ),
        (Mnemonic::Call, Target::Constant(imm)) => if imm.is_32bit() {
            Ok(Action::Emit(crate::amd64::encoding::call_imm(imm)))
        } else {
            Err(Error::Width)
        },
        (Mnemonic::Call, Target::Label(label)) => Ok(
            Action::Jump { opcode: seq![0xe8u8], label, width: NEAR as nat },
        ),
        (Mnemonic::Jz, Target::Label(label)) => Ok(
            Action::Jump { opcode: seq![0x0fu8, 0x84u8], label, width: NEAR as nat },
        ),
        (Mnemonic::Jnz, Target::Label(label)) => Ok(
            Action::Jump { opcode: seq![0x0fu8, 0x85u8], label, width: NEAR as nat },
        ),
        (Mnemonic::Je, Target::Label(label)) => Ok(
            Action::Jump { opcode: seq![0x74u8], label, width: SHORT as nat },
        ),
        (Mnemonic::Jmp, Target::Label(label)) => Ok(
            Action::Jump { opcode: seq![0xebu8], label, width: SHORT as nat },
        ),
        _ => Err(Error::Operands),
    }
}

/// The encoding of an instruction without operands.
pub open spec fn select_nullary(mnemonic: Mnemonic) -> Result<Action, Error> {
    match mnemonic {
        Mnemonic::Ret => Ok(Action::Emit(crate::amd64::encoding::ret())),
        Mnemonic::Syscall => Ok(Action::Emit(crate::amd64::encoding::syscall())),
        _ => Err(Error::Operands),
    }
}

/// What an instruction does, by its mnemonic and its resolved operands: the
/// action, or the error that the number, kinds or widths of the operands
/// give.
pub open spec fn select(mnemonic: Mnemonic, operands: Seq<Target>) -> Result<Action, Error> {
    if operands.len() == 0 {
        select_nullary(mnemonic)
    } else if operands.len() == 1 {
        select_unary(mnemonic, operands[0])
    } else if operands.len() == 2 {
        select_binary(mnemonic, operands[0], operands[1])
    } else {
        Err(Error::Operands)
    }
}

/// The session after an action.
pub open spec fn apply(session: Session, action: Action) -> Session {
    match action {
        Action::Emit(encoding) => session.emit(encoding.bytes()),
        Action::Jump { opcode, label, width } => session.jump(opcode, label, width),
    }
}

/// The session after one entry of the program, or the error that the entry
/// gives. The mnemonic is looked up first; then the number and the kinds of
/// the operands are tested; then their names are resolved from left to
/// right; then their widths are tested.
pub open spec fn step(session: Session, instruction: Instruction, names: Seq<Seq<char>>) -> Result<
    Session,
    Error,
> {
    match instruction {
        Instruction::Label(symbol) => match text_of(names, symbol) {
            Some(text) => Ok(session.define(label_name(text))),
            None => Err(Error::Label),
        },
        Instruction::Operation(operation) => match text_of(names, operation.opcode) {
            None => Err(Error::Opcode),
            Some(text) => match Mnemonic::from_text(text) {
                None => Err(Error::Opcode),
                Some(mnemonic) => match shape(mnemonic, operation.operands@) {
                    Err(e) => Err(e),
                    Ok(_) => match resolve_all(operation.operands@, names) {
                        Err(e) => Err(e),
                        Ok(targets) => match select(mnemonic, targets) {
                            Err(e) => Err(e),
                            Ok(action) => Ok(apply(session, action)),
                        },
                    },
                },
            },
        },
    }
}

/// The session after the entries of a program in their order, or the error
/// of the first entry that gives one.
pub open spec fn run(session: Session, program: Seq<Instruction>, names: Seq<Seq<char>>) -> Result<
    Session,
    Error,
>
    decreases program.len(),
{
    if program.len() == 0 {
        Ok(session)
    } else {
        match run(session, program.drop_last(), names) {
            Err(e) => Err(e),
            Ok(before) => step(before, program.last(), names),
        }
    }
}

/// Whether `result` is what assembling the program gives: the error of the
/// first entry that has one; else the error of the first jump that cannot be
/// patched; else the finished code.
pub open spec fn assembled(
    program: Seq<Instruction>,
    names: Seq<Seq<char>>,
    result: Result<Vec<u8>, Error>,
) -> bool {
    match run(Session::empty(), program, names) {
        Err(e) => result == Err::<Vec<u8>, Error>(e),
        Ok(session) => match session.failure() {
            Some(e) => result == Err::<Vec<u8>, Error>(Error::of_patch(e)),
            None => result matches Ok(code) && session.wf() && session.finishes_to(code@),
        },
    }
}

/// The plain values of resolved operands.
pub open spec fn targets(operands: Seq<Resolved>) -> Seq<Target> {
    Seq::new(operands.len(), |i: int| operands[i]@)
}

/// Whether the assembler did what `outcome` says: on an action, it is the
/// session after the action; on an error, it is unchanged and the error is
/// reported.
pub open spec fn performed(
    outcome: Result<Action, Error>,
    before: Session,
    after: Session,
    result: Result<(), Error>,
) -> bool {
    match outcome {
        Ok(action) => result is Ok && after == apply(before, action),
        Err(e) => result == Err::<(), Error>(e) && after == before,
    }
}

/// The string that a symbol stands for.
fn symbol_value(interner: &StringInterner, symbol: Symbol) -> (text: Option<String>)
    ensures
        match text {
            Some(text) => text_of(interner@, symbol) == Some(text@),
            None => text_of(interner@, symbol) is None,
        },
{
    interner.get_value(symbol)
}

/// The register that a symbol names.
fn symbol_register(interner: &StringInterner, symbol: Symbol) -> (register: Option<Register>)
    ensures
        register == register_of(interner@, symbol),
{
    match symbol_value(interner, symbol) {
        Some(text) => Register::from_str(text.as_str()),
        None => None,
    }
}

/// Resolves the names of one operand.
fn resolve_operand(operand: &Operand, interner: &StringInterner) -> (r: Result<Resolved, Error>)
    ensures
        match r {
            Ok(resolved) => resolve(*operand, interner@) == Ok::<Target, Error>(resolved@),
            Err(e) => resolve(*operand, interner@) == Err::<Target, Error>(e),
        },
{
    match operand {
        Operand::Register(symbol) => match symbol_register(interner, *symbol) {
            Some(register) => Ok(Resolved::Register(register)),
            None => Err(Error::Register),
        },
        Operand::Address(displacement, symbol) => match symbol_register(interner, *symbol) {
            Some(register) => Ok(Resolved::Memory(register, *displacement)),
            None => Err(Error::Register),
        },
        Operand::Constant(imm) => Ok(Resolved::Constant(*imm)),
        Operand::Label(symbol) => match symbol_value(interner, *symbol) {
            Some(text) => Ok(Resolved::Label(text)),
            None => Err(Error::Label),
        },
    }
}

/// Resolves the names of the operands from left to right.
fn resolve_operands(operands: &Vec<Operand>, interner: &StringInterner) -> (r: Result<
    Vec<Resolved>,
    Error,
>)
    ensures
        match r {
            Ok(resolved) => resolve_all(operands@, interner@) == Ok::<Seq<Target>, Error>(
                targets(resolved@),
            ),
            Err(e) => resolve_all(operands@, interner@) == Err::<Seq<Target>, Error>(e),
        },
{
    let mut resolved: Vec<Resolved> = Vec::new();
    let mut i: usize = 0;
    assert(targets(resolved@) =~= Seq::<Target>::empty());
    assert(operands@.take(0) =~= Seq::<Operand>::empty());
    while i < operands.len()
        invariant
            i <= operands@.len(),
            resolve_all(operands@.take(i as int), interner@) == Ok::<Seq<Target>, Error>(
                targets(resolved@),
            ),
        decreases operands@.len() - i,
    {
        proof {
            assert(operands@.take(i + 1).drop_last() =~= operands@.take(i as int));
            assert(operands@.take(i + 1).last() == operands@[i as int]);
        }
        match resolve_operand(&operands[i], interner) {
            Ok(one) => {
                assert(targets(resolved@.push(one)) =~= targets(resolved@).push(one@));
                resolved.push(one);
            },
            Err(e) => {
                proof {
                    lemma_resolve_all_fails(operands@, i as int, interner@);
                }
                return Err(e);
            },
        }
        i += 1;
    }
    assert(operands@.take(i as int) =~= operands@);
    Ok(resolved)
}

/// The first operand that cannot be resolved decides the error.
proof fn lemma_resolve_all_fails(operands: Seq<Operand>, i: int, names: Seq<Seq<char>>)
    requires
        0 <= i < operands.len(),
        resolve_all(operands.take(i), names) is Ok,
        resolve(operands[i], names) is Err,
    ensures
        resolve_all(operands, names) == Err::<Seq<Target>, Error>(
            resolve(operands[i], names)->Err_0,
        ),
    decreases operands.len(),
{
    if i == operands.len() - 1 {
        assert(operands.drop_last() =~= operands.take(i));
    } else {
        assert(operands.drop_last().take(i) =~= operands.take(i));
        lemma_resolve_all_fails(operands.drop_last(), i, names);
    }
}

/// Operands that resolve give as many targets, each the resolution of the
/// operand at its place.
pub proof fn lemma_resolve_all_is_pointwise(operands: Seq<Operand>, names: Seq<Seq<char>>)
    requires
        resolve_all(operands, names) is Ok,
    ensures
        resolve_all(operands, names)->Ok_0.len() == operands.len(),
        forall|i: int|
            0 <= i < operands.len() ==> resolve(operands[i], names) == Ok::<Target, Error>(
                #[trigger] resolve_all(operands, names)->Ok_0[i],
            ),
    decreases operands.len(),
{
    if operands.len() > 0 {
        lemma_resolve_all_is_pointwise(operands.drop_last(), names);
    }
}

/// The test of number and kinds agrees with the selection of the encoding:
/// of operands that resolve, what the first refuses the second refuses with
/// the same error, and what the first accepts the second encodes, or
/// refuses for a width alone.
pub proof fn lemma_shape_agrees_with_selection(
    mnemonic: Mnemonic,
    operands: Seq<Operand>,
    names: Seq<Seq<char>>,
)
    requires
        resolve_all(operands, names) is Ok,
    ensures
        shape(mnemonic, operands) matches Err(e) ==> select(
            mnemonic,
            resolve_all(operands, names)->Ok_0,
        ) == Err::<Action, Error>(e),
        shape(mnemonic, operands) is Ok ==> select(mnemonic, resolve_all(operands, names)->Ok_0)
            is Ok || select(mnemonic, resolve_all(operands, names)->Ok_0) == Err::<Action, Error>(
            Error::Width,
        ),
{
    lemma_resolve_all_is_pointwise(operands, names);
    let targets = resolve_all(operands, names)->Ok_0;
    if operands.len() == 1 {
        assert(resolve(operands[0], names) == Ok::<Target, Error>(targets[0]));
    } else if operands.len() == 2 {
        assert(resolve(operands[0], names) == Ok::<Target, Error>(targets[0]));
        assert(resolve(operands[1], names) == Ok::<Target, Error>(targets[1]));
    }
}

/// Encodes a move.
fn perform_mov(assembler: &mut Assembler, to: &Resolved, from: &Resolved) -> (r: Result<
    (),
    Error,
>)
    ensures
        performed(select_mov(to@, from@), old(assembler)@, final(assembler)@, r),
{
    match to {
        Resolved::Constant(_) => Err(Error::ToConstant),
        Resolved::Label(_) => Err(Error::Operands),
        Resolved::Register(to) => match from {
            Resolved::Register(from) => {
                if !to.matches_reg(*from) {
                    return Err(Error::Width);
                }
                assembler.mov_reg_reg(*to, *from);
                Ok(())
            },
            Resolved::Memory(addr, displacement) => {
                if !(addr.b64p() || addr.b32p()) {
                    return Err(Error::Width);
                }
                assembler.mov_reg_addr(*to, *addr, *displacement);
                Ok(())
            },
            Resolved::Constant(imm) => {
                if !to.matches_imm(*imm) {
                    return Err(Error::Width);
                }
                assembler.mov_reg_imm(*to, *imm);
                Ok(())
            },
            Resolved::Label(_) => Err(Error::Operands),
        },
        Resolved::Memory(addr, displacement) => match from {
            Resolved::Register(from) => {
                if !(addr.b64p() || addr.b32p()) {
                    return Err(Error::Width);
                }
                assembler.mov_addr_reg(*addr, *from, *displacement);
                Ok(())
            },
            Resolved::Constant(imm) => assembler.try_mov_addr_imm(*addr, *displacement, *imm),
            _ => Err(Error::Operands),
        },
    }
}

/// Encodes an addition.
fn perform_add(assembler: &mut Assembler, to: &Resolved, from: &Resolved) -> (r: Result<
    (),
    Error,
>)
    ensures
        performed(select_add(to@, from@), old(assembler)@, final(assembler)@, r),
{
    match to {
        Resolved::Register(to) => match from {
            Resolved::Constant(Immediate::U8(imm)) => {
                assembler.add_reg_u8(*to, *imm);
                Ok(())
            },
            Resolved::Constant(Immediate::U32(imm)) => {
                if !to.matches_imm(Immediate::U32(*imm)) {
                    return Err(Error::Width);
                }
                assembler.add_reg_u32(*to, *imm);
                Ok(())
            },
            Resolved::Constant(_) => Err(Error::Width),
            _ => Err(Error::Operands),
        },
        Resolved::Memory(addr, displacement) => match from {
            Resolved::Constant(imm) => {
                if displacement.is_some() {
                    return Err(Error::Operands);
                }
                match imm {
                    Immediate::U8(imm) => {
                        assembler.add_addr_u8(*addr, *imm);
                        Ok(())
                    },
                    _ => Err(Error::Width),
                }
            },
            Resolved::Register(from) => {
                assembler.add_addr_reg(*addr, *from, *displacement);
                Ok(())
            },
            _ => Err(Error::Operands),
        },
        _ => Err(Error::Operands),
    }
}

/// Encodes a subtraction.
fn perform_sub(assembler: &mut Assembler, to: &Resolved, from: &Resolved) -> (r: Result<
    (),
    Error,
>)
    ensures
        performed(select_sub(to@, from@), old(assembler)@, final(assembler)@, r),
{
    match to {
        Resolved::Register(to) => match from {
            Resolved::Constant(Immediate::U8(imm)) => {
                assembler.sub_reg_u8(*to, *imm);
                Ok(())
            },
            Resolved::Constant(Immediate::U32(imm)) => {
                if !to.matches_imm(Immediate::U32(*imm)) {
                    return Err(Error::Width);
                }
                assembler.sub_reg_u32(*to, *imm);
                Ok(())
            },
            Resolved::Constant(Immediate::U64(imm)) => assembler.try_sub_reg_u64(*to, *imm),
            Resolved::Constant(_) => Err(Error::Width),
            _ => Err(Error::Operands),
        },
        Resolved::Memory(addr, displacement) => match from {
            Resolved::Constant(imm) => {
                if displacement.is_some() {
                    return Err(Error::Operands);
                }
                match imm {
                    Immediate::U8(imm) => {
                        assembler.sub_addr_u8(*addr, *imm);
                        Ok(())
                    },
                    _ => Err(Error::Width),
                }
            },
            Resolved::Register(from) => {
                assembler.sub_addr_reg(*addr, *from, *displacement);
                Ok(())
            },
            _ => Err(Error::Operands),
        },
        _ => Err(Error::Operands),
    }
}

/// Encodes an instruction with two operands.
fn perform_binary(
    assembler: &mut Assembler,
    mnemonic: Mnemonic,
    to: &Resolved,
    from: &Resolved,
) -> (r: Result<(), Error>)
    ensures
        performed(select_binary(mnemonic, to@, from@), old(assembler)@, final(assembler)@, r),
{
    match mnemonic {
        Mnemonic::Mov => perform_mov(assembler, to, from),
        Mnemonic::Add => perform_add(assembler, to, from),
        Mnemonic::Sub => perform_sub(assembler, to, from),
        Mnemonic::And => match to {
            Resolved::Register(to) => match from {
                Resolved::Constant(Immediate::U32(imm)) => {
                    if !to.matches_imm(Immediate::U32(*imm)) {
                        return Err(Error::Width);
                    }
                    assembler.and_reg_imm(*to, *imm);
                    Ok(())
                },
                Resolved::Constant(_) => Err(Error::Width),
                _ => Err(Error::Operands),
            },
            _ => Err(Error::Operands),
        },
        Mnemonic::Test => match to {
            Resolved::Register(r1) => match from {
                Resolved::Register(r2) => {
                    assembler.test(*r1, *r2);
                    Ok(())
                },
                _ => Err(Error::Operands),
            },
            _ => Err(Error::Operands),
        },
        _ => Err(Error::Operands),
    }
}

/// Encodes an instruction with one operand.
fn perform_unary(assembler: &mut Assembler, mnemonic: Mnemonic, operand: &Resolved) -> (r: Result<
    (),
    Error,
>)
    ensures
        performed(select_unary(mnemonic, operand@), old(assembler)@, final(assembler)@, r),
{
    match operand {
        Resolved::Register(register) => match mnemonic {
            Mnemonic::Mul => {
                assembler.mul(*register);
                Ok(())
            },
            Mnemonic::Push => {
                assembler.push_reg(*register);
                Ok(())
            },
            Mnemonic::Pop => {
                assembler.pop_reg(*register);
                Ok(())
            },
            Mnemonic::Call => {
                assembler.call_addr(*register);
                Ok(())
            },
            _ => Err(Error::Operands),
        },
        Resolved::Constant(imm) => match mnemonic {
            Mnemonic::Call => {
                if !imm.b32p() {
                    return Err(Error::Width);
                }
                assembler.call_imm(*imm);
                Ok(())
            },
            _ => Err(Error::Operands),
        },
        Resolved::Label(label) => match mnemonic {
            Mnemonic::Call => {
                assembler.call_label(label.as_str());
                Ok(())
            },
            Mnemonic::Jz => {
                assembler.jz(label.as_str());
                Ok(())
            },
            Mnemonic::Jnz => {
                assembler.jnz(label.as_str());
                Ok(())
            },
            Mnemonic::Je => {
                assembler.je(label.as_str());
                Ok(())
            },
            Mnemonic::Jmp => {
                assembler.jmp(label.as_str());
                Ok(())
            },
            _ => Err(Error::Operands),
        },
        Resolved::Memory(_, _) => Err(Error::Operands),
    }
}

/// Encodes an instruction without operands.
fn perform_nullary(assembler: &mut Assembler, mnemonic: Mnemonic) -> (r: Result<(), Error>)
    ensures
        performed(select_nullary(mnemonic), old(assembler)@, final(assembler)@, r),
{
    match mnemonic {
        Mnemonic::Ret => {
            assembler.ret();
            Ok(())
        },
        Mnemonic::Syscall => {
            assembler.syscall();
            Ok(())
        },
        _ => Err(Error::Operands),
    }
}

/// Tests the number and the kinds of the operands of an instruction.
pub fn test_shape(mnemonic: Mnemonic, operands: &Vec<Operand>) -> (r: Result<(), Error>)
    ensures
        r == shape(mnemonic, operands@),
{
    let fits = if operands.len() == 0 {
        match mnemonic {
            Mnemonic::Ret | Mnemonic::Syscall => true,
            _ => false,
        }
    } else if operands.len() == 1 {
        let operand = Kind::of_operand(&operands[0]);
        match mnemonic {
            Mnemonic::Mul | Mnemonic::Push | Mnemonic::Pop => operand == Kind::Register,
            Mnemonic::Call => operand == Kind::Register || operand == Kind::Constant || operand
                == Kind::Label,
            Mnemonic::Jz | Mnemonic::Jnz | Mnemonic::Je | Mnemonic::Jmp => operand == Kind::Label,
            _ => false,
        }
    } else if operands.len() == 2 {
        let to = Kind::of_operand(&operands[0]);
        let from = Kind::of_operand(&operands[1]);
        let memory = to == Kind::Memory || to == Kind::Displaced;
        match mnemonic {
            Mnemonic::Mov => {
                if to == Kind::Constant {
                    return Err(Error::ToConstant);
                }
                (to == Kind::Register && from != Kind::Label) || (memory && (from
                    == Kind::Register || from == Kind::Constant))
            },
            Mnemonic::Add | Mnemonic::Sub => (to == Kind::Register && from == Kind::Constant)
                || (to == Kind::Memory && from == Kind::Constant) || (memory && from
                == Kind::Register),
            Mnemonic::And => to == Kind::Register && from == Kind::Constant,
            Mnemonic::Test => to == Kind::Register && from == Kind::Register,
            _ => false,
        }
    } else {
        false
    };
    if fits {
        Ok(())
    } else {
        Err(Error::Operands)
    }
}

/// Has the assembler encode one instruction whose operands are resolved, or
/// says why it cannot be encoded. An instruction that cannot be encoded
/// leaves the session as it was.
pub fn perform(assembler: &mut Assembler, mnemonic: Mnemonic, operands: &Vec<Resolved>) -> (r:
    Result<(), Error>)
    ensures
        performed(select(mnemonic, targets(operands@)), old(assembler)@, final(assembler)@, r),
{
    if operands.len() == 0 {
        perform_nullary(assembler, mnemonic)
    } else if operands.len() == 1 {
        perform_unary(assembler, mnemonic, &operands[0])
    } else if operands.len() == 2 {
        perform_binary(assembler, mnemonic, &operands[0], &operands[1])
    } else {
        Err(Error::Operands)
    }
}

/// Has the assembler take one entry of a program, or says why it cannot. An
/// entry that cannot be taken leaves the session as it was.
pub fn assemble_one(
    assembler: &mut Assembler,
    instruction: &Instruction,
    interner: &StringInterner,
) -> (r: Result<(), Error>)
    ensures
        match step(old(assembler)@, *instruction, interner@) {
            Ok(session) => r is Ok && final(assembler)@ == session,
            Err(e) => r == Err::<(), Error>(e) && final(assembler)@ == old(assembler)@,
        },
{
    match instruction {
        Instruction::Label(symbol) => {
            let text = match symbol_value(interner, *symbol) {
                Some(text) => text,
                None => {
                    return Err(Error::Label);
                },
            };
            let len = text.as_str().unicode_len();
            if len > 0 && text.as_str().get_char(len - 1) == ':' {
                let name = text.as_str().substring_char(0, len - 1);
                assert(name@ =~= label_name(text@));
                assembler.label(name);
            } else {
                assembler.label(text.as_str());
            }
            Ok(())
        },
        Instruction::Operation(operation) => {
            let text = match symbol_value(interner, operation.opcode) {
                Some(text) => text,
                None => {
                    return Err(Error::Opcode);
                },
            };
            let mnemonic = match Mnemonic::from_str(text.as_str()) {
                Some(mnemonic) => mnemonic,
                None => {
                    return Err(Error::Opcode);
                },
            };
            match test_shape(mnemonic, &operation.operands) {
                Ok(()) => {},
                Err(e) => {
                    return Err(e);
                },
            }
            let operands = match resolve_operands(&operation.operands, interner) {
                Ok(operands) => operands,
                Err(e) => {
                    return Err(e);
                },
            };
            perform(assembler, mnemonic, &operands)
        },
    }
}

/// Assembles a program: encodes its instructions in their order, binds its
/// labels, patches its jumps and hands the code out. The first entry that
/// cannot be encoded, or else the first jump that cannot be patched, gives
/// the error.
pub fn assemble(instructions: Vec<Instruction>, interner: &StringInterner) -> (r: Result<
    Vec<u8>,
    Error,
>)
    ensures
        assembled(instructions@, interner@, r),
{
    let mut assembler = Assembler::new();
    let mut i: usize = 0;
    assert(instructions@.take(0) =~= Seq::<Instruction>::empty());
    while i < instructions.len()
        invariant
            i <= instructions@.len(),
            run(Session::empty(), instructions@.take(i as int), interner@) == Ok::<
                Session,
                Error,
            >(assembler@),
        decreases instructions@.len() - i,
    {
        proof {
            assert(instructions@.take(i + 1).drop_last() =~= instructions@.take(i as int));
            assert(instructions@.take(i + 1).last() == instructions@[i as int]);
        }
        match assemble_one(&mut assembler, &instructions[i], interner) {
            Ok(()) => {},
            Err(e) => {
                proof {
                    lemma_run_fails(Session::empty(), instructions@, i as int, interner@);
                }
                return Err(e);
            },
        }
        i += 1;
    }
    assert(instructions@.take(i as int) =~= instructions@);
    match assembler.try_finish() {
        Ok(code) => {
            proof {
                assembler@.lemma_no_failure_is_resolvable();
            }
            Ok(code)
        },
        Err(PatchError::UnknownLabel) => Err(Error::Label),
        Err(PatchError::OutOfRange) => Err(Error::Range),
    }
}

/// The first entry that gives an error decides the error of the program.
proof fn lemma_run_fails(
    session: Session,
    program: Seq<Instruction>,
    i: int,
    names: Seq<Seq<char>>,
)
    requires
        0 <= i < program.len(),
        run(session, program.take(i), names) is Ok,
        step(run(session, program.take(i), names)->Ok_0, program[i], names) is Err,
    ensures
        run(session, program, names) == Err::<Session, Error>(
            step(run(session, program.take(i), names)->Ok_0, program[i], names)->Err_0,
        ),
    decreases program.len(),
{
    if i == program.len() - 1 {
        assert(program.drop_last() =~= program.take(i));
    } else {
        assert(program.drop_last().take(i) =~= program.take(i));
        lemma_run_fails(session, program.drop_last(), i, names);
    }
}

/// Assembling is a function of the program: two results of assembling one
/// program with one table of names are the same error or the same code.
pub proof fn lemma_assembly_is_deterministic(
    program: Seq<Instruction>,
    names: Seq<Seq<char>>,
    first: Result<Vec<u8>, Error>,
    second: Result<Vec<u8>, Error>,
)
    requires
        assembled(program, names, first),
        assembled(program, names, second),
    ensures
        first is Ok <==> second is Ok,
        first is Ok ==> first->Ok_0@ == second->Ok_0@,
        first is Err ==> first->Err_0 == second->Err_0,
{
    match run(Session::empty(), program, names) {
        Ok(session) => {
            if session.failure() is None {
                session.lemma_finished_code_is_unique(first->Ok_0@, second->Ok_0@);
            }
        },
        Err(_) => {},
    }
}

/// What an instruction adds to the code does not depend on the session that
/// it is added to: in two sessions it fails with the same error or appends
/// the same bytes.
pub proof fn lemma_step_is_independent_of_session(
    a: Session,
    b: Session,
    instruction: Instruction,
    names: Seq<Seq<char>>,
)
    ensures
        step(a, instruction, names) is Ok <==> step(b, instruction, names) is Ok,
        step(a, instruction, names) is Err ==> step(a, instruction, names)->Err_0 == step(
            b,
            instruction,
            names,
        )->Err_0,
        step(a, instruction, names) is Ok ==> step(a, instruction, names)->Ok_0.code.skip(
            a.code.len() as int,
        ) == step(b, instruction, names)->Ok_0.code.skip(b.code.len() as int),
{
    if step(a, instruction, names) is Ok {
        let after_a = step(a, instruction, names)->Ok_0;
        let after_b = step(b, instruction, names)->Ok_0;
        assert(after_a.code.skip(a.code.len() as int) =~= after_b.code.skip(b.code.len() as int));
    }
}

} // verus!
