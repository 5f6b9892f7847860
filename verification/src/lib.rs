//! A small assembler toolchain.
//!
//! A source text is cut into tokens by the [`tokenizer`]. For x86-64 the
//! tokens are parsed into instructions with typed operands ([`syntax`]),
//! which the driver of [`amd64`] checks and has its assembler encode;
//! [`assembly`] does the same for the plain form of programs, whose constants
//! carry no type. For RISC-V the driver of [`riscv`] reads the tokens itself.
//! Both assemblers keep their code, labels and pending jumps in a [`unit`],
//! whose state and finished output are described by a [`session`]. The
//! [`elf`] module wraps finished code for x86-64 into an executable image.
//!
//! The tokens of a program of the surface language are read by the
//! [`parser`] into the pieces of [`ast`]; [`typecheck`] checks the types of
//! such a program, in an [`environment`] of scopes within scopes.

pub mod amd64;
pub mod assembly;
pub mod ast;
pub mod bytes;
pub mod elf;
pub mod emitter;
pub mod environment;
pub mod interner;
pub mod number;
pub mod parser;
pub mod pattern;
pub mod riscv;
pub mod session;
pub mod syntax;
pub mod table;
pub mod text;
pub mod token;
pub mod tokenizer;
pub mod typecheck;
pub mod unit;

pub use amd64::{Assembler, ModRM, Register, RegisterClass, ASO, OSO, REX, SIB};
pub use ast::{Arg, Ast, CompilePrimitive, Type};
pub use emitter::Emitter;
pub use environment::Environment;
pub use interner::{StringInterner, Symbol};
pub use session::{Jump, JumpKind, PatchError, Session};
pub use syntax::{
    Constant, Displacement, Immediate, Instruction, NonZeroI16, NonZeroI32, NonZeroI8, Operand,
    Operation,
};
pub use parser::ParserError;
pub use token::{Index, Token};
pub use tokenizer::{TokenizeError, Tokenizer};
pub use typecheck::{type_check, TypeError};
