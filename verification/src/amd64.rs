//! The x86-64 instruction encoder: registers, prefix and addressing bytes,
//! the encoding of each instruction, the assembler that emits them and the
//! driver that takes a parsed program.

pub mod aso;
pub mod assembler;
pub mod driver;
pub mod encoding;
pub mod error;
pub mod modrm;
pub mod oso;
pub mod register;
pub mod rex;
pub mod sib;

pub use aso::ASO;
pub use assembler::Assembler;
pub use driver::{assemble, Mnemonic};
pub use error::Error;
pub use modrm::ModRM;
pub use oso::OSO;
pub use register::{Register, RegisterClass};
pub use rex::REX;
pub use sib::SIB;
