//! The RISC-V instruction encoder: registers, instruction formats, the
//! assembler that emits instructions and the driver that takes a token
//! stream.

pub mod assembler;
pub mod driver;
pub mod encoding;
pub mod register;

pub use assembler::Assembler;
pub use register::Register;
