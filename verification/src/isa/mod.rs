//! The library's model of the MIPS values that the analysis reads: registers, calling
//! conventions and memory access kinds.

pub mod registers;

pub use registers::{AccessType, Abi, Gpr};
pub mod instruction;

pub use instruction::DecodedInstr;
