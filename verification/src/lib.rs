//! Verified core of a matching MIPS disassembler: address arithmetic, configuration,
//! collections, the register-tracking analysis used to pair `%hi`/`%lo` relocations, and
//! the reading of 32-bit MIPS ELF files into what the disassembler is given.

pub mod address_range;
pub mod addresses;
pub mod cli;
pub mod analysis;
pub mod collections;
pub mod config;
pub mod elf;
pub mod isa;
pub mod metadata;
pub mod text;
pub mod utils;
