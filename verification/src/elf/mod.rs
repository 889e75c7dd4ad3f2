//! The parts of an ELF file the disassembler reads, held as plain values: section kinds,
//! the `.dynamic` and `.reginfo` contents, symbols and the global offset table.

pub mod section;
pub mod dynamic_section;
pub mod mips_reginfo;
pub mod symbol;
pub mod symbol_order;
pub mod symbols_per_value;
pub mod parsed_elf;
pub mod symbol_table;
pub mod object_file;
pub mod global_ranges;
pub mod symbol_declarations;
pub mod section_plan;
