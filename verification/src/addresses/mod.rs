//! Typed addresses (virtual addresses, rom offsets, sizes) and ranges over them.

pub mod vram;
pub mod address_range;
pub mod rom;
pub mod size;
pub mod gp_value;
pub mod global_offset_table;
pub mod rom_vram_range;

pub use address_range::{AddressRange, AddressValue};
pub use global_offset_table::{GlobalOffsetTable, GotEntryKind, GotGlobalEntry, GotLocalEntry, GotRequestedAddress};
pub use gp_value::GpValue;
pub use rom::Rom;
pub use rom_vram_range::RomVramRange;
pub use size::Size;
pub use vram::{Vram, VramOffset};
