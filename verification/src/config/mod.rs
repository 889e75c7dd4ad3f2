//! User-facing configuration: endianness, compiler quirks, `$gp` settings and label macros.

pub mod endian;
pub mod compiler;
pub mod gp_config;
pub mod macro_labels;
pub mod global_config;

pub use compiler::Compiler;
pub use endian::Endian;
pub use global_config::{GlobalConfig, GlobalConfigBuilder};
pub use gp_config::GpConfig;
pub use macro_labels::MacroLabels;
