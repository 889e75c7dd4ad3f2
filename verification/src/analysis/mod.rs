//! Instruction analysis: tracking what each register holds to pair relocations.

pub mod gpr_register_value;
pub mod instr_analysis_info;
pub mod instruction_analysis;
pub mod instruction_analyzer;
pub mod jr_reg_data;
pub mod preheat;
pub mod referenced_address;
pub mod referenced_label;
pub mod register_tracker;
pub mod string_guesser;
pub mod tracked_register_state;

pub use gpr_register_value::GprRegisterValue;
pub use jr_reg_data::{JrRegData, LoPairingInfo};
pub use tracked_register_state::TrackedRegisterState;
