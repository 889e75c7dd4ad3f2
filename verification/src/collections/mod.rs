//! Collections whose iteration order is not part of their contract.

pub mod unordered_map;
pub mod unordered_set;
pub mod addended_ordered_map;
