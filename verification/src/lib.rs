//! Capability-based admission to a protected operation: tokens are minted in
//! a group, handed to principals through a broker, and pulled by each
//! principal into its own context before the protected operation admits it.

pub mod entry_points;
pub mod group;
pub mod install;
pub mod locked;
pub mod locked_with_share;
pub mod principal;
pub mod resource;
pub mod share;
pub mod signal;
pub mod store;
pub mod token;
