//! The orchestrator and the specialists it delegates to.

pub mod delegation;
pub mod orchestrator;
pub mod specialized;
pub mod tool;
