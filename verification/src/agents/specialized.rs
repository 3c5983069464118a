//! The specialists: one bounded agent per domain.

pub mod address;
pub mod damage;
pub mod dummy;
