//! Types that the collaborators around the core exchange with it.

pub mod errors;
pub mod history;
