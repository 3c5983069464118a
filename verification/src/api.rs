//! The request and response of a chat exchange, and their validation.

pub mod handlers;
pub mod request;
