//! Routing of a conversational request to specialised language-model agents.
//!
//! The crate holds the parts that decide: validation of an inbound request,
//! normalisation of attachments and stored turns into model messages, the
//! prompt each specialist sends to its own agent, and the state machine by
//! which the orchestrator delegates to specialists and always ends with an
//! answer. Model calls, storage and transport are left to the caller.

pub mod agents;
pub mod api;
pub mod infra;
pub mod message;
pub mod text;
