//! The Responses API: stream events and client-tool restoration.

pub mod client_tools;
pub mod event;
pub mod event_laws;
pub mod laws;
pub mod state;
