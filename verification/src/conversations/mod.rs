//! Local Conversations endpoints.

pub mod document_laws;
pub mod laws;
pub mod openapi;
