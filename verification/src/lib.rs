//! OpenAI-facing building blocks of the Praxis proxy, verified with Verus.
//!
//! - [`sse::frame`] turns a chunked Server-Sent Events body into data-bearing
//!   frames under a byte and an event budget.
//! - [`responses::client_tools`] plans how lowered client tools are restored in
//!   a streamed Responses reply.
//! - [`request_body_phase`] selects the lifecycle in which a filter reads the
//!   request body.
//! - [`conversations::openapi`] finishes the generated Conversations document.

pub mod conversations;
pub mod json;
pub mod request_body_phase;
pub mod responses;
pub mod sse;
pub mod text;
