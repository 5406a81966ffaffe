//! Server-Sent Events: record decoding and frame delivery.

pub mod codec;
pub mod error;
pub mod frame;
pub mod frame_laws;
pub mod laws;

pub use error::SseParseError;
