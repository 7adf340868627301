//! Client-side binding to a container engine's HTTP API reached over a Unix socket.
//!
//! The library holds the verified core of the client: query encoders, builders,
//! request assembly and response classification.

pub mod docker;
pub mod images;
pub mod json;
pub mod percent;
pub mod text;
pub mod utils;
