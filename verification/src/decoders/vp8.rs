//! The VP8 decoder.

pub mod backends;
pub mod decoder;
pub mod parser;
