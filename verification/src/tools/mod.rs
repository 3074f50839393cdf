//! Helpers for HTTP responses.
pub mod header_map;
pub mod response_parts;

pub use response_parts::{file_headers, make_response_parts};
