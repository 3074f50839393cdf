//! The fixed responder of the HTTP server.
pub mod response;

pub use response::ResponseHtml;
