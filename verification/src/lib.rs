//! A small toolkit: an HTML node tree that renders to markup, a terminal
//! text-editor model, a progress-bar model and the decisions of a tiny
//! static-file HTTP server.
pub mod editor;
pub mod elements;
pub mod html;
pub mod progress_bar;
pub mod server;
pub mod service;
pub mod text;
pub mod tools;

pub use editor::{Direction, Editor};
pub use html::node;
pub use html::node::{Node, NodeName, NodeType};
pub use progress_bar::{BarStyle, ProgressBar};
pub use service::ResponseHtml;
