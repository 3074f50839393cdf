//! HTML documents: escaping helpers and the node tree.
pub mod node;
pub mod tools;
