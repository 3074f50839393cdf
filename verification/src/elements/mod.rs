//! A plain element tree whose tag names are kept in upper case.
pub mod base;
pub mod node;
