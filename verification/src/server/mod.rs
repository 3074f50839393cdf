//! The decisions of the static-file server: which files answer a request
//! path, and the page that lists a directory.
pub mod listing;
pub mod routes;
