//! An in-memory note store and the request handlers that read and change it.
pub mod note;
pub mod store;
pub mod handlers;
pub mod laws;
