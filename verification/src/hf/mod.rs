//! Hugging Face: the hub's API and the local cache layout.
pub mod api;
pub mod cache_writer;
