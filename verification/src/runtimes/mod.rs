//! The model runtimes the app reports on.
pub mod ollama;
