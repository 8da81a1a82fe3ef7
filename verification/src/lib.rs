//! Verified core of ModelHub Windows: model inventory, settings, paths,
//! download bookkeeping and local metadata parsing.

pub mod text;
pub mod sort;
pub mod json;
pub mod models;
pub mod paths;
pub mod scanner;
pub mod runtimes;
pub mod downloads;
pub mod hf;
pub mod model_actions;
pub mod errors;
pub mod settings;
pub mod system_info;
