//! Members that annotations generate.
pub mod annotations;
pub mod config;
pub mod config_keys;
pub mod laws;
pub mod rules;
pub mod types;
pub mod utils;
