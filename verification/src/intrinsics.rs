//! Accesses that the language itself defines.
pub mod access;
