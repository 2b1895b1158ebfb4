//! The rules that generate members.
pub mod constructor_rule;
pub mod delegate_rule;
pub mod equals_hash_code_rule;
pub mod log_rule;
pub mod value_rule;
pub mod with_rule;
