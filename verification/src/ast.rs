//! The kinds of top-level definitions and what each contributes to hashes.

pub mod class;
pub mod enums;
pub mod client;
pub mod function;
pub mod retry_policy;
pub mod type_alias;
