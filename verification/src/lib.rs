//! Interface and implementation hashing of the top-level definitions of a
//! BAML program, with the transitive dependencies of each definition.

pub mod agg;
pub mod ast;
pub mod ast_node_id;
pub mod decoding;
pub mod digest;
pub mod encode;
pub mod graph;
pub mod interfaces;
pub mod ir;
pub mod laws;
pub mod order;
pub mod publisher;
pub mod sorting;
pub mod text;
pub mod types;
pub mod type_rpc;
pub mod values;
