//! The record derives: wire names, type classification, attributes, the plan for each field of
//! a row, and the source text of the impls.

pub mod attrs;
pub mod code;
pub mod decode;
pub mod emitted;
pub mod encode;
pub mod expand;
pub mod expand_encode;
pub mod input;
pub mod laws;
pub mod literal;
pub mod naming;
pub mod types;
