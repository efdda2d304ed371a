//! The client's decisions: what a request carries, and what a response means.

pub mod execute;
pub mod query;
pub mod records;
pub mod results;
pub mod streaming;
pub mod transaction;
