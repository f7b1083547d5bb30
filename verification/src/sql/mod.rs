//! The statements that the store runs: their text, what they bind, and what the
//! merging ones do to a row.

pub mod expr;
pub mod names;
pub mod plan;
pub mod query;
