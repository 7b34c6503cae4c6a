//! Semantic indices: the validated, ordered form of each block, keyed
//! by name with declaration order kept, so that later stages and the
//! compiled plan are deterministic.

pub mod clinch;
pub mod common;
pub mod operations;
pub mod pipeline;
pub mod signals;
