//! Cross-referencing validation passes. Each pass scans raw token
//! sequences or a built index and rejects, with a fatal error, anything
//! the pipeline rules forbid.

pub mod clinch;
pub mod core_validate;
pub mod operations;
pub mod signals;
