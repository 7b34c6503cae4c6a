//! Structural parser: recognizes the four top-level blocks and their
//! nested grammars, leaving each definition's innermost statement list as
//! a raw token sequence for stage-specific scanning.

pub mod clinch;
pub mod operations;
pub mod pipeline;
pub mod signals;
