//! The one-call front half of compilation: parse a wrapped pipeline
//! definition and validate and index it, leaving lowering to the
//! caller.

use vstd::prelude::*;

use crate::error::CompileError;
use crate::index::pipeline::PipelineIndex;
use crate::parse::pipeline::LunchGenInput;
use crate::token::TokenTree;

verus! {

/// Parses a `component = <ident> { ... }` definition from lexed token
/// trees and validates and indexes its pipeline.
pub fn lunch_expander(trees: Vec<TokenTree>) -> (r: Result<
    (LunchGenInput, PipelineIndex),
    CompileError,
>)
    ensures
        r matches Ok(p) ==> crate::index::pipeline::index_refs_complete(p.1)
            && crate::index::pipeline::index_matches_definition(p.0.pipeline, p.1),
{
    let parsed = match LunchGenInput::parse(trees) {
        Ok(v) => v,
        Err(e) => {
            return Err(e);
        },
    };
    let index = match parsed.pipeline.validate_and_index() {
        Ok(i) => i,
        Err(e) => {
            return Err(e);
        },
    };
    Ok((parsed, index))
}

} // verus!
