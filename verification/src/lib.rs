//! Compiler and runtime for a small declarative artifact-triage DSL.
//!
//! A pipeline definition declares operations (computations over an input
//! artifact), signals (boolean predicates over one operation step's output)
//! and clinch rules (actions fired when a signal holds). The library parses
//! a definition, validates it through cross-referencing passes, builds
//! semantic indices, lowers them into an executable plan, and runs the plan
//! against artifacts, producing a mutation record per run.
#![allow(unused_imports)]

use vstd::prelude::*;

pub mod data_objs;
pub mod error;
pub mod expanders;
pub mod index;
pub mod laws;
pub mod lowering;
pub mod num;
pub mod ops_file;
pub mod parse;
pub mod predicate;
pub mod runtime;
pub mod strutil;
pub mod token;
pub mod validate;

pub use data_objs::Artifact;
pub use data_objs::LuciusContext;
pub use data_objs::LuopDescriptor;
pub use error::CompileError;
pub use error::CompileErrorKind;
pub use error::RuntimeError;
pub use lowering::ExecutablePlan;
pub use num::Num;
pub use num::NumOrd;
pub use runtime::OperationRegistry;
pub use runtime::run;

use crate::parse::pipeline::PipelineAst;

verus! {

/// Compiles one pipeline definition: lexes and parses the text,
/// validates it through the cross-referencing passes, builds the
/// indices, and lowers them into an executable plan whose internal
/// references all resolve. No plan is produced on any error. On
/// success, the plan is the faithful lowering of a referentially
/// complete index matching the parsed definition.
pub fn compile(src: &str) -> (r: Result<ExecutablePlan, CompileError>)
    ensures
        r matches Ok(plan) ==> crate::lowering::plan_wf(plan),
        r matches Ok(plan) ==> exists|
            ast: PipelineAst,
            idx: crate::index::pipeline::PipelineIndex,
        |
            #[trigger] crate::index::pipeline::index_matches_definition(ast, idx)
                && crate::index::pipeline::index_refs_complete(idx)
                && crate::lowering::plan_matches_index(plan, idx),
{
    let trees = match crate::token::lex(src) {
        Ok(t) => t,
        Err(e) => {
            return Err(e);
        },
    };
    let ast = match PipelineAst::parse(trees) {
        Ok(a) => a,
        Err(e) => {
            return Err(e);
        },
    };
    let ghost astg = ast;
    let r = compile_definition(ast);
    proof {
        match &r {
            Ok(plan) => {
                let idx = choose|idx: crate::index::pipeline::PipelineIndex|
                    #[trigger] crate::index::pipeline::index_matches_definition(astg, idx)
                        && crate::index::pipeline::index_refs_complete(idx)
                        && crate::lowering::plan_matches_index(*plan, idx);
                assert(crate::index::pipeline::index_matches_definition(astg, idx));
            },
            Err(_) => {},
        }
    }
    r
}

/// Compiles an already-parsed pipeline definition. On success, the plan
/// is the faithful lowering of an index that is itself the faithful,
/// referentially complete image of this very definition.
pub fn compile_definition(ast: PipelineAst) -> (r: Result<ExecutablePlan, CompileError>)
    ensures
        r matches Ok(plan) ==> crate::lowering::plan_wf(plan) && plan.meta == ast.meta,
        r matches Ok(plan) ==> exists|idx: crate::index::pipeline::PipelineIndex|
            #[trigger] crate::index::pipeline::index_matches_definition(ast, idx)
                && crate::index::pipeline::index_refs_complete(idx)
                && crate::lowering::plan_matches_index(plan, idx),
{
    let index = match ast.validate_and_index() {
        Ok(i) => i,
        Err(e) => {
            return Err(e);
        },
    };
    let ghost idxg = index;
    let r = crate::lowering::lower_pipeline(index, ast.meta);
    proof {
        match &r {
            Ok(plan) => {
                assert(crate::index::pipeline::index_matches_definition(ast, idxg));
                assert(crate::lowering::plan_matches_index(*plan, idxg));
            },
            Err(_) => {},
        }
    }
    r
}

} // verus!
