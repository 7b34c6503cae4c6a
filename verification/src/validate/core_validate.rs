//! Rules shared by several blocks: reserved-keyword safety nets and
//! name-uniqueness checks.

use vstd::prelude::*;

use crate::error::CompileError;
use crate::error::CompileErrorKind;
use crate::strutil::str_eq;
use crate::token::Tok;
use crate::token::TokenTree;
use crate::token::flatten_to_vec;
use crate::token::spec_flatten_trees;

verus! {

/// Whether a token is the given keyword identifier.
pub open spec fn tok_is_kw(t: Tok, kw: Seq<char>) -> bool {
    t matches Tok::Ident(s) && s@ == kw
}

/// The text of an identifier token.
pub open spec fn tok_ident(t: Tok) -> Seq<char>
    recommends
        t is Ident,
{
    t->Ident_0@
}

/// Tests a token against a keyword.
pub fn tok_kw(t: &Tok, kw: &str) -> (r: bool)
    ensures
        r == tok_is_kw(*t, kw@),
{
    match t {
        Tok::Ident(s) => str_eq(s.as_str(), kw),
        _ => false,
    }
}

/// No reserved control-flow keyword occurs among the tokens.
pub open spec fn no_loop_kw(toks: Seq<Tok>) -> bool {
    forall|i: int|
        0 <= i < toks.len() ==> !tok_is_kw(#[trigger] toks[i], "for"@) && !tok_is_kw(
            toks[i],
            "while"@,
        ) && !tok_is_kw(toks[i], "loop"@)
}

/// No concurrency keyword occurs among the tokens.
pub open spec fn no_thread_kw(toks: Seq<Tok>) -> bool {
    forall|i: int|
        0 <= i < toks.len() ==> !tok_is_kw(#[trigger] toks[i], "thread"@) && !tok_is_kw(
            toks[i],
            "spawn"@,
        )
}

/// Pairwise-distinct names.
pub open spec fn names_unique(names: Seq<Seq<char>>) -> bool {
    forall|i: int, j: int| 0 <= i < j < names.len() ==> names[i] != names[j]
}

/// Rejects loops and threading keywords anywhere in a block body: a
/// static safety net against grammar extensions.
pub fn validate_common_block_rules(body: &Vec<TokenTree>) -> (r: Result<(), CompileError>)
    ensures
        r is Ok <==> no_loop_kw(spec_flatten_trees(body@)) && no_thread_kw(
            spec_flatten_trees(body@),
        ),
        r matches Err(e) ==> e.kind == CompileErrorKind::Safety,
{
    match validate_no_loops(body) {
        Ok(()) => (),
        Err(e) => {
            return Err(e);
        },
    }
    validate_no_threading(body)
}

/// Loops are not allowed in operations.
#[verifier::loop_isolation(false)]
fn validate_no_loops(body: &Vec<TokenTree>) -> (r: Result<(), CompileError>)
    ensures
        r is Ok <==> no_loop_kw(spec_flatten_trees(body@)),
        r matches Err(e) ==> e.kind == CompileErrorKind::Safety,
{
    let toks = flatten_to_vec(body);
    let mut i: usize = 0;
    while i < toks.len()
        invariant
            i <= toks@.len(),
            forall|j: int|
                0 <= j < i ==> !tok_is_kw(#[trigger] toks@[j], "for"@) && !tok_is_kw(
                    toks@[j],
                    "while"@,
                ) && !tok_is_kw(toks@[j], "loop"@),
        decreases toks@.len() - i,
    {
        if tok_kw(&toks[i], "for") || tok_kw(&toks[i], "while") || tok_kw(&toks[i], "loop") {
            return Err(
                CompileError::new(
                    CompileErrorKind::Safety,
                    "",
                    "loops are not allowed in operations",
                ),
            );
        }
        i += 1;
    }
    Ok(())
}

/// Threading is not allowed in operations.
#[verifier::loop_isolation(false)]
fn validate_no_threading(body: &Vec<TokenTree>) -> (r: Result<(), CompileError>)
    ensures
        r is Ok <==> no_thread_kw(spec_flatten_trees(body@)),
        r matches Err(e) ==> e.kind == CompileErrorKind::Safety,
{
    let toks = flatten_to_vec(body);
    let mut i: usize = 0;
    while i < toks.len()
        invariant
            i <= toks@.len(),
            forall|j: int|
                0 <= j < i ==> !tok_is_kw(#[trigger] toks@[j], "thread"@) && !tok_is_kw(
                    toks@[j],
                    "spawn"@,
                ),
        decreases toks@.len() - i,
    {
        if tok_kw(&toks[i], "thread") || tok_kw(&toks[i], "spawn") {
            return Err(
                CompileError::new(
                    CompileErrorKind::Safety,
                    "",
                    "threading is not allowed in operations",
                ),
            );
        }
        i += 1;
    }
    Ok(())
}

/// Rejects a duplicate in a list of declared names.
#[verifier::loop_isolation(false)]
pub fn validate_unique_names(names: &Vec<String>, kind: &str) -> (r: Result<(), CompileError>)
    ensures
        r is Ok <==> names_unique(names@.map_values(|s: String| s@)),
        r matches Err(e) ==> e.kind == CompileErrorKind::Uniqueness,
{
    let ghost views = names@.map_values(|s: String| s@);
    let mut i: usize = 0;
    while i < names.len()
        invariant
            i <= names@.len(),
            views == names@.map_values(|s: String| s@),
            forall|a: int, b: int| 0 <= a < b < i ==> views[a] != views[b],
        decreases names@.len() - i,
    {
        let mut j: usize = 0;
        while j < i
            invariant
                j <= i < names@.len(),
                views == names@.map_values(|s: String| s@),
                forall|b: int| 0 <= b < j ==> views[b] != views[i as int],
            decreases i - j,
        {
            if str_eq(names[j].as_str(), names[i].as_str()) {
                proof {
                    assert(views[j as int] == names@[j as int]@);
                    assert(views[i as int] == names@[i as int]@);
                    assert(!names_unique(views));
                }
                let msg = crate::strutil::str_concat("duplicate name in namespace: ", kind);
                return Err(
                    CompileError::new(CompileErrorKind::Uniqueness, names[i].as_str(), msg.as_str()),
                );
            }
            j += 1;
        }
        i += 1;
    }
    Ok(())
}

} // verus!
