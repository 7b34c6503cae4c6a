//! Validation of the `operations` block: unique names, body safety
//! rules, and the `do <step> output <binding>` statement shape.

use vstd::prelude::*;

use crate::error::CompileError;
use crate::error::CompileErrorKind;
use crate::parse::operations::OperationDef;
use crate::parse::operations::OperationsBlock;
use crate::parse::pipeline::PipelineAst;
use crate::token::Tok;
use crate::token::TokenTree;
use crate::token::flatten_to_vec;
use crate::token::spec_flatten_trees;
use crate::validate::core_validate::names_unique;
use crate::validate::core_validate::no_loop_kw;
use crate::validate::core_validate::no_thread_kw;
use crate::validate::core_validate::tok_ident;
use crate::validate::core_validate::tok_is_kw;
use crate::validate::core_validate::tok_kw;
use crate::validate::core_validate::validate_common_block_rules;
use crate::validate::core_validate::validate_unique_names;

verus! {

/// The output bindings a body declares, scanned left to right: each
/// `output` keyword must be followed by an identifier.
pub open spec fn scan_outputs(toks: Seq<Tok>) -> Option<Seq<Seq<char>>>
    decreases toks.len(),
{
    if toks.len() == 0 {
        Some(Seq::empty())
    } else if tok_is_kw(toks[0], "output"@) {
        if toks.len() >= 2 && toks[1] is Ident {
            match scan_outputs(toks.skip(2)) {
                Some(rest) => Some(seq![tok_ident(toks[1])] + rest),
                None => None,
            }
        } else {
            None
        }
    } else {
        scan_outputs(toks.skip(1))
    }
}

/// The `do <step> output <binding>` statements of a body, scanned left
/// to right; any other shape after a `do` keyword is a grammar error.
pub open spec fn scan_steps(toks: Seq<Tok>) -> Option<Seq<(Seq<char>, Seq<char>)>>
    decreases toks.len(),
{
    if toks.len() == 0 {
        Some(Seq::empty())
    } else if tok_is_kw(toks[0], "do"@) {
        if toks.len() >= 4 && toks[1] is Ident && tok_is_kw(toks[2], "output"@) && toks[3]
            is Ident {
            match scan_steps(toks.skip(4)) {
                Some(rest) => Some(seq![(tok_ident(toks[1]), tok_ident(toks[3]))] + rest),
                None => None,
            }
        } else {
            None
        }
    } else {
        scan_steps(toks.skip(1))
    }
}

/// No `& mut Context` token window occurs: operation steps read the
/// artifact only and never touch the shared execution state.
pub open spec fn mut_context_free(toks: Seq<Tok>) -> bool {
    forall|i: int|
        0 <= i && i + 2 < toks.len() ==> !(#[trigger] toks[i] matches Tok::Punct('&') && tok_is_kw(
            toks[i + 1],
            "mut"@,
        ) && tok_is_kw(toks[i + 2], "Context"@))
}

/// All rules one operation body must meet.
pub open spec fn op_body_valid(toks: Seq<Tok>) -> bool {
    &&& no_loop_kw(toks)
    &&& no_thread_kw(toks)
    &&& mut_context_free(toks)
    &&& (scan_outputs(toks) matches Some(outs) && names_unique(outs))
    &&& (scan_steps(toks) matches Some(steps) && steps.len() > 0)
}

/// All rules the `operations` block must meet.
pub open spec fn ops_valid(ops: OperationsBlock) -> bool {
    &&& names_unique(ops.definitions@.map_values(|d: OperationDef| d.name@))
    &&& forall|k: int|
        0 <= k < ops.definitions@.len() ==> op_body_valid(
            spec_flatten_trees(#[trigger] ops.definitions@[k].body.content@),
        )
}

/// Validates the `operations` block: present, unique operation names,
/// and every body within the rules.
#[verifier::loop_isolation(false)]
pub fn validate_operations(ast: &PipelineAst) -> (r: Result<(), CompileError>)
    ensures
        r is Ok <==> (ast.operations matches Some(ops) && ops_valid(ops)),
{
    let ops = match &ast.operations {
        Some(ops) => ops,
        None => {
            return Err(
                CompileError::new(
                    CompileErrorKind::Parse,
                    "",
                    "missing `operations { ... }` block",
                ),
            );
        },
    };
    let ghost name_views = ops.definitions@.map_values(|d: OperationDef| d.name@);
    let mut names: Vec<String> = Vec::new();
    let mut i: usize = 0;
    while i < ops.definitions.len()
        invariant
            i <= ops.definitions@.len(),
            names@.map_values(|s: String| s@) =~= name_views.take(i as int),
        decreases ops.definitions@.len() - i,
    {
        names.push(ops.definitions[i].name.clone());
        proof {
            assert(names@.map_values(|s: String| s@) =~= name_views.take(i as int + 1));
        }
        i += 1;
    }
    proof {
        assert(name_views.take(ops.definitions@.len() as int) =~= name_views);
    }
    match validate_unique_names(&names, "operation") {
        Ok(()) => (),
        Err(e) => {
            return Err(e);
        },
    }
    let mut k: usize = 0;
    while k < ops.definitions.len()
        invariant
            k <= ops.definitions@.len(),
            forall|m: int|
                0 <= m < k ==> op_body_valid(
                    spec_flatten_trees(#[trigger] ops.definitions@[m].body.content@),
                ),
        decreases ops.definitions@.len() - k,
    {
        let body = &ops.definitions[k].body.content;
        match validate_common_block_rules(body) {
            Ok(()) => (),
            Err(e) => {
                return Err(e);
            },
        }
        match validate_no_mut_context(body) {
            Ok(()) => (),
            Err(e) => {
                return Err(e);
            },
        }
        match validate_unique_outputs(body) {
            Ok(()) => (),
            Err(e) => {
                return Err(e);
            },
        }
        match validate_do_statements(body) {
            Ok(()) => (),
            Err(e) => {
                return Err(e);
            },
        }
        k += 1;
    }
    Ok(())
}

/// Mutable references to the execution context are not allowed in
/// operation bodies.
#[verifier::loop_isolation(false)]
fn validate_no_mut_context(body: &Vec<TokenTree>) -> (r: Result<(), CompileError>)
    ensures
        r is Ok <==> mut_context_free(spec_flatten_trees(body@)),
        r matches Err(e) ==> e.kind == CompileErrorKind::Safety,
{
    let toks = flatten_to_vec(body);
    proof {
        vstd::std_specs::vec::axiom_spec_len(&toks);
    }
    let mut i: usize = 0;
    while toks.len() - i > 2
        invariant
            i <= toks@.len(),
            forall|j: int|
                0 <= j < i ==> !(#[trigger] toks@[j] matches Tok::Punct('&') && tok_is_kw(
                    toks@[j + 1],
                    "mut"@,
                ) && tok_is_kw(toks@[j + 2], "Context"@)),
        decreases toks@.len() - i,
    {
        let amp = match &toks[i] {
            Tok::Punct(p) => *p == '&',
            _ => false,
        };
        if amp && tok_kw(&toks[i + 1], "mut") && tok_kw(&toks[i + 2], "Context") {
            return Err(
                CompileError::new(
                    CompileErrorKind::Safety,
                    "&",
                    "mutable references to Context are not allowed in operations",
                ),
            );
        }
        i += 1;
    }
    Ok(())
}

/// Joins an accumulated prefix with the scan of the remaining tokens.
pub open spec fn opt_concat<T>(acc: Seq<T>, rest: Option<Seq<T>>) -> Option<Seq<T>> {
    match rest {
        Some(r) => Some(acc + r),
        None => None,
    }
}

/// Output binding names must be unique within an operation, and every
/// `output` keyword must be followed by a name.
#[verifier::loop_isolation(false)]
fn validate_unique_outputs(body: &Vec<TokenTree>) -> (r: Result<(), CompileError>)
    ensures
        r is Ok <==> (scan_outputs(spec_flatten_trees(body@)) matches Some(outs) && names_unique(
            outs,
        )),
{
    let toks = flatten_to_vec(body);
    let ghost whole = toks@;
    let mut outputs: Vec<String> = Vec::new();
    let mut i: usize = 0;
    proof {
        assert(whole.skip(0) =~= whole);
        assert(outputs@.map_values(|s: String| s@) =~= Seq::<Seq<char>>::empty());
        assert(opt_concat(Seq::<Seq<char>>::empty(), scan_outputs(whole)) == scan_outputs(whole))
            by {
            match scan_outputs(whole) {
                Some(r) => {
                    assert(Seq::<Seq<char>>::empty() + r =~= r);
                },
                None => {},
            }
        }
    }
    while i < toks.len()
        invariant
            i <= toks@.len(),
            scan_outputs(whole) == opt_concat(
                outputs@.map_values(|s: String| s@),
                scan_outputs(whole.skip(i as int)),
            ),
            names_unique(outputs@.map_values(|s: String| s@)),
        decreases toks@.len() - i,
    {
        proof {
            assert(whole.skip(i as int)[0] == whole[i as int]);
            assert(whole.skip(i as int).skip(1) =~= whole.skip(i as int + 1));
        }
        if tok_kw(&toks[i], "output") {
            if i + 1 >= toks.len() {
                return Err(
                    CompileError::new(
                        CompileErrorKind::Grammar,
                        "output",
                        "expected output name after `output`",
                    ),
                );
            }
            let name = match &toks[i + 1] {
                Tok::Ident(s) => s.clone(),
                _ => {
                    return Err(
                        CompileError::new(
                            CompileErrorKind::Grammar,
                            "output",
                            "expected output name after `output`",
                        ),
                    );
                },
            };
            proof {
                assert(whole.skip(i as int)[1] == whole[i as int + 1]);
                assert(whole.skip(i as int).skip(2) =~= whole.skip(i as int + 2));
            }
            let ghost acc = outputs@.map_values(|s: String| s@);
            let mut j: usize = 0;
            while j < outputs.len()
                invariant
                    j <= outputs@.len(),
                    acc == outputs@.map_values(|s: String| s@),
                    forall|b: int| 0 <= b < j ==> acc[b] != name@,
                decreases outputs@.len() - j,
            {
                if crate::strutil::str_eq(outputs[j].as_str(), name.as_str()) {
                    proof {
                        assert(acc[j as int] == name@);
                        match scan_outputs(whole.skip(i as int + 2)) {
                            Some(rest) => {
                                let full = acc + (seq![tok_ident(whole[i as int + 1])] + rest);
                                assert(scan_outputs(whole) == Some(full));
                                assert(full[j as int] == acc[j as int]);
                                assert(full[acc.len() as int] == tok_ident(whole[i as int + 1]));
                                assert(tok_ident(whole[i as int + 1]) == name@);
                                assert(!names_unique(full));
                            },
                            None => {
                                assert(scan_outputs(whole) is None);
                            },
                        }
                    }
                    return Err(
                        CompileError::new(
                            CompileErrorKind::Uniqueness,
                            name.as_str(),
                            "duplicate output name",
                        ),
                    );
                }
                j += 1;
            }
            outputs.push(name);
            proof {
                assert(outputs@.map_values(|s: String| s@) =~= acc.push(whole[i as int + 1]->Ident_0@));
                match scan_outputs(whole.skip(i as int + 2)) {
                    Some(rest) => {
                        assert(acc + (seq![tok_ident(whole[i as int + 1])] + rest) =~= acc.push(
                            tok_ident(whole[i as int + 1]),
                        ) + rest);
                    },
                    None => {},
                }
            }
            i += 2;
        } else {
            i += 1;
        }
    }
    proof {
        assert(whole.skip(toks@.len() as int) =~= Seq::<Tok>::empty());
        match scan_outputs(whole) {
            Some(full) => {
                assert(full =~= outputs@.map_values(|s: String| s@));
            },
            None => {},
        }
    }
    Ok(())
}

/// Every `do` statement must have the four-token shape
/// `do <step> output <binding>`, and a body must hold at least one.
#[verifier::loop_isolation(false)]
fn validate_do_statements(body: &Vec<TokenTree>) -> (r: Result<(), CompileError>)
    ensures
        r is Ok <==> (scan_steps(spec_flatten_trees(body@)) matches Some(steps) && steps.len()
            > 0),
{
    let toks = flatten_to_vec(body);
    let ghost whole = toks@;
    let ghost mut pre: Seq<(Seq<char>, Seq<char>)> = Seq::empty();
    let mut saw_do = false;
    let mut i: usize = 0;
    proof {
        assert(whole.skip(0) =~= whole);
        assert(opt_concat(pre, scan_steps(whole)) == scan_steps(whole)) by {
            match scan_steps(whole) {
                Some(r) => {
                    assert(pre + r =~= r);
                },
                None => {},
            }
        }
    }
    while i < toks.len()
        invariant
            i <= toks@.len(),
            scan_steps(whole) == opt_concat(pre, scan_steps(whole.skip(i as int))),
            saw_do <==> pre.len() > 0,
        decreases toks@.len() - i,
    {
        proof {
            assert(whole.skip(i as int)[0] == whole[i as int]);
            assert(whole.skip(i as int).skip(1) =~= whole.skip(i as int + 1));
        }
        if tok_kw(&toks[i], "do") {
            proof {
                vstd::std_specs::vec::axiom_spec_len(&toks);
            }
            let shape_ok = if toks.len() - i > 3 {
                let s1 = match &toks[i + 1] {
                    Tok::Ident(_) => true,
                    _ => false,
                };
                let s3 = match &toks[i + 3] {
                    Tok::Ident(_) => true,
                    _ => false,
                };
                s1 && tok_kw(&toks[i + 2], "output") && s3
            } else {
                false
            };
            if !shape_ok {
                return Err(
                    CompileError::new(
                        CompileErrorKind::Grammar,
                        "do",
                        "expected `do <step> output <name>`",
                    ),
                );
            }
            proof {
                assert(whole.skip(i as int)[1] == whole[i as int + 1]);
                assert(whole.skip(i as int)[2] == whole[i as int + 2]);
                assert(whole.skip(i as int)[3] == whole[i as int + 3]);
                assert(whole.skip(i as int).skip(4) =~= whole.skip(i as int + 4));
                let stepv = (tok_ident(whole[i as int + 1]), tok_ident(whole[i as int + 3]));
                match scan_steps(whole.skip(i as int + 4)) {
                    Some(rest) => {
                        assert(pre + (seq![stepv] + rest) =~= pre.push(stepv) + rest);
                    },
                    None => {},
                }
                pre = pre.push(stepv);
            }
            saw_do = true;
            i += 4;
        } else {
            i += 1;
        }
    }
    if !saw_do {
        proof {
            assert(whole.skip(toks@.len() as int) =~= Seq::<Tok>::empty());
            match scan_steps(whole) {
                Some(full) => {
                    assert(full =~= pre);
                },
                None => {},
            }
        }
        return Err(
            CompileError::new(
                CompileErrorKind::Grammar,
                "",
                "operations must declare at least one `do` statement",
            ),
        );
    }
    proof {
        assert(whole.skip(toks@.len() as int) =~= Seq::<Tok>::empty());
        match scan_steps(whole) {
            Some(full) => {
                assert(full =~= pre);
            },
            None => {},
        }
    }
    Ok(())
}

} // verus!
