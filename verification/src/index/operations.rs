//! The operation index: per operation, its ordered steps with their
//! function names and output bindings.

use vstd::prelude::*;

use crate::error::CompileError;
use crate::error::CompileErrorKind;
use crate::index::common::StepInfo;
use crate::index::common::keys_unique;
use crate::parse::operations::OperationDef;
use crate::parse::operations::OperationsBlock;
use crate::strutil::str_eq;
use crate::token::Tok;
use crate::token::flatten_to_vec;
use crate::token::spec_flatten_trees;
use crate::validate::core_validate::tok_ident;
use crate::validate::core_validate::tok_kw;
use crate::validate::operations::opt_concat;
use crate::validate::operations::scan_steps;

verus! {

/// Operation name to operation information, in declaration order.
pub struct OperationIndex {
    pub index: Vec<(String, OperationInfo)>,
}

/// One operation's steps, in declaration order.
pub struct OperationInfo {
    pub steps: Vec<(String, StepInfo)>,
}

/// The (step name, output binding) pairs a step list denotes.
pub open spec fn steps_pairs(s: Seq<(String, StepInfo)>) -> Seq<(Seq<char>, Seq<char>)> {
    s.map_values(|p: (String, StepInfo)| (p.0@, p.1.binding@))
}

/// A compiled operation is faithful to its definition: its step list is
/// exactly what the `do` scan of the body yields, step names are unique,
/// and each step invokes the function of its own name.
pub open spec fn steps_wf(def: OperationDef, info: OperationInfo) -> bool {
    &&& scan_steps(spec_flatten_trees(def.body.content@)) == Some(steps_pairs(info.steps@))
    &&& keys_unique(info.steps@)
    &&& forall|j: int|
        0 <= j < info.steps@.len() ==> ((#[trigger] info.steps@[j].1.luop_fn) matches Some(f)
            && f@ == info.steps@[j].0@)
}

/// Pairwise-distinct step names in a scanned step list.
pub open spec fn step_names_unique(s: Seq<(Seq<char>, Seq<char>)>) -> bool {
    forall|i: int, j: int| 0 <= i < j < s.len() ==> s[i].0 != s[j].0
}

/// What building the operation index requires of its block: every
/// body's `do` statements scan cleanly and declare no step twice.
pub open spec fn ops_buildable(ops: OperationsBlock) -> bool {
    forall|k: int|
        0 <= k < ops.definitions@.len() ==> (scan_steps(
            spec_flatten_trees((#[trigger] ops.definitions@[k]).body.content@),
        ) matches Some(s) && step_names_unique(s))
}

/// Builds the operation index: scans each body for
/// `do <step> output <binding>` statements and rejects duplicate steps.
#[verifier::loop_isolation(false)]
pub fn build_operation_index(operations_block: &OperationsBlock) -> (r: Result<
    Vec<(String, OperationInfo)>,
    CompileError,
>)
    ensures
        r is Ok <==> ops_buildable(*operations_block),
        r matches Ok(idx) ==> {
            &&& idx@.len() == operations_block.definitions@.len()
            &&& forall|k: int|
                0 <= k < idx@.len() ==> (#[trigger] idx@[k].0@)
                    == operations_block.definitions@[k].name@
            &&& forall|k: int|
                0 <= k < idx@.len() ==> steps_wf(
                    operations_block.definitions@[k],
                    #[trigger] idx@[k].1,
                )
        },
{
    let defs = &operations_block.definitions;
    let mut operations: Vec<(String, OperationInfo)> = Vec::new();
    let mut k: usize = 0;
    while k < defs.len()
        invariant
            k <= defs@.len(),
            operations@.len() == k,
            forall|m: int| 0 <= m < k ==> (#[trigger] operations@[m].0@) == defs@[m].name@,
            forall|m: int| 0 <= m < k ==> steps_wf(defs@[m], #[trigger] operations@[m].1),
        decreases defs@.len() - k,
    {
        let op_name = defs[k].name.clone();
        let toks = flatten_to_vec(&defs[k].body.content);
        proof {
            vstd::std_specs::vec::axiom_spec_len(&toks);
        }
        let ghost whole = toks@;
        let mut steps: Vec<(String, StepInfo)> = Vec::new();
        let mut i: usize = 0;
        proof {
            assert(whole.skip(0) =~= whole);
            assert(steps_pairs(steps@) =~= Seq::<(Seq<char>, Seq<char>)>::empty());
            assert(opt_concat(steps_pairs(steps@), scan_steps(whole)) == scan_steps(whole)) by {
                match scan_steps(whole) {
                    Some(r) => {
                        assert(steps_pairs(steps@) + r =~= r);
                    },
                    None => {},
                }
            }
        }
        while i < toks.len()
            invariant
                i <= toks@.len(),
                scan_steps(whole) == opt_concat(
                    steps_pairs(steps@),
                    scan_steps(whole.skip(i as int)),
                ),
                keys_unique(steps@),
                forall|j: int|
                    0 <= j < steps@.len() ==> ((#[trigger] steps@[j].1.luop_fn) matches Some(f)
                        && f@ == steps@[j].0@),
            decreases toks@.len() - i,
        {
            proof {
                assert(whole.skip(i as int)[0] == whole[i as int]);
                assert(whole.skip(i as int).skip(1) =~= whole.skip(i as int + 1));
            }
            if tok_kw(&toks[i], "do") {
                let shape_ok = if toks.len() - i > 3 {
                    let s1 = match &toks[i + 1] {
                        Tok::Ident(_) => true,
                        _ => false,
                    };
                    let s3 = match &toks[i + 3] {
                        Tok::Ident(_) => true,
                        _ => false,
                    };
                    s1 && tok_kw(&toks[i + 2], "output") && s3
                } else {
                    false
                };
                if !shape_ok {
                    proof {
                        if toks@.len() - i >= 4 {
                            assert(whole.skip(i as int)[1] == whole[i as int + 1]);
                            assert(whole.skip(i as int)[2] == whole[i as int + 2]);
                            assert(whole.skip(i as int)[3] == whole[i as int + 3]);
                        }
                        assert(scan_steps(whole.skip(i as int)) is None);
                        assert(scan_steps(whole) is None);
                        assert(!ops_buildable(*operations_block)) by {
                            assert(spec_flatten_trees(
                                operations_block.definitions@[k as int].body.content@,
                            ) == whole);
                        }
                    }
                    return Err(
                        CompileError::new(
                            CompileErrorKind::Grammar,
                            "do",
                            "expected `do <step> output <name>`",
                        ),
                    );
                }
                let step = match &toks[i + 1] {
                    Tok::Ident(s) => s.clone(),
                    _ => {
                        proof {
                            assert(false);
                        }
                        return Err(
                            CompileError::new(
                                CompileErrorKind::Grammar,
                                "do",
                                "expected step name after `do`",
                            ),
                        );
                    },
                };
                let output = match &toks[i + 3] {
                    Tok::Ident(s) => s.clone(),
                    _ => {
                        proof {
                            assert(false);
                        }
                        return Err(
                            CompileError::new(
                                CompileErrorKind::Grammar,
                                "output",
                                "expected output name after `output`",
                            ),
                        );
                    },
                };
                let ghost acc = steps@;
                let mut j: usize = 0;
                while j < steps.len()
                    invariant
                        j <= steps@.len(),
                        acc == steps@,
                        forall|b: int| 0 <= b < j ==> (#[trigger] acc[b].0@) != step@,
                    decreases steps@.len() - j,
                {
                    if str_eq(steps[j].0.as_str(), step.as_str()) {
                        proof {
                            assert(whole.skip(i as int)[1] == whole[i as int + 1]);
                            assert(whole.skip(i as int)[2] == whole[i as int + 2]);
                            assert(whole.skip(i as int)[3] == whole[i as int + 3]);
                            assert(whole.skip(i as int).skip(4) =~= whole.skip(i as int + 4));
                            let stepv = (tok_ident(whole[i as int + 1]), tok_ident(
                                whole[i as int + 3],
                            ));
                            assert(stepv.0 == step@);
                            match scan_steps(whole.skip(i as int + 4)) {
                                Some(rest) => {
                                    let full = steps_pairs(acc) + (seq![stepv] + rest);
                                    assert(scan_steps(whole) == Some(full));
                                    assert(full[j as int] == steps_pairs(acc)[j as int]);
                                    assert(steps_pairs(acc)[j as int].0 == acc[j as int].0@);
                                    assert(full[acc.len() as int] == stepv);
                                    assert(!step_names_unique(full));
                                },
                                None => {
                                    assert(scan_steps(whole) is None);
                                },
                            }
                            assert(!ops_buildable(*operations_block)) by {
                                assert(spec_flatten_trees(
                                    operations_block.definitions@[k as int].body.content@,
                                ) == whole);
                            }
                        }
                        return Err(
                            CompileError::new(
                                CompileErrorKind::Uniqueness,
                                step.as_str(),
                                "step already declared",
                            ),
                        );
                    }
                    j += 1;
                }
                let info = StepInfo { binding: output, luop_fn: Some(step.clone()) };
                steps.push((step, info));
                proof {
                    assert(whole.skip(i as int)[1] == whole[i as int + 1]);
                    assert(whole.skip(i as int)[2] == whole[i as int + 2]);
                    assert(whole.skip(i as int)[3] == whole[i as int + 3]);
                    assert(whole.skip(i as int).skip(4) =~= whole.skip(i as int + 4));
                    let stepv = (tok_ident(whole[i as int + 1]), tok_ident(whole[i as int + 3]));
                    assert(steps_pairs(steps@) =~= steps_pairs(acc).push(stepv));
                    match scan_steps(whole.skip(i as int + 4)) {
                        Some(rest) => {
                            assert(steps_pairs(acc) + (seq![stepv] + rest) =~= steps_pairs(
                                acc,
                            ).push(stepv) + rest);
                        },
                        None => {},
                    }
                }
                i += 4;
            } else {
                i += 1;
            }
        }
        proof {
            assert(whole.skip(toks@.len() as int) =~= Seq::<Tok>::empty());
        }
        let info = OperationInfo { steps };
        operations.push((op_name, info));
        k += 1;
    }
    proof {
        assert forall|k2: int| 0 <= k2 < operations_block.definitions@.len() implies (scan_steps(
            spec_flatten_trees((#[trigger] operations_block.definitions@[k2]).body.content@),
        ) matches Some(s2) && step_names_unique(s2)) by {
            assert(steps_wf(defs@[k2], operations@[k2].1));
            let steps2 = operations@[k2].1.steps@;
            let pairs = steps_pairs(steps2);
            assert forall|a: int, b: int| 0 <= a < b < pairs.len() implies pairs[a].0
                != pairs[b].0 by {
                assert(pairs[a].0 == steps2[a].0@);
                assert(pairs[b].0 == steps2[b].0@);
            }
        }
    }
    Ok(operations)
}

} // verus!
