//! Lowering: turns the three indices into an executable plan — the
//! step invocations, the signal evaluations and the clinch clauses, each
//! in source declaration order, so a plan runs the same way every time.

use vstd::prelude::*;

use crate::error::CompileError;
use crate::error::CompileErrorKind;
use crate::index::clinch::ClinchAction;
use crate::index::clinch::ClinchIndex;
use crate::index::clinch::SignalId;
use crate::index::common::StepInfo;
use crate::index::common::lookup_by_name;
use crate::index::operations::OperationIndex;
use crate::index::operations::OperationInfo;
use crate::index::pipeline::PipelineIndex;
use crate::index::signals::FamilyInfo;
use crate::index::signals::SignalIndex;
use crate::index::signals::SignalInfo;
use crate::parse::pipeline::MetaBlock;
use crate::predicate::OrExpr;
use crate::strutil::str_eq;

verus! {

/// One step invocation of a plan: which operation function to call and
/// under which name to bind its result.
#[derive(Debug)]
pub struct StepInvocation {
    pub operation: String,
    pub step: String,
    pub luop_fn: String,
    pub binding: String,
}

/// One signal evaluation of a plan: which bound record to read and the
/// compiled predicate to evaluate on it.
#[derive(Debug)]
pub struct SignalEval {
    pub family: String,
    pub name: String,
    pub binding: String,
    pub when: OrExpr,
}

/// The lowered, ready-to-run form of a pipeline: step invocations,
/// signal evaluations and clinch clauses, in declaration order, plus the
/// carried metadata block.
#[derive(Debug)]
pub struct ExecutablePlan {
    pub steps: Vec<StepInvocation>,
    pub signals: Vec<SignalEval>,
    pub clinch: ClinchIndex,
    pub meta: Option<MetaBlock>,
}

/// Signal `j`'s binding is produced by some step of the plan.
pub open spec fn signal_bound(plan: ExecutablePlan, j: int) -> bool {
    exists|k: int|
        0 <= k < plan.steps@.len() && (#[trigger] plan.steps@[k].binding@)
            == plan.signals@[j].binding@
}

/// Clause `c`'s signal is evaluated by some signal of the plan.
pub open spec fn clause_bound(plan: ExecutablePlan, c: int) -> bool {
    exists|i: int|
        0 <= i < plan.signals@.len() && (#[trigger] plan.signals@[i].family@)
            == plan.clinch.clauses@[c].0.family@ && plan.signals@[i].name@
            == plan.clinch.clauses@[c].0.name@
}

/// The plan's output bindings are pairwise distinct across all
/// operations, so reading a bound result by name is unambiguous.
pub open spec fn plan_bindings_unique(plan: ExecutablePlan) -> bool {
    forall|k1: int, k2: int|
        0 <= k1 < k2 < plan.steps@.len() ==> (#[trigger] plan.steps@[k1].binding@) != (
        #[trigger] plan.steps@[k2].binding@)
}

/// A plan's internal references resolve: its binding names are
/// unambiguous, every signal's binding is produced by some step, and
/// every clinch clause's signal is evaluated.
pub open spec fn plan_wf(plan: ExecutablePlan) -> bool {
    &&& plan_bindings_unique(plan)
    &&& forall|j: int| 0 <= j < plan.signals@.len() ==> #[trigger] signal_bound(plan, j)
    &&& forall|c: int| 0 <= c < plan.clinch.clauses@.len() ==> #[trigger] clause_bound(plan, c)
}

/// `plan_bindings_unique`, stated over the operation index a plan is
/// lowered from.
pub open spec fn lowered_bindings_unique(ops: Seq<(String, OperationInfo)>) -> bool {
    forall|k1: int, k2: int|
        0 <= k1 < k2 < flat_steps(ops).len() ==> (#[trigger] flat_steps(ops)[k1]).2.binding@ != (
        #[trigger] flat_steps(ops)[k2]).2.binding@
}

/// Signal `j` of the flattened signal index resolves to some step's
/// binding.
pub open spec fn lowered_signal_bound_at(
    ops: Seq<(String, OperationInfo)>,
    fams: Seq<(String, FamilyInfo)>,
    j: int,
) -> bool {
    exists|k: int|
        0 <= k < flat_steps(ops).len() && (#[trigger] flat_steps(ops)[k]).2.binding@ == binding_of(
            ops,
            flat_signals(fams)[j].2.derives_from.operation@,
            flat_signals(fams)[j].2.derives_from.step@,
            flat_signals(fams)[j].2.derives_from.step@,
        )
}

/// `signal_bound`, stated over the indices a plan is lowered from.
pub open spec fn lowered_signal_bound(
    ops: Seq<(String, OperationInfo)>,
    fams: Seq<(String, FamilyInfo)>,
) -> bool {
    forall|j: int|
        0 <= j < flat_signals(fams).len() ==> #[trigger] lowered_signal_bound_at(ops, fams, j)
}

/// Clause `c` names a signal of the flattened signal index.
pub open spec fn lowered_clause_bound_at(
    fams: Seq<(String, FamilyInfo)>,
    clauses: Seq<(SignalId, Vec<ClinchAction>)>,
    c: int,
) -> bool {
    exists|i: int|
        0 <= i < flat_signals(fams).len() && (#[trigger] flat_signals(fams)[i]).0
            == clauses[c].0.family@ && flat_signals(fams)[i].1 == clauses[c].0.name@
}

/// `clause_bound`, stated over the indices a plan is lowered from.
pub open spec fn lowered_clause_bound(
    fams: Seq<(String, FamilyInfo)>,
    clauses: Seq<(SignalId, Vec<ClinchAction>)>,
) -> bool {
    forall|c: int|
        0 <= c < clauses.len() ==> #[trigger] lowered_clause_bound_at(fams, clauses, c)
}

/// The flattened (operation, step, info) triples of an operation index.
pub open spec fn flat_steps(ops: Seq<(String, OperationInfo)>) -> Seq<
    (Seq<char>, Seq<char>, StepInfo),
>
    decreases ops.len(),
{
    if ops.len() == 0 {
        Seq::empty()
    } else {
        ops[0].1.steps@.map_values(|p: (String, StepInfo)| (ops[0].0@, p.0@, p.1)) + flat_steps(
            ops.skip(1),
        )
    }
}

/// The flattened (family, signal, info) triples of a signal index.
pub open spec fn flat_signals(fams: Seq<(String, FamilyInfo)>) -> Seq<
    (Seq<char>, Seq<char>, SignalInfo),
>
    decreases fams.len(),
{
    if fams.len() == 0 {
        Seq::empty()
    } else {
        fams[0].1.signals@.map_values(|p: (String, SignalInfo)| (fams[0].0@, p.0@, p.1))
            + flat_signals(fams.skip(1))
    }
}

/// The function name a step invokes: its recorded operation function,
/// or the step's own name when none was recorded.
pub open spec fn fn_of(step: Seq<char>, info: StepInfo) -> Seq<char> {
    match info.luop_fn {
        Some(f) => f@,
        None => step,
    }
}

/// Lowers one step into its invocation: the operation function of the
/// step's record, or the step's own name when none was recorded.
pub fn lower_step(op_name: &String, step_name: String, info: StepInfo) -> (r: StepInvocation)
    ensures
        r.operation@ == op_name@,
        r.step@ == step_name@,
        r.binding@ == info.binding@,
        r.luop_fn@ == fn_of(step_name@, info),
{
    let luop_fn = match info.luop_fn {
        Some(f) => f,
        None => step_name.clone(),
    };
    StepInvocation { operation: op_name.clone(), step: step_name, luop_fn, binding: info.binding }
}

/// Lowers the operation index into the ordered step invocations.
#[verifier::loop_isolation(false)]
pub fn lower_operations(ops: Vec<(String, OperationInfo)>) -> (r: Vec<StepInvocation>)
    ensures
        r@.len() == flat_steps(ops@).len(),
        forall|m: int|
            0 <= m < r@.len() ==> {
                let f = flat_steps(ops@)[m];
                &&& (#[trigger] r@[m]).operation@ == f.0
                &&& r@[m].step@ == f.1
                &&& r@[m].binding@ == f.2.binding@
                &&& r@[m].luop_fn@ == fn_of(f.1, f.2)
            },
{
    let mut ops = ops;
    let ghost whole = ops@;
    let mut out: Vec<StepInvocation> = Vec::new();
    proof {
        assert(whole.skip(0) =~= whole);
        assert(flat_steps(whole).take(out@.len() as int) =~= Seq::<(
            Seq<char>,
            Seq<char>,
            StepInfo,
        )>::empty());
    }
    while ops.len() > 0
        invariant
            flat_steps(whole) =~= flat_steps(whole).take(out@.len() as int) + flat_steps(
                ops@,
            ),
            out@.len() <= flat_steps(whole).len(),
            forall|m: int|
                0 <= m < out@.len() ==> {
                    let f = flat_steps(whole)[m];
                    &&& (#[trigger] out@[m]).operation@ == f.0
                    &&& out@[m].step@ == f.1
                    &&& out@[m].binding@ == f.2.binding@
                    &&& out@[m].luop_fn@ == fn_of(f.1, f.2)
                },
        decreases ops@.len(),
    {
        let ghost pre = ops@;
        let (op_name, info) = ops.remove(0);
        proof {
            assert(ops@ =~= pre.skip(1));
        }
        let mut steps = info.steps;
        proof {
            vstd::std_specs::vec::axiom_spec_len(&steps);
        }
        let ghost stepsv = steps@;
        let mut j: usize = 0;
        while steps.len() > 0
            invariant
                j + steps@.len() == stepsv.len(),
                stepsv.len() <= usize::MAX,
                steps@ =~= stepsv.skip(j as int),
                flat_steps(whole) =~= flat_steps(whole).take(out@.len() as int) + (stepsv.map_values(
                    |p: (String, StepInfo)| (pre[0].0@, p.0@, p.1),
                ).skip(j as int) + flat_steps(pre.skip(1))),
                op_name == pre[0].0,
                out@.len() + stepsv.len() - j <= flat_steps(whole).len(),
                forall|m: int|
                    0 <= m < out@.len() ==> {
                        let f = flat_steps(whole)[m];
                        &&& (#[trigger] out@[m]).operation@ == f.0
                        &&& out@[m].step@ == f.1
                        &&& out@[m].binding@ == f.2.binding@
                        &&& out@[m].luop_fn@ == fn_of(f.1, f.2)
                    },
            decreases steps@.len(),
        {
            let ghost spre = steps@;
            let (step_name, sinfo) = steps.remove(0);
            proof {
                assert(steps@ =~= spre.skip(1));
                let mapped = stepsv.map_values(|p: (String, StepInfo)| (pre[0].0@, p.0@, p.1));
                assert(mapped.skip(j as int)[0] == mapped[j as int]);
                assert(mapped[j as int] == (pre[0].0@, stepsv[j as int].0@, stepsv[j as int].1));
                assert(stepsv[j as int] == spre[0]);
                assert(flat_steps(whole)[out@.len() as int] == mapped[j as int]);
                assert(mapped.skip(j as int).skip(1) =~= mapped.skip(j as int + 1));
            }
            let inv = lower_step(&op_name, step_name, sinfo);
            out.push(inv);
            proof {
                assert(flat_steps(whole).take(out@.len() as int) =~= flat_steps(whole).take(
                    out@.len() as int - 1,
                ).push(flat_steps(whole)[out@.len() as int - 1]));
            }
            j += 1;
        }
        proof {
            assert(stepsv.map_values(|p: (String, StepInfo)| (pre[0].0@, p.0@, p.1)).skip(j as int)
                =~= Seq::<(Seq<char>, Seq<char>, StepInfo)>::empty());
        }
    }
    proof {
        assert(flat_steps(ops@) =~= Seq::<(Seq<char>, Seq<char>, StepInfo)>::empty());
        assert(flat_steps(whole).take(out@.len() as int) =~= flat_steps(whole));
    }
    out
}

/// Lowers the signal index into the ordered signal evaluations,
/// resolving each signal's binding through the operation index; a
/// missing step falls back to the step's own name, as the index records
/// it.
#[verifier::loop_isolation(false)]
pub fn lower_signals(fams: Vec<(String, FamilyInfo)>, ops: &OperationIndex) -> (r: Vec<SignalEval>)
    ensures
        r@.len() == flat_signals(fams@).len(),
        forall|m: int|
            0 <= m < r@.len() ==> {
                let f = flat_signals(fams@)[m];
                &&& (#[trigger] r@[m]).family@ == f.0
                &&& r@[m].name@ == f.1
                &&& r@[m].when == f.2.when
                &&& r@[m].binding@ == binding_of(
                    ops.index@,
                    f.2.derives_from.operation@,
                    f.2.derives_from.step@,
                    f.2.derives_from.step@,
                )
            },
{
    let mut fams = fams;
    let ghost whole = fams@;
    let mut out: Vec<SignalEval> = Vec::new();
    proof {
        assert(whole.skip(0) =~= whole);
        assert(flat_signals(whole).take(out@.len() as int) =~= Seq::<(
            Seq<char>,
            Seq<char>,
            SignalInfo,
        )>::empty());
    }
    while fams.len() > 0
        invariant
            flat_signals(whole) =~= flat_signals(whole).take(out@.len() as int) + flat_signals(
                fams@,
            ),
            out@.len() <= flat_signals(whole).len(),
            forall|m: int|
                0 <= m < out@.len() ==> {
                    let f = flat_signals(whole)[m];
                    &&& (#[trigger] out@[m]).family@ == f.0
                    &&& out@[m].name@ == f.1
                    &&& out@[m].when == f.2.when
                    &&& out@[m].binding@ == binding_of(
                        ops.index@,
                        f.2.derives_from.operation@,
                        f.2.derives_from.step@,
                        f.2.derives_from.step@,
                    )
                },
        decreases fams@.len(),
    {
        let ghost pre = fams@;
        let (fam_name, finfo) = fams.remove(0);
        proof {
            assert(fams@ =~= pre.skip(1));
        }
        let mut signals = finfo.signals;
        proof {
            vstd::std_specs::vec::axiom_spec_len(&signals);
        }
        let ghost sigsv = signals@;
        let mut j: usize = 0;
        while signals.len() > 0
            invariant
                j + signals@.len() == sigsv.len(),
                sigsv.len() <= usize::MAX,
                signals@ =~= sigsv.skip(j as int),
                flat_signals(whole) =~= flat_signals(whole).take(out@.len() as int) + (
                sigsv.map_values(|p: (String, SignalInfo)| (pre[0].0@, p.0@, p.1)).skip(j as int)
                    + flat_signals(pre.skip(1))),
                fam_name == pre[0].0,
                out@.len() + sigsv.len() - j <= flat_signals(whole).len(),
                forall|m: int|
                    0 <= m < out@.len() ==> {
                        let f = flat_signals(whole)[m];
                        &&& (#[trigger] out@[m]).family@ == f.0
                        &&& out@[m].name@ == f.1
                        &&& out@[m].when == f.2.when
                        &&& out@[m].binding@ == binding_of(
                            ops.index@,
                            f.2.derives_from.operation@,
                            f.2.derives_from.step@,
                            f.2.derives_from.step@,
                        )
                    },
            decreases signals@.len(),
        {
            let ghost spre = signals@;
            let (sig_name, sinfo) = signals.remove(0);
            proof {
                assert(signals@ =~= spre.skip(1));
                let mapped = sigsv.map_values(|p: (String, SignalInfo)| (pre[0].0@, p.0@, p.1));
                assert(mapped.skip(j as int)[0] == mapped[j as int]);
                assert(mapped[j as int] == (pre[0].0@, sigsv[j as int].0@, sigsv[j as int].1));
                assert(sigsv[j as int] == spre[0]);
                assert(flat_signals(whole)[out@.len() as int] == mapped[j as int]);
                assert(mapped.skip(j as int).skip(1) =~= mapped.skip(j as int + 1));
            }
            let binding = match crate::index::common::find_by_name(
                &ops.index,
                sinfo.derives_from.operation.as_str(),
            ) {
                Some(op) => {
                    match crate::index::common::find_by_name(
                        &op.steps,
                        sinfo.derives_from.step.as_str(),
                    ) {
                        Some(st) => st.binding.clone(),
                        None => sinfo.derives_from.step.clone(),
                    }
                },
                None => sinfo.derives_from.step.clone(),
            };
            let ev = SignalEval {
                family: fam_name.clone(),
                name: sig_name,
                binding,
                when: sinfo.when,
            };
            out.push(ev);
            proof {
                assert(flat_signals(whole).take(out@.len() as int) =~= flat_signals(whole).take(
                    out@.len() as int - 1,
                ).push(flat_signals(whole)[out@.len() as int - 1]));
            }
            j += 1;
        }
        proof {
            assert(sigsv.map_values(|p: (String, SignalInfo)| (pre[0].0@, p.0@, p.1)).skip(j as int)
                =~= Seq::<(Seq<char>, Seq<char>, SignalInfo)>::empty());
        }
    }
    proof {
        assert(flat_signals(fams@) =~= Seq::<(Seq<char>, Seq<char>, SignalInfo)>::empty());
        assert(flat_signals(whole).take(out@.len() as int) =~= flat_signals(whole));
    }
    out
}

/// The output binding a derivation resolves to, with the given fallback
/// when it does not resolve.
pub open spec fn binding_of(
    ops: Seq<(String, OperationInfo)>,
    op: Seq<char>,
    step: Seq<char>,
    fallback: Seq<char>,
) -> Seq<char> {
    match lookup_by_name(ops, op) {
        Some(o) => match lookup_by_name(o.steps@, step) {
            Some(st) => st.binding@,
            None => fallback,
        },
        None => fallback,
    }
}

/// A plan is the faithful lowering of an index: the flattened step
/// invocations and signal evaluations of the indices, in declaration
/// order, and the clause list unchanged.
pub open spec fn plan_matches_index(plan: ExecutablePlan, idx: PipelineIndex) -> bool {
    &&& plan.clinch == idx.clinch_index
    &&& plan.steps@.len() == flat_steps(idx.operation_index.index@).len()
    &&& forall|m: int|
        0 <= m < plan.steps@.len() ==> {
            let f = flat_steps(idx.operation_index.index@)[m];
            &&& (#[trigger] plan.steps@[m]).operation@ == f.0
            &&& plan.steps@[m].step@ == f.1
            &&& plan.steps@[m].binding@ == f.2.binding@
            &&& plan.steps@[m].luop_fn@ == fn_of(f.1, f.2)
        }
    &&& plan.signals@.len() == flat_signals(idx.signal_index.families@).len()
    &&& forall|m: int|
        0 <= m < plan.signals@.len() ==> {
            let f = flat_signals(idx.signal_index.families@)[m];
            &&& (#[trigger] plan.signals@[m]).family@ == f.0
            &&& plan.signals@[m].name@ == f.1
            &&& plan.signals@[m].when == f.2.when
            &&& plan.signals@[m].binding@ == binding_of(
                idx.operation_index.index@,
                f.2.derives_from.operation@,
                f.2.derives_from.step@,
                f.2.derives_from.step@,
            )
        }
}

/// Lowers a validated pipeline index into an executable plan, checking
/// that every plan-internal reference resolves.
#[verifier::loop_isolation(false)]
pub fn lower_pipeline(index: PipelineIndex, meta: Option<MetaBlock>) -> (r: Result<
    ExecutablePlan,
    CompileError,
>)
    ensures
        r matches Ok(plan) ==> plan_wf(plan),
        r matches Ok(plan) ==> plan.meta == meta && plan_matches_index(plan, index),
        r is Err <==> !(lowered_bindings_unique(index.operation_index.index@)
            && lowered_signal_bound(index.operation_index.index@, index.signal_index.families@)
            && lowered_clause_bound(index.signal_index.families@, index.clinch_index.clauses@)),
{
    let ghost opsv = index.operation_index.index@;
    let ghost famsv = index.signal_index.families@;
    let ghost clausesv = index.clinch_index.clauses@;
    let PipelineIndex { operation_index, signal_index, clinch_index } = index;
    let signals = lower_signals(signal_index.families, &operation_index);
    let steps = lower_operations(operation_index.index);
    let plan = ExecutablePlan { steps, signals, clinch: clinch_index, meta };
    let mut k1: usize = 0;
    while k1 < plan.steps.len()
        invariant
            k1 <= plan.steps@.len(),
            forall|a: int, b: int|
                0 <= a < b < k1 ==> (#[trigger] plan.steps@[a].binding@) != (
                #[trigger] plan.steps@[b].binding@),
        decreases plan.steps@.len() - k1,
    {
        let mut k2: usize = 0;
        while k2 < k1
            invariant
                k2 <= k1 < plan.steps@.len(),
                forall|a: int|
                    0 <= a < k2 ==> (#[trigger] plan.steps@[a].binding@)
                        != plan.steps@[k1 as int].binding@,
            decreases k1 - k2,
        {
            if str_eq(plan.steps[k2].binding.as_str(), plan.steps[k1].binding.as_str()) {
                proof {
                    assert(flat_steps(opsv)[k2 as int].2.binding@ == plan.steps@[k2 as int].binding@);
                    assert(flat_steps(opsv)[k1 as int].2.binding@ == plan.steps@[k1 as int].binding@);
                    assert(!lowered_bindings_unique(opsv));
                }
                return Err(
                    CompileError::new(
                        CompileErrorKind::Uniqueness,
                        plan.steps[k1].binding.as_str(),
                        "output binding is declared by more than one step",
                    ),
                );
            }
            k2 += 1;
        }
        k1 += 1;
    }
    let mut j: usize = 0;
    while j < plan.signals.len()
        invariant
            j <= plan.signals@.len(),
            forall|m: int| 0 <= m < j ==> #[trigger] signal_bound(plan, m),
        decreases plan.signals@.len() - j,
    {
        let mut found = false;
        let ghost mut kw: int = 0;
        let mut k: usize = 0;
        while k < plan.steps.len() && !found
            invariant
                k <= plan.steps@.len(),
                found ==> 0 <= kw < plan.steps@.len() && plan.steps@[kw].binding@
                    == plan.signals@[j as int].binding@,
                !found ==> forall|m: int|
                    0 <= m < k ==> (#[trigger] plan.steps@[m].binding@)
                        != plan.signals@[j as int].binding@,
            decreases plan.steps@.len() - k,
        {
            if str_eq(plan.steps[k].binding.as_str(), plan.signals[j].binding.as_str()) {
                found = true;
                proof {
                    kw = k as int;
                }
            }
            k += 1;
        }
        if !found {
            proof {
                assert(plan.signals@[j as int].binding@ == binding_of(
                    opsv,
                    flat_signals(famsv)[j as int].2.derives_from.operation@,
                    flat_signals(famsv)[j as int].2.derives_from.step@,
                    flat_signals(famsv)[j as int].2.derives_from.step@,
                ));
                assert forall|m: int| 0 <= m < flat_steps(opsv).len() implies (
                #[trigger] flat_steps(opsv)[m]).2.binding@ != plan.signals@[j as int].binding@ by {
                    assert(plan.steps@[m].binding@ == flat_steps(opsv)[m].2.binding@);
                }
                assert(!lowered_signal_bound_at(opsv, famsv, j as int));
                assert(!lowered_signal_bound(opsv, famsv));
            }
            return Err(
                CompileError::new(
                    CompileErrorKind::Referential,
                    plan.signals[j].binding.as_str(),
                    "signal binding is not produced by any step",
                ),
            );
        }
        proof {
            assert(plan.steps@[kw].binding@ == plan.signals@[j as int].binding@);
            assert(signal_bound(plan, j as int));
        }
        j += 1;
    }
    let mut c: usize = 0;
    while c < plan.clinch.clauses.len()
        invariant
            c <= plan.clinch.clauses@.len(),
            forall|m: int| 0 <= m < c ==> #[trigger] clause_bound(plan, m),
        decreases plan.clinch.clauses@.len() - c,
    {
        let mut found = false;
        let ghost mut iw: int = 0;
        let mut i: usize = 0;
        while i < plan.signals.len() && !found
            invariant
                i <= plan.signals@.len(),
                found ==> 0 <= iw < plan.signals@.len() && plan.signals@[iw].family@
                    == plan.clinch.clauses@[c as int].0.family@ && plan.signals@[iw].name@
                    == plan.clinch.clauses@[c as int].0.name@,
                !found ==> forall|m: int|
                    0 <= m < i ==> !((#[trigger] plan.signals@[m].family@)
                        == plan.clinch.clauses@[c as int].0.family@ && plan.signals@[m].name@
                        == plan.clinch.clauses@[c as int].0.name@),
            decreases plan.signals@.len() - i,
        {
            if str_eq(plan.signals[i].family.as_str(), plan.clinch.clauses[c].0.family.as_str())
                && str_eq(plan.signals[i].name.as_str(), plan.clinch.clauses[c].0.name.as_str()) {
                found = true;
                proof {
                    iw = i as int;
                }
            }
            i += 1;
        }
        if !found {
            proof {
                assert(clausesv[c as int] == plan.clinch.clauses@[c as int]);
                assert forall|m: int| 0 <= m < flat_signals(famsv).len() implies !((
                #[trigger] flat_signals(famsv)[m]).0 == clausesv[c as int].0.family@ && flat_signals(
                    famsv,
                )[m].1 == clausesv[c as int].0.name@) by {
                    assert(plan.signals@[m].family@ == flat_signals(famsv)[m].0);
                    assert(plan.signals@[m].name@ == flat_signals(famsv)[m].1);
                }
                assert(!lowered_clause_bound_at(famsv, clausesv, c as int));
                assert(!lowered_clause_bound(famsv, clausesv));
            }
            return Err(
                CompileError::new(
                    CompileErrorKind::Referential,
                    plan.clinch.clauses[c].0.name.as_str(),
                    "clinch clause references a signal the plan does not evaluate",
                ),
            );
        }
        proof {
            assert(plan.signals@[iw].family@ == plan.clinch.clauses@[c as int].0.family@);
            assert(clause_bound(plan, c as int));
        }
        c += 1;
    }
    proof {
        assert(lowered_bindings_unique(opsv)) by {
            assert forall|a: int, b: int|
                0 <= a < b < flat_steps(opsv).len() implies (
            #[trigger] flat_steps(opsv)[a]).2.binding@ != (#[trigger] flat_steps(
                opsv,
            )[b]).2.binding@ by {
                assert(plan.steps@[a].binding@ == flat_steps(opsv)[a].2.binding@);
                assert(plan.steps@[b].binding@ == flat_steps(opsv)[b].2.binding@);
            }
        }
        assert(lowered_signal_bound(opsv, famsv)) by {
            assert forall|j2: int| 0 <= j2 < flat_signals(famsv).len() implies
                #[trigger] lowered_signal_bound_at(opsv, famsv, j2) by {
                assert(signal_bound(plan, j2));
                let kx = choose|k: int|
                    0 <= k < plan.steps@.len() && (#[trigger] plan.steps@[k].binding@)
                        == plan.signals@[j2].binding@;
                assert(flat_steps(opsv)[kx].2.binding@ == plan.steps@[kx].binding@);
                assert(plan.signals@[j2].binding@ == binding_of(
                    opsv,
                    flat_signals(famsv)[j2].2.derives_from.operation@,
                    flat_signals(famsv)[j2].2.derives_from.step@,
                    flat_signals(famsv)[j2].2.derives_from.step@,
                ));
            }
        }
        assert(lowered_clause_bound(famsv, clausesv)) by {
            assert forall|c2: int| 0 <= c2 < clausesv.len() implies #[trigger] lowered_clause_bound_at(
                famsv,
                clausesv,
                c2,
            ) by {
                assert(clausesv[c2] == plan.clinch.clauses@[c2]);
                assert(clause_bound(plan, c2));
                let ix = choose|i: int|
                    0 <= i < plan.signals@.len() && (#[trigger] plan.signals@[i].family@)
                        == plan.clinch.clauses@[c2].0.family@ && plan.signals@[i].name@
                        == plan.clinch.clauses@[c2].0.name@;
                assert(flat_signals(famsv)[ix].0 == plan.signals@[ix].family@);
                assert(flat_signals(famsv)[ix].1 == plan.signals@[ix].name@);
            }
        }
    }
    Ok(plan)
}

} // verus!
