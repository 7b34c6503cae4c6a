//! The library-wide guarantees, stated and proved over the runtime
//! semantics: determinism of plan evaluation, independence of step
//! order, and the impossibility of referential failures at run time.

use vstd::prelude::*;
use vstd::seq_lib::group_to_multiset_ensures;

use crate::data_objs::LuciusContext;
use crate::error::RuntimeError;
use crate::index::common::keys_unique;
use crate::index::common::lemma_lookup_at;
use crate::index::common::lookup_by_name;
use crate::lowering::ExecutablePlan;
use crate::lowering::SignalEval;
use crate::lowering::clause_bound;
use crate::lowering::plan_wf;
use crate::lowering::signal_bound;
use crate::predicate::Value;
use crate::runtime::CtxV;
use crate::runtime::apply_clauses_v;
use crate::runtime::ctx_view;
use crate::runtime::signal_result;
use crate::runtime::spec_eval_signals;
use crate::runtime::spec_run_pure;

verus! {

/// Determinism: running the same plan on the same bound step outputs
/// twice yields structurally identical execution contexts — the same
/// lists in the same order and the same score table. Evaluation is a
/// function of the plan and the step outputs alone.
pub proof fn lemma_run_deterministic(
    plan: ExecutablePlan,
    bindings: Seq<(String, Value)>,
    c1: LuciusContext,
    c2: LuciusContext,
)
    requires
        spec_run_pure(plan, bindings) == Ok::<CtxV, RuntimeError>(ctx_view(c1)),
        spec_run_pure(plan, bindings) == Ok::<CtxV, RuntimeError>(ctx_view(c2)),
    ensures
        ctx_view(c1) == ctx_view(c2),
{
}

/// A present key looks up to something.
proof fn lemma_lookup_some<T>(s: Seq<(String, T)>, j: int, name: Seq<char>)
    requires
        0 <= j < s.len(),
        s[j].0@ == name,
    ensures
        lookup_by_name(s, name) is Some,
    decreases j,
{
    if s[0].0@ != name {
        assert(s.skip(1)[j - 1] == s[j]);
        lemma_lookup_some(s.skip(1), j - 1, name);
    }
}

/// Under unique keys, one association list and any permutation of it
/// answer every lookup the same way.
pub proof fn lemma_lookup_permutation(
    b1: Seq<(String, Value)>,
    b2: Seq<(String, Value)>,
    name: Seq<char>,
)
    requires
        b1.to_multiset() == b2.to_multiset(),
        keys_unique(b1),
        keys_unique(b2),
    ensures
        lookup_by_name(b1, name) == lookup_by_name(b2, name),
{
    broadcast use group_to_multiset_ensures;

    match lookup_by_name(b1, name) {
        None => {
            match lookup_by_name(b2, name) {
                None => {},
                Some(_) => {
                    lemma_lookup_index(b2, name);
                    let i2 = choose|i: int| 0 <= i < b2.len() && (#[trigger] b2[i].0@) == name;
                    assert(b2.contains(b2[i2]));
                    assert(b2.to_multiset().count(b2[i2]) > 0);
                    assert(b1.to_multiset().count(b2[i2]) > 0);
                    assert(b1.contains(b2[i2]));
                    let j = choose|j: int| 0 <= j < b1.len() && b1[j] == b2[i2];
                    lemma_lookup_some(b1, j, name);
                    assert(false);
                },
            }
        },
        Some(v) => {
            lemma_lookup_index(b1, name);
            let i1 = choose|i: int| 0 <= i < b1.len() && (#[trigger] b1[i].0@) == name;
            lemma_lookup_at(b1, i1);
            assert(lookup_by_name(b1, name) == Some(b1[i1].1));
            assert(b1.contains(b1[i1]));
            assert(b1.to_multiset().count(b1[i1]) > 0);
            assert(b2.to_multiset().count(b1[i1]) > 0);
            assert(b2.contains(b1[i1]));
            let j = choose|j: int| 0 <= j < b2.len() && b2[j] == b1[i1];
            lemma_lookup_at(b2, j);
            assert(lookup_by_name(b2, name) == Some(b2[j].1));
        },
    }
}

/// An answered lookup has a witness index.
proof fn lemma_lookup_index<T>(s: Seq<(String, T)>, name: Seq<char>)
    requires
        lookup_by_name(s, name) is Some,
    ensures
        exists|i: int| 0 <= i < s.len() && (#[trigger] s[i].0@) == name,
    decreases s.len(),
{
    if s.len() > 0 {
        if s[0].0@ == name {
            assert(s[0].0@ == name);
        } else {
            lemma_lookup_index(s.skip(1), name);
            let i = choose|i: int| 0 <= i < s.skip(1).len() && (#[trigger] s.skip(1)[i].0@) == name;
            assert(s[i + 1] == s.skip(1)[i]);
        }
    }
}

/// Signal evaluation reads the bound outputs only through lookups, so
/// two permutations of the outputs evaluate every signal the same way.
proof fn lemma_eval_signals_permutation(
    signals: Seq<SignalEval>,
    b1: Seq<(String, Value)>,
    b2: Seq<(String, Value)>,
)
    requires
        b1.to_multiset() == b2.to_multiset(),
        keys_unique(b1),
        keys_unique(b2),
    ensures
        spec_eval_signals(signals, b1) == spec_eval_signals(signals, b2),
    decreases signals.len(),
{
    if signals.len() > 0 {
        lemma_lookup_permutation(b1, b2, signals[0].binding@);
        lemma_eval_signals_permutation(signals.skip(1), b1, b2);
    }
}

/// Independence of step order: the bound step outputs are an
/// association list with unique binding names, and a run reads them only
/// by name — so permuting the internal invocation order of the mutually
/// independent steps never changes the final execution context.
pub proof fn lemma_step_order_irrelevant(
    plan: ExecutablePlan,
    b1: Seq<(String, Value)>,
    b2: Seq<(String, Value)>,
)
    requires
        b1.to_multiset() == b2.to_multiset(),
        keys_unique(b1),
        keys_unique(b2),
    ensures
        spec_run_pure(plan, b1) == spec_run_pure(plan, b2),
{
    lemma_eval_signals_permutation(plan.signals@, b1, b2);
}

/// Clause-order sensitivity, stated positively: walking a clause list
/// is sequential composition in source declaration order — the clauses
/// declared first are applied first, and what follows starts from the
/// context they left behind. Reordering clauses therefore reorders the
/// score mutations themselves.
pub proof fn lemma_clause_order_is_sequential(
    c: CtxV,
    cs1: Seq<(crate::index::clinch::SignalId, Vec<crate::index::clinch::ClinchAction>)>,
    cs2: Seq<(crate::index::clinch::SignalId, Vec<crate::index::clinch::ClinchAction>)>,
    signals: Seq<SignalEval>,
    results: Seq<bool>,
)
    ensures
        apply_clauses_v(c, cs1 + cs2, signals, results) == (match apply_clauses_v(
            c,
            cs1,
            signals,
            results,
        ) {
            Ok(c2) => apply_clauses_v(c2, cs2, signals, results),
            Err(e) => Err(e),
        }),
    decreases cs1.len(),
{
    if cs1.len() == 0 {
        assert(cs1 + cs2 =~= cs2);
    } else {
        assert((cs1 + cs2)[0] == cs1[0]);
        assert((cs1 + cs2).skip(1) =~= cs1.skip(1) + cs2);
        match signal_result(signals, results, cs1[0].0.family@, cs1[0].0.name@) {
            None => {},
            Some(false) => {
                lemma_clause_order_is_sequential(c, cs1.skip(1), cs2, signals, results);
            },
            Some(true) => {
                match crate::runtime::apply_actions_v(
                    c,
                    crate::index::clinch::actions_view(cs1[0].1@),
                ) {
                    Some(c2) => {
                        lemma_clause_order_is_sequential(c2, cs1.skip(1), cs2, signals, results);
                    },
                    None => {},
                }
            },
        }
    }
}

/// With a matching signal present and aligned results, a signal lookup
/// always answers.
proof fn lemma_signal_result_some(
    signals: Seq<SignalEval>,
    results: Seq<bool>,
    i: int,
    family: Seq<char>,
    name: Seq<char>,
)
    requires
        signals.len() == results.len(),
        0 <= i < signals.len(),
        signals[i].family@ == family,
        signals[i].name@ == name,
    ensures
        signal_result(signals, results, family, name) is Some,
    decreases i,
{
    if !(signals[0].family@ == family && signals[0].name@ == name) {
        assert(signals.skip(1)[i - 1] == signals[i]);
        lemma_signal_result_some(signals.skip(1), results.skip(1), i - 1, family, name);
    }
}

/// Referential completeness at run time: on a well-formed plan, with
/// step outputs bound under the plan's own binding names, every signal's
/// binding lookup answers, and every clinch clause's signal lookup
/// answers — a dangling reference is impossible once compilation
/// succeeded.
pub proof fn lemma_no_dangling_references(plan: ExecutablePlan, bindings: Seq<(String, Value)>)
    requires
        plan_wf(plan),
        bindings.len() == plan.steps@.len(),
        forall|k: int| 0 <= k < bindings.len() ==> (#[trigger] bindings[k].0@)
            == plan.steps@[k].binding@,
    ensures
        forall|j: int|
            0 <= j < plan.signals@.len() ==> lookup_by_name(
                bindings,
                (#[trigger] plan.signals@[j]).binding@,
            ) is Some,
        forall|c: int, results: Seq<bool>|
            results.len() == plan.signals@.len() && 0 <= c < plan.clinch.clauses@.len() ==> (
            #[trigger] signal_result(
                plan.signals@,
                results,
                plan.clinch.clauses@[c].0.family@,
                plan.clinch.clauses@[c].0.name@,
            )) is Some,
{
    assert forall|j: int| 0 <= j < plan.signals@.len() implies lookup_by_name(
        bindings,
        (#[trigger] plan.signals@[j]).binding@,
    ) is Some by {
        assert(signal_bound(plan, j));
        let k = choose|k: int|
            0 <= k < plan.steps@.len() && (#[trigger] plan.steps@[k].binding@)
                == plan.signals@[j].binding@;
        lemma_lookup_some(bindings, k, plan.signals@[j].binding@);
    }
    assert forall|c: int, results: Seq<bool>|
        results.len() == plan.signals@.len() && 0 <= c < plan.clinch.clauses@.len() implies (
    #[trigger] signal_result(
        plan.signals@,
        results,
        plan.clinch.clauses@[c].0.family@,
        plan.clinch.clauses@[c].0.name@,
    )) is Some by {
        assert(clause_bound(plan, c));
        let i = choose|i: int|
            0 <= i < plan.signals@.len() && (#[trigger] plan.signals@[i].family@)
                == plan.clinch.clauses@[c].0.family@ && plan.signals@[i].name@
                == plan.clinch.clauses@[c].0.name@;
        lemma_signal_result_some(
            plan.signals@,
            results,
            i,
            plan.clinch.clauses@[c].0.family@,
            plan.clinch.clauses@[c].0.name@,
        );
    }
}

} // verus!
