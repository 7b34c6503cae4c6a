//! Runtime evaluation: invoking the registered operation functions,
//! evaluating signals, and applying the triggered clinch clauses in
//! source declaration order to a fresh execution context.

use vstd::prelude::*;
use vstd::string::StringExecFns;

use crate::data_objs::Artifact;
use crate::data_objs::LuciusContext;
use crate::error::RuntimeError;
use crate::index::clinch::ActionV;
use crate::index::clinch::ClinchAction;
use crate::index::clinch::ScoreOp;
use crate::index::clinch::SignalId;
use crate::index::clinch::action_view;
use crate::index::clinch::actions_view;
use crate::index::common::lookup_by_name;
use crate::lowering::ExecutablePlan;
use crate::lowering::SignalEval;
use crate::num::MAX_SCALE;
use crate::num::Num;
use crate::num::num_add_sub;
use crate::num::num_mul;
use crate::num::spec_num_add_sub;
use crate::num::spec_num_mul;
use crate::predicate::Value;
use crate::predicate::eval_pred;
use crate::predicate::spec_eval_pred;
use crate::strutil::str_concat;
use crate::strutil::str_eq;

verus! {

/// The shape of an execution context: what the runtime's contracts
/// speak of.
pub struct CtxV {
    pub tags: Seq<Seq<char>>,
    pub emits: Seq<Seq<char>>,
    pub deferred: Seq<Seq<char>>,
    pub scores: Seq<(Seq<char>, Num)>,
}

/// The shape a context denotes.
pub open spec fn ctx_view(c: LuciusContext) -> CtxV {
    CtxV {
        tags: c.tags@.map_values(|s: String| s@),
        emits: c.emits@.map_values(|s: String| s@),
        deferred: c.deferred@.map_values(|s: String| s@),
        scores: c.scores@.map_values(|p: (String, Num)| (p.0@, p.1)),
    }
}

/// The empty context every run starts from.
pub open spec fn empty_ctx() -> CtxV {
    CtxV { tags: Seq::empty(), emits: Seq::empty(), deferred: Seq::empty(), scores: Seq::empty() }
}

/// First score bound to `k`.
pub open spec fn lookup_score_v(s: Seq<(Seq<char>, Num)>, k: Seq<char>) -> Option<Num>
    decreases s.len(),
{
    if s.len() == 0 {
        None
    } else if s[0].0 == k {
        Some(s[0].1)
    } else {
        lookup_score_v(s.skip(1), k)
    }
}

/// Binds `k` to `v`: overwrites the first binding of `k`, or appends
/// one.
pub open spec fn set_score_v(s: Seq<(Seq<char>, Num)>, k: Seq<char>, v: Num) -> Seq<
    (Seq<char>, Num),
>
    decreases s.len(),
{
    if s.len() == 0 {
        seq![(k, v)]
    } else if s[0].0 == k {
        seq![(k, v)] + s.skip(1)
    } else {
        seq![s[0]] + set_score_v(s.skip(1), k, v)
    }
}

/// What a score action does to the context: a missing key defaults to
/// zero; the combined value must stay exactly representable.
pub open spec fn apply_score_v(c: CtxV, k: Seq<char>, op: ScoreOp, v: Num) -> Option<CtxV> {
    if !v.wf() {
        None
    } else {
        let cur = match lookup_score_v(c.scores, k) {
            Some(n) => n,
            None => Num { mant: 0, scale: 0 },
        };
        if !cur.wf() {
            None
        } else {
            let newv = match op {
                ScoreOp::Add => spec_num_add_sub(cur, v, false),
                ScoreOp::Sub => spec_num_add_sub(cur, v, true),
                ScoreOp::Mul => spec_num_mul(cur, v),
                ScoreOp::Assign => Some(v),
            };
            match newv {
                Some(n) => Some(
                    CtxV {
                        tags: c.tags,
                        emits: c.emits,
                        deferred: c.deferred,
                        scores: set_score_v(c.scores, k, n),
                    },
                ),
                None => None,
            }
        }
    }
}

/// What one action does to the context; `None` is a numeric overflow.
pub open spec fn apply_action_v(c: CtxV, a: ActionV) -> Option<CtxV> {
    match a {
        ActionV::Tag(k, v) => Some(
            CtxV {
                tags: c.tags.push(k + ":"@ + v),
                emits: c.emits,
                deferred: c.deferred,
                scores: c.scores,
            },
        ),
        ActionV::Emit(e) => Some(
            CtxV {
                tags: c.tags,
                emits: c.emits.push(e),
                deferred: c.deferred,
                scores: c.scores,
            },
        ),
        ActionV::RunDeferred(h) => Some(
            CtxV {
                tags: c.tags,
                emits: c.emits,
                deferred: c.deferred.push(h),
                scores: c.scores,
            },
        ),
        ActionV::Score(k, op, v) => apply_score_v(c, k, op, v),
    }
}

/// Applies a clause's actions in order.
pub open spec fn apply_actions_v(c: CtxV, acts: Seq<ActionV>) -> Option<CtxV>
    decreases acts.len(),
{
    if acts.len() == 0 {
        Some(c)
    } else {
        match apply_action_v(c, acts[0]) {
            Some(c2) => apply_actions_v(c2, acts.skip(1)),
            None => None,
        }
    }
}

/// The boolean computed for the named signal, walking the evaluated
/// signals and their results in parallel.
pub open spec fn signal_result(
    signals: Seq<SignalEval>,
    results: Seq<bool>,
    family: Seq<char>,
    name: Seq<char>,
) -> Option<bool>
    decreases signals.len(),
{
    if signals.len() == 0 || results.len() == 0 {
        None
    } else if signals[0].family@ == family && signals[0].name@ == name {
        Some(results[0])
    } else {
        signal_result(signals.skip(1), results.skip(1), family, name)
    }
}

/// Walks the clinch clauses in source declaration order: a clause whose
/// signal evaluated true applies its actions, in order, to the context.
pub open spec fn apply_clauses_v(
    c: CtxV,
    clauses: Seq<(SignalId, Vec<ClinchAction>)>,
    signals: Seq<SignalEval>,
    results: Seq<bool>,
) -> Result<CtxV, RuntimeError>
    decreases clauses.len(),
{
    if clauses.len() == 0 {
        Ok(c)
    } else {
        match signal_result(signals, results, clauses[0].0.family@, clauses[0].0.name@) {
            None => Err(RuntimeError::UnknownSignal),
            Some(false) => apply_clauses_v(c, clauses.skip(1), signals, results),
            Some(true) => match apply_actions_v(c, actions_view(clauses[0].1@)) {
                Some(c2) => apply_clauses_v(c2, clauses.skip(1), signals, results),
                None => Err(RuntimeError::NumericOverflow),
            },
        }
    }
}

/// Evaluates each signal's predicate against its bound step result.
pub open spec fn spec_eval_signals(
    signals: Seq<SignalEval>,
    bindings: Seq<(String, Value)>,
) -> Result<Seq<bool>, RuntimeError>
    decreases signals.len(),
{
    if signals.len() == 0 {
        Ok(Seq::empty())
    } else {
        match lookup_by_name(bindings, signals[0].binding@) {
            None => Err(RuntimeError::UnknownBinding),
            Some(v) => match spec_eval_pred(signals[0].when, signals[0].binding@, v) {
                Err(e) => Err(e),
                Ok(b) => match spec_eval_signals(signals.skip(1), bindings) {
                    Err(e) => Err(e),
                    Ok(r) => Ok(seq![b] + r),
                },
            },
        }
    }
}

/// What one run computes from the bound step outputs: the signal
/// booleans, then the clause walk over the fresh context.
pub open spec fn spec_run_pure(plan: ExecutablePlan, bindings: Seq<(String, Value)>) -> Result<
    CtxV,
    RuntimeError,
> {
    match spec_eval_signals(plan.signals@, bindings) {
        Err(e) => Err(e),
        Ok(results) => apply_clauses_v(empty_ctx(), plan.clinch.clauses@, plan.signals@, results),
    }
}

/// Pairwise-distinct score keys.
pub open spec fn score_keys_unique(s: Seq<(Seq<char>, Num)>) -> bool {
    forall|i: int, j: int| 0 <= i < j < s.len() ==> s[i].0 != s[j].0
}

/// Setting a score keeps the keys unique, and introduces no key but the
/// one set.
proof fn lemma_set_score_unique(s: Seq<(Seq<char>, Num)>, k: Seq<char>, v: Num)
    requires
        score_keys_unique(s),
    ensures
        score_keys_unique(set_score_v(s, k, v)),
        forall|m: int|
            0 <= m < set_score_v(s, k, v).len() ==> (#[trigger] set_score_v(s, k, v)[m].0) == k
                || exists|i: int| 0 <= i < s.len() && (#[trigger] s[i].0) == set_score_v(s, k, v)[m].0,
    decreases s.len(),
{
    if s.len() == 0 {
    } else if s[0].0 == k {
        assert(forall|j: int| 1 <= j < s.len() ==> (#[trigger] s[j]).0 != k);
        assert(forall|m: int|
            0 <= m < set_score_v(s, k, v).len() ==> set_score_v(s, k, v)[m] == (seq![(k, v)]
                + s.skip(1))[m]);
        assert(forall|m: int| 1 <= m < s.len() ==> (seq![(k, v)] + s.skip(1))[m] == s[m]);
    } else {
        assert(forall|i: int, j: int|
            0 <= i < j < s.skip(1).len() ==> s.skip(1)[i] == s[i + 1] && s.skip(1)[j] == s[j + 1]);
        lemma_set_score_unique(s.skip(1), k, v);
        let t = set_score_v(s.skip(1), k, v);
        assert(forall|m: int|
            0 <= m < set_score_v(s, k, v).len() ==> set_score_v(s, k, v)[m] == (seq![s[0]] + t)[m]);
        assert(forall|j: int| 0 <= j < s.skip(1).len() ==> (#[trigger] s.skip(1)[j].0) != s[0].0);
        assert(forall|m: int| 1 <= m < (seq![s[0]] + t).len() ==> (seq![s[0]] + t)[m] == t[m - 1]);
        assert forall|m: int| 1 <= m < (seq![s[0]] + t).len() implies (seq![s[0]] + t)[m].0
            != s[0].0 by {
            if t[m - 1].0 == k {
            } else {
                let i = choose|i: int|
                    0 <= i < s.skip(1).len() && (#[trigger] s.skip(1)[i].0) == t[m - 1].0;
                assert(s.skip(1)[i].0 != s[0].0);
            }
        }
    }
}

/// One applied action keeps the score keys unique.
proof fn lemma_apply_action_unique(c: CtxV, a: ActionV)
    requires
        score_keys_unique(c.scores),
        apply_action_v(c, a) is Some,
    ensures
        score_keys_unique(apply_action_v(c, a)->0.scores),
{
    match a {
        ActionV::Score(k, op, v) => {
            let cur = match lookup_score_v(c.scores, k) {
                Some(n) => n,
                None => Num { mant: 0, scale: 0 },
            };
            let newv = match op {
                ScoreOp::Add => spec_num_add_sub(cur, v, false),
                ScoreOp::Sub => spec_num_add_sub(cur, v, true),
                ScoreOp::Mul => spec_num_mul(cur, v),
                ScoreOp::Assign => Some(v),
            };
            lemma_set_score_unique(c.scores, k, newv->0);
        },
        _ => {},
    }
}

/// A clause's applied actions keep the score keys unique.
proof fn lemma_apply_actions_unique(c: CtxV, acts: Seq<ActionV>)
    requires
        score_keys_unique(c.scores),
        apply_actions_v(c, acts) is Some,
    ensures
        score_keys_unique(apply_actions_v(c, acts)->0.scores),
    decreases acts.len(),
{
    if acts.len() > 0 {
        lemma_apply_action_unique(c, acts[0]);
        lemma_apply_actions_unique(apply_action_v(c, acts[0])->0, acts.skip(1));
    }
}

/// The clause walk keeps the score keys unique.
pub proof fn lemma_apply_clauses_unique(
    c: CtxV,
    clauses: Seq<(SignalId, Vec<ClinchAction>)>,
    signals: Seq<SignalEval>,
    results: Seq<bool>,
)
    requires
        score_keys_unique(c.scores),
        apply_clauses_v(c, clauses, signals, results) is Ok,
    ensures
        score_keys_unique(apply_clauses_v(c, clauses, signals, results)->Ok_0.scores),
    decreases clauses.len(),
{
    if clauses.len() > 0 {
        match signal_result(signals, results, clauses[0].0.family@, clauses[0].0.name@) {
            None => {},
            Some(false) => {
                lemma_apply_clauses_unique(c, clauses.skip(1), signals, results);
            },
            Some(true) => {
                lemma_apply_actions_unique(c, actions_view(clauses[0].1@));
                lemma_apply_clauses_unique(
                    apply_actions_v(c, actions_view(clauses[0].1@))->0,
                    clauses.skip(1),
                    signals,
                    results,
                );
            },
        }
    }
}

/// The pluggable operation registry: maps a step function name to a
/// computation over the artifact, yielding a structured result record.
/// Registered functions must be synchronous and must not touch the
/// execution context.
pub trait OperationRegistry {
    fn invoke(&self, fn_name: &str, artifact: &Artifact) -> Result<Value, RuntimeError>;
}

/// Replacing the first binding of a key, found at `idx`, is exactly
/// `set_score_v`.
proof fn lemma_set_score_at(s: Seq<(Seq<char>, Num)>, k: Seq<char>, v: Num, idx: int)
    requires
        0 <= idx < s.len(),
        s[idx].0 == k,
        forall|m: int| 0 <= m < idx ==> (#[trigger] s[m]).0 != k,
    ensures
        set_score_v(s, k, v) =~= s.update(idx, (k, v)),
    decreases idx,
{
    if idx == 0 {
        assert(set_score_v(s, k, v) == seq![(k, v)] + s.skip(1));
        assert(seq![(k, v)] + s.skip(1) =~= s.update(0, (k, v)));
    } else {
        assert(s[0].0 != k);
        assert(forall|m: int| 0 <= m < idx - 1 ==> (#[trigger] s.skip(1)[m]).0 == s[m + 1].0);
        lemma_set_score_at(s.skip(1), k, v, idx - 1);
        assert(set_score_v(s, k, v) == seq![s[0]] + set_score_v(s.skip(1), k, v));
        assert(seq![s[0]] + s.skip(1).update(idx - 1, (k, v)) =~= s.update(idx, (k, v)));
    }
}

/// Appending a new key is exactly `set_score_v` when the key is absent.
proof fn lemma_set_score_absent(s: Seq<(Seq<char>, Num)>, k: Seq<char>, v: Num)
    requires
        forall|m: int| 0 <= m < s.len() ==> (#[trigger] s[m]).0 != k,
    ensures
        set_score_v(s, k, v) =~= s.push((k, v)),
    decreases s.len(),
{
    if s.len() > 0 {
        assert(forall|m: int|
            0 <= m < s.skip(1).len() ==> (#[trigger] s.skip(1)[m]).0 == s[m + 1].0);
        lemma_set_score_absent(s.skip(1), k, v);
        assert(seq![s[0]] + s.skip(1).push((k, v)) =~= s.push((k, v)));
    }
}

/// Applies one action to the context; an overflowing score leaves the
/// context untouched and aborts.
#[verifier::loop_isolation(false)]
fn apply_action(ctx: &mut LuciusContext, action: &ClinchAction) -> (r: Result<(), RuntimeError>)
    ensures
        match r {
            Ok(()) => apply_action_v(ctx_view(*old(ctx)), action_view(*action)) == Some(
                ctx_view(*final(ctx)),
            ),
            Err(e) => apply_action_v(ctx_view(*old(ctx)), action_view(*action)) is None && e
                == RuntimeError::NumericOverflow && *final(ctx) == *old(ctx),
        },
{
    match action {
        ClinchAction::Tag { key, value } => {
            let t1 = str_concat(key.as_str(), ":");
            let t2 = t1.concat(value.as_str());
            ctx.tags.push(t2);
            proof {
                assert(ctx_view(*final(ctx)).tags =~= ctx_view(*old(ctx)).tags.push(
                    key@ + ":"@ + value@,
                ));
                assert(ctx_view(*final(ctx)) == apply_action_v(
                    ctx_view(*old(ctx)),
                    action_view(*action),
                )->0);
            }
            Ok(())
        },
        ClinchAction::Emit { event } => {
            ctx.emits.push(event.clone());
            proof {
                assert(ctx_view(*final(ctx)).emits =~= ctx_view(*old(ctx)).emits.push(event@));
                assert(ctx_view(*final(ctx)) == apply_action_v(
                    ctx_view(*old(ctx)),
                    action_view(*action),
                )->0);
            }
            Ok(())
        },
        ClinchAction::RunDeferred { handler } => {
            ctx.deferred.push(handler.clone());
            proof {
                assert(ctx_view(*final(ctx)).deferred =~= ctx_view(*old(ctx)).deferred.push(
                    handler@,
                ));
                assert(ctx_view(*final(ctx)) == apply_action_v(
                    ctx_view(*old(ctx)),
                    action_view(*action),
                )->0);
            }
            Ok(())
        },
        ClinchAction::Score { key, operator, value } => {
            if value.scale > MAX_SCALE {
                return Err(RuntimeError::NumericOverflow);
            }
            let ghost scores0 = ctx_view(*old(ctx)).scores;
            let mut idx: usize = 0;
            let mut found = false;
            proof {
                assert(scores0.skip(0) =~= scores0);
            }
            while idx < ctx.scores.len()
                invariant
                    idx <= ctx.scores@.len(),
                    scores0 == ctx_view(*ctx).scores,
                    *ctx == *old(ctx),
                    !found ==> lookup_score_v(scores0, key@) == lookup_score_v(
                        scores0.skip(idx as int),
                        key@,
                    ),
                    !found ==> forall|m: int| 0 <= m < idx ==> (#[trigger] scores0[m]).0 != key@,
                    found ==> idx < ctx.scores@.len() && scores0[idx as int].0 == key@ && (forall|
                        m: int,
                    |
                        0 <= m < idx ==> (#[trigger] scores0[m]).0 != key@) && lookup_score_v(
                        scores0,
                        key@,
                    ) == Some(scores0[idx as int].1),
                decreases ctx.scores@.len() - idx,
            {
                proof {
                    assert(scores0.skip(idx as int)[0] == scores0[idx as int]);
                    assert(scores0.skip(idx as int).skip(1) =~= scores0.skip(idx as int + 1));
                    assert(scores0[idx as int] == (ctx.scores@[idx as int].0@,
                    ctx.scores@[idx as int].1));
                }
                if str_eq(ctx.scores[idx].0.as_str(), key.as_str()) {
                    found = true;
                    break ;
                }
                idx += 1;
            }
            proof {
                if !found {
                    assert(scores0.skip(ctx.scores@.len() as int) =~= Seq::<(
                        Seq<char>,
                        Num,
                    )>::empty());
                }
            }
            let cur = if found {
                ctx.scores[idx].1
            } else {
                Num { mant: 0, scale: 0 }
            };
            if cur.scale > MAX_SCALE {
                return Err(RuntimeError::NumericOverflow);
            }
            let newv: Option<Num> = match operator {
                ScoreOp::Add => num_add_sub(cur, *value, false),
                ScoreOp::Sub => num_add_sub(cur, *value, true),
                ScoreOp::Mul => num_mul(cur, *value),
                ScoreOp::Assign => Some(*value),
            };
            let n = match newv {
                Some(n) => n,
                None => {
                    return Err(RuntimeError::NumericOverflow);
                },
            };
            if found {
                let entry = ctx.scores.remove(idx);
                ctx.scores.insert(idx, (entry.0, n));
                proof {
                    lemma_set_score_at(scores0, key@, n, idx as int);
                    assert(ctx_view(*final(ctx)).scores =~= scores0.update(idx as int, (key@, n)));
                }
            } else {
                ctx.scores.push((key.clone(), n));
                proof {
                    lemma_set_score_absent(scores0, key@, n);
                    assert(ctx_view(*final(ctx)).scores =~= scores0.push((key@, n)));
                }
            }
            proof {
                assert(ctx_view(*final(ctx)).tags =~= ctx_view(*old(ctx)).tags);
                assert(ctx_view(*final(ctx)).emits =~= ctx_view(*old(ctx)).emits);
                assert(ctx_view(*final(ctx)).deferred =~= ctx_view(*old(ctx)).deferred);
                assert(ctx_view(*final(ctx)) == apply_action_v(
                    ctx_view(*old(ctx)),
                    action_view(*action),
                )->0);
            }
            Ok(())
        },
    }
}

/// Applies a clause's actions left to right; the first overflow aborts.
#[verifier::loop_isolation(false)]
fn apply_clause_actions(ctx: &mut LuciusContext, actions: &Vec<ClinchAction>) -> (r: Result<
    (),
    RuntimeError,
>)
    ensures
        match r {
            Ok(()) => apply_actions_v(ctx_view(*old(ctx)), actions_view(actions@)) == Some(
                ctx_view(*final(ctx)),
            ),
            Err(e) => apply_actions_v(ctx_view(*old(ctx)), actions_view(actions@)) is None && e
                == RuntimeError::NumericOverflow,
        },
{
    let ghost acts = actions_view(actions@);
    let mut t: usize = 0;
    proof {
        assert(acts.skip(0) =~= acts);
    }
    while t < actions.len()
        invariant
            t <= actions@.len(),
            apply_actions_v(ctx_view(*old(ctx)), acts) == apply_actions_v(
                ctx_view(*ctx),
                acts.skip(t as int),
            ),
        decreases actions@.len() - t,
    {
        proof {
            assert(acts.skip(t as int)[0] == acts[t as int]);
            assert(acts[t as int] == action_view(actions@[t as int]));
            assert(acts.skip(t as int).skip(1) =~= acts.skip(t as int + 1));
        }
        match apply_action(ctx, &actions[t]) {
            Ok(()) => (),
            Err(e) => {
                return Err(e);
            },
        }
        t += 1;
    }
    proof {
        assert(acts.skip(actions@.len() as int) =~= Seq::<ActionV>::empty());
    }
    Ok(())
}

/// Looks the named signal's boolean up among the evaluated signals.
#[verifier::loop_isolation(false)]
fn find_signal_result(
    signals: &Vec<SignalEval>,
    results: &Vec<bool>,
    family: &str,
    name: &str,
) -> (r: Option<bool>)
    requires
        signals@.len() == results@.len(),
    ensures
        r == signal_result(signals@, results@, family@, name@),
{
    let mut i: usize = 0;
    proof {
        assert(signals@.skip(0) =~= signals@);
        assert(results@.skip(0) =~= results@);
    }
    while i < signals.len()
        invariant
            i <= signals@.len(),
            signal_result(signals@, results@, family@, name@) == signal_result(
                signals@.skip(i as int),
                results@.skip(i as int),
                family@,
                name@,
            ),
        decreases signals@.len() - i,
    {
        proof {
            assert(signals@.skip(i as int)[0] == signals@[i as int]);
            assert(results@.skip(i as int)[0] == results@[i as int]);
            assert(signals@.skip(i as int).skip(1) =~= signals@.skip(i as int + 1));
            assert(results@.skip(i as int).skip(1) =~= results@.skip(i as int + 1));
        }
        if str_eq(signals[i].family.as_str(), family) && str_eq(signals[i].name.as_str(), name) {
            return Some(results[i]);
        }
        i += 1;
    }
    None
}

/// Walks the clinch clauses in declaration order against a fresh
/// context.
#[verifier::loop_isolation(false)]
pub fn apply_clinch(plan: &ExecutablePlan, results: &Vec<bool>) -> (r: Result<
    LuciusContext,
    RuntimeError,
>)
    requires
        results@.len() == plan.signals@.len(),
    ensures
        match r {
            Ok(ctx) => apply_clauses_v(
                empty_ctx(),
                plan.clinch.clauses@,
                plan.signals@,
                results@,
            ) == Ok::<CtxV, RuntimeError>(ctx_view(ctx)) && ctx.wf(),
            Err(e) => apply_clauses_v(empty_ctx(), plan.clinch.clauses@, plan.signals@, results@)
                == Err::<CtxV, RuntimeError>(e),
        },
{
    let mut ctx = LuciusContext::new();
    proof {
        assert(ctx_view(ctx).tags =~= empty_ctx().tags);
        assert(ctx_view(ctx).emits =~= empty_ctx().emits);
        assert(ctx_view(ctx).deferred =~= empty_ctx().deferred);
        assert(ctx_view(ctx).scores =~= empty_ctx().scores);
        assert(plan.clinch.clauses@.skip(0) =~= plan.clinch.clauses@);
    }
    let mut c: usize = 0;
    while c < plan.clinch.clauses.len()
        invariant
            c <= plan.clinch.clauses@.len(),
            apply_clauses_v(empty_ctx(), plan.clinch.clauses@, plan.signals@, results@)
                == apply_clauses_v(
                ctx_view(ctx),
                plan.clinch.clauses@.skip(c as int),
                plan.signals@,
                results@,
            ),
        decreases plan.clinch.clauses@.len() - c,
    {
        proof {
            assert(plan.clinch.clauses@.skip(c as int)[0] == plan.clinch.clauses@[c as int]);
            assert(plan.clinch.clauses@.skip(c as int).skip(1) =~= plan.clinch.clauses@.skip(
                c as int + 1,
            ));
        }
        let clause = &plan.clinch.clauses[c];
        let fired = match find_signal_result(
            &plan.signals,
            results,
            clause.0.family.as_str(),
            clause.0.name.as_str(),
        ) {
            Some(b) => b,
            None => {
                return Err(RuntimeError::UnknownSignal);
            },
        };
        if fired {
            match apply_clause_actions(&mut ctx, &clause.1) {
                Ok(()) => (),
                Err(e) => {
                    return Err(e);
                },
            }
        }
        c += 1;
    }
    proof {
        assert(plan.clinch.clauses@.skip(plan.clinch.clauses@.len() as int) =~= Seq::<(
            SignalId,
            Vec<ClinchAction>,
        )>::empty());
        lemma_apply_clauses_unique(empty_ctx(), plan.clinch.clauses@, plan.signals@, results@);
        assert(score_keys_unique(ctx_view(ctx).scores));
        assert forall|i: int, j: int| 0 <= i < j < ctx.scores@.len() implies ctx.scores@[i].0@
            != ctx.scores@[j].0@ by {
            assert(ctx_view(ctx).scores[i].0 == ctx.scores@[i].0@);
            assert(ctx_view(ctx).scores[j].0 == ctx.scores@[j].0@);
        }
    }
    Ok(ctx)
}

/// Joins already-computed booleans with the evaluation of the rest.
pub open spec fn res_concat(acc: Seq<bool>, rest: Result<Seq<bool>, RuntimeError>) -> Result<
    Seq<bool>,
    RuntimeError,
> {
    match rest {
        Ok(r) => Ok(acc + r),
        Err(e) => Err(e),
    }
}

/// Evaluates every signal's compiled predicate against the record bound
/// to its binding name.
#[verifier::loop_isolation(false)]
pub fn evaluate_signals(plan: &ExecutablePlan, bindings: &Vec<(String, Value)>) -> (r: Result<
    Vec<bool>,
    RuntimeError,
>)
    ensures
        match r {
            Ok(v) => spec_eval_signals(plan.signals@, bindings@) == Ok::<Seq<bool>, RuntimeError>(
                v@,
            ),
            Err(e) => spec_eval_signals(plan.signals@, bindings@) == Err::<Seq<bool>, RuntimeError>(
                e,
            ),
        },
{
    let mut out: Vec<bool> = Vec::new();
    let mut j: usize = 0;
    proof {
        assert(plan.signals@.skip(0) =~= plan.signals@);
        assert(res_concat(out@, spec_eval_signals(plan.signals@, bindings@)) == spec_eval_signals(
            plan.signals@,
            bindings@,
        )) by {
            match spec_eval_signals(plan.signals@, bindings@) {
                Ok(r) => {
                    assert(out@ + r =~= r);
                },
                Err(_) => {},
            }
        }
    }
    while j < plan.signals.len()
        invariant
            j <= plan.signals@.len(),
            out@.len() == j,
            spec_eval_signals(plan.signals@, bindings@) == res_concat(
                out@,
                spec_eval_signals(plan.signals@.skip(j as int), bindings@),
            ),
        decreases plan.signals@.len() - j,
    {
        proof {
            assert(plan.signals@.skip(j as int)[0] == plan.signals@[j as int]);
            assert(plan.signals@.skip(j as int).skip(1) =~= plan.signals@.skip(j as int + 1));
        }
        let sig = &plan.signals[j];
        let value = match crate::index::common::find_by_name(bindings, sig.binding.as_str()) {
            Some(v) => v,
            None => {
                return Err(RuntimeError::UnknownBinding);
            },
        };
        let b = match eval_pred(&sig.when, sig.binding.as_str(), value) {
            Ok(b) => b,
            Err(e) => {
                return Err(e);
            },
        };
        let ghost acc0 = out@;
        out.push(b);
        proof {
            match spec_eval_signals(plan.signals@.skip(j as int + 1), bindings@) {
                Ok(r) => {
                    assert(acc0 + (seq![b] + r) =~= acc0.push(b) + r);
                },
                Err(_) => {},
            }
        }
        j += 1;
    }
    proof {
        assert(plan.signals@.skip(plan.signals@.len() as int) =~= Seq::<SignalEval>::empty());
        match spec_eval_signals(plan.signals@, bindings@) {
            Ok(r) => {
                assert(out@ + Seq::<bool>::empty() =~= out@);
            },
            Err(_) => {},
        }
    }
    Ok(out)
}

/// Invokes every step's registered operation function against the
/// artifact, binding each result under the step's output binding name.
#[verifier::loop_isolation(false)]
pub fn execute_steps<R: OperationRegistry>(
    plan: &ExecutablePlan,
    artifact: &Artifact,
    registry: &R,
) -> (r: Result<Vec<(String, Value)>, RuntimeError>)
    ensures
        r matches Ok(b) ==> b@.len() == plan.steps@.len() && forall|k: int|
            0 <= k < b@.len() ==> (#[trigger] b@[k].0@) == plan.steps@[k].binding@,
        r matches Ok(b) ==> (crate::lowering::plan_bindings_unique(*plan)
            ==> crate::index::common::keys_unique(b@)),
{
    let mut bindings: Vec<(String, Value)> = Vec::new();
    let mut k: usize = 0;
    while k < plan.steps.len()
        invariant
            k <= plan.steps@.len(),
            bindings@.len() == k,
            forall|m: int|
                0 <= m < k ==> (#[trigger] bindings@[m].0@) == plan.steps@[m].binding@,
        decreases plan.steps@.len() - k,
    {
        let step = &plan.steps[k];
        let value = match registry.invoke(step.luop_fn.as_str(), artifact) {
            Ok(v) => v,
            Err(e) => {
                return Err(e);
            },
        };
        bindings.push((step.binding.clone(), value));
        k += 1;
    }
    Ok(bindings)
}

/// Evaluates signals and walks the clinch clauses over already-computed
/// step outputs: the pure core of one run.
pub fn run_with_outputs(plan: &ExecutablePlan, bindings: &Vec<(String, Value)>) -> (r: Result<
    LuciusContext,
    RuntimeError,
>)
    ensures
        match r {
            Ok(ctx) => spec_run_pure(*plan, bindings@) == Ok::<CtxV, RuntimeError>(ctx_view(ctx))
                && ctx.wf(),
            Err(e) => spec_run_pure(*plan, bindings@) == Err::<CtxV, RuntimeError>(e),
        },
{
    let results = match evaluate_signals(plan, bindings) {
        Ok(v) => v,
        Err(e) => {
            return Err(e);
        },
    };
    proof {
        match spec_eval_signals(plan.signals@, bindings@) {
            Ok(r) => {
                assert(results@.len() == r.len());
                assert(r.len() == plan.signals@.len()) by {
                    lemma_eval_signals_len(plan.signals@, bindings@);
                }
            },
            Err(_) => {},
        }
    }
    apply_clinch(plan, &results)
}

/// A successful signal evaluation yields one boolean per signal.
proof fn lemma_eval_signals_len(signals: Seq<SignalEval>, bindings: Seq<(String, Value)>)
    ensures
        spec_eval_signals(signals, bindings) matches Ok(r) ==> r.len() == signals.len(),
    decreases signals.len(),
{
    if signals.len() > 0 {
        lemma_eval_signals_len(signals.skip(1), bindings);
    }
}

/// Runs a compiled plan against one artifact: invokes every step,
/// evaluates every signal, walks the clinch clauses in declaration
/// order, and returns the populated context — or aborts with no context
/// at the first failure, leaving no partial mutation observable.
pub fn run<R: OperationRegistry>(
    plan: &ExecutablePlan,
    artifact: &Artifact,
    registry: &R,
) -> (r: Result<LuciusContext, RuntimeError>)
    ensures
        r matches Ok(ctx) ==> ctx.wf() && exists|b: Seq<(String, Value)>|
            #[trigger] spec_run_pure(*plan, b) == Ok::<CtxV, RuntimeError>(ctx_view(ctx))
                && b.len() == plan.steps@.len(),
{
    let bindings = match execute_steps(plan, artifact, registry) {
        Ok(b) => b,
        Err(e) => {
            return Err(e);
        },
    };
    let r = run_with_outputs(plan, &bindings);
    proof {
        match &r {
            Ok(ctx) => {
                assert(spec_run_pure(*plan, bindings@) == Ok::<CtxV, RuntimeError>(ctx_view(*ctx)));
            },
            Err(_) => {},
        }
    }
    r
}

} // verus!
