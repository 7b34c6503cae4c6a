//! Validation of the `signals` block against the operation index:
//! namespaces, non-empty families and predicates, and referential
//! integrity of every `derive from` and every `when` binding.

use vstd::prelude::*;

use crate::error::CompileError;
use crate::error::CompileErrorKind;
use crate::index::common::lookup_by_name;
use crate::index::operations::OperationIndex;
use crate::index::operations::OperationInfo;
use crate::parse::pipeline::PipelineAst;
use crate::parse::signals::SignalDef;
use crate::parse::signals::SignalFamily;
use crate::parse::signals::SignalsBlock;
use crate::strutil::str_eq;
use crate::token::Tok;
use crate::token::flatten_to_vec;
use crate::token::spec_flatten_trees;
use crate::validate::core_validate::names_unique;
use crate::validate::core_validate::tok_ident;
use crate::validate::core_validate::validate_unique_names;

verus! {

/// Every identifier used before a `.` member access in a predicate must
/// be the derived step's output binding.
pub open spec fn when_refs_ok(toks: Seq<Tok>, binding: Seq<char>) -> bool {
    forall|i: int|
        0 <= i && i + 1 < toks.len() ==> ((#[trigger] toks[i]) is Ident && (toks[i + 1]
            matches Tok::Punct('.')) ==> tok_ident(toks[i]) == binding)
}

/// One signal's rules against the operation index: a non-empty `when`,
/// a derivation that resolves to an existing operation and step whose
/// binding is non-empty, and predicate references confined to that
/// binding.
pub open spec fn signal_valid(sig: SignalDef, ops: Seq<(String, OperationInfo)>) -> bool {
    &&& spec_flatten_trees(sig.body.when@).len() > 0
    &&& (lookup_by_name(ops, sig.body.derive_from.operation@) matches Some(op) && (lookup_by_name(
        op.steps@,
        sig.body.derive_from.step@,
    ) matches Some(st) && st.binding@.len() > 0 && when_refs_ok(
        spec_flatten_trees(sig.body.when@),
        st.binding@,
    )))
}

/// One family's rules: at least one signal, unique signal names, every
/// signal valid.
pub open spec fn family_valid(fam: SignalFamily, ops: Seq<(String, OperationInfo)>) -> bool {
    &&& fam.signals@.len() > 0
    &&& names_unique(fam.signals@.map_values(|s: SignalDef| s.name@))
    &&& forall|i: int| 0 <= i < fam.signals@.len() ==> signal_valid(#[trigger] fam.signals@[i], ops)
}

/// The whole `signals` block's rules against the operation index.
pub open spec fn signals_valid(sb: SignalsBlock, ops: Seq<(String, OperationInfo)>) -> bool {
    &&& names_unique(sb.families@.map_values(|f: SignalFamily| f.name@))
    &&& forall|i: int| 0 <= i < sb.families@.len() ==> family_valid(#[trigger] sb.families@[i], ops)
}

/// Two step lists agree on every step name and output binding.
pub open spec fn steps_congruent(
    s1: Seq<(String, crate::index::common::StepInfo)>,
    s2: Seq<(String, crate::index::common::StepInfo)>,
) -> bool {
    &&& s1.len() == s2.len()
    &&& forall|i: int|
        0 <= i < s1.len() ==> (#[trigger] s1[i].0@) == s2[i].0@ && s1[i].1.binding@
            == s2[i].1.binding@
}

/// Two operation indices agree on every operation name and step list.
pub open spec fn ops_congruent(
    o1: Seq<(String, OperationInfo)>,
    o2: Seq<(String, OperationInfo)>,
) -> bool {
    &&& o1.len() == o2.len()
    &&& forall|k: int|
        0 <= k < o1.len() ==> (#[trigger] o1[k].0@) == o2[k].0@ && steps_congruent(
            o1[k].1.steps@,
            o2[k].1.steps@,
        )
}

/// Congruent step lists answer a step lookup the same way, with the
/// same binding.
proof fn lemma_lookup_step_congruent(
    s1: Seq<(String, crate::index::common::StepInfo)>,
    s2: Seq<(String, crate::index::common::StepInfo)>,
    name: Seq<char>,
)
    requires
        steps_congruent(s1, s2),
    ensures
        match (lookup_by_name(s1, name), lookup_by_name(s2, name)) {
            (Some(a), Some(b)) => a.binding@ == b.binding@,
            (None, None) => true,
            _ => false,
        },
    decreases s1.len(),
{
    if s1.len() > 0 {
        if s1[0].0@ != name {
            assert(steps_congruent(s1.skip(1), s2.skip(1))) by {
                assert forall|i: int| 0 <= i < s1.skip(1).len() implies (
                #[trigger] s1.skip(1)[i].0@) == s2.skip(1)[i].0@ && s1.skip(1)[i].1.binding@
                    == s2.skip(1)[i].1.binding@ by {
                    assert(s1.skip(1)[i] == s1[i + 1]);
                    assert(s2.skip(1)[i] == s2[i + 1]);
                }
            }
            lemma_lookup_step_congruent(s1.skip(1), s2.skip(1), name);
        }
    }
}

/// Congruent operation indices answer an operation lookup the same way,
/// with congruent step lists.
proof fn lemma_lookup_op_congruent(
    o1: Seq<(String, OperationInfo)>,
    o2: Seq<(String, OperationInfo)>,
    name: Seq<char>,
)
    requires
        ops_congruent(o1, o2),
    ensures
        match (lookup_by_name(o1, name), lookup_by_name(o2, name)) {
            (Some(a), Some(b)) => steps_congruent(a.steps@, b.steps@),
            (None, None) => true,
            _ => false,
        },
    decreases o1.len(),
{
    if o1.len() > 0 {
        if o1[0].0@ != name {
            assert(ops_congruent(o1.skip(1), o2.skip(1))) by {
                assert forall|k: int| 0 <= k < o1.skip(1).len() implies (
                #[trigger] o1.skip(1)[k].0@) == o2.skip(1)[k].0@ && steps_congruent(
                    o1.skip(1)[k].1.steps@,
                    o2.skip(1)[k].1.steps@,
                ) by {
                    assert(o1.skip(1)[k] == o1[k + 1]);
                    assert(o2.skip(1)[k] == o2[k + 1]);
                }
            }
            lemma_lookup_op_congruent(o1.skip(1), o2.skip(1), name);
        }
    }
}

/// Signal validity reads the operation index only through lookups and
/// bindings, so congruent indices validate every signal alike.
pub proof fn lemma_signals_valid_congruent(
    sb: SignalsBlock,
    o1: Seq<(String, OperationInfo)>,
    o2: Seq<(String, OperationInfo)>,
)
    requires
        ops_congruent(o1, o2),
    ensures
        signals_valid(sb, o1) == signals_valid(sb, o2),
{
    assert forall|i: int, j: int|
        0 <= i < sb.families@.len() && 0 <= j
            < sb.families@[i].signals@.len() implies #[trigger] signal_valid(
        sb.families@[i].signals@[j],
        o1,
    ) == signal_valid(sb.families@[i].signals@[j], o2) by {
        let sig = sb.families@[i].signals@[j];
        lemma_lookup_op_congruent(o1, o2, sig.body.derive_from.operation@);
        match (
            lookup_by_name(o1, sig.body.derive_from.operation@),
            lookup_by_name(o2, sig.body.derive_from.operation@),
        ) {
            (Some(a), Some(b)) => {
                lemma_lookup_step_congruent(a.steps@, b.steps@, sig.body.derive_from.step@);
            },
            _ => {},
        }
    }
    if signals_valid(sb, o1) != signals_valid(sb, o2) {
        assert(names_unique(sb.families@.map_values(|f: SignalFamily| f.name@)) ==> {
            ||| !signals_valid(sb, o1) && !signals_valid(sb, o2)
            ||| signals_valid(sb, o1) && signals_valid(sb, o2)
        }) by {
            if names_unique(sb.families@.map_values(|f: SignalFamily| f.name@)) {
                assert forall|i: int|
                    0 <= i < sb.families@.len() implies (family_valid(
                    #[trigger] sb.families@[i],
                    o1,
                ) == family_valid(sb.families@[i], o2)) by {
                    assert(forall|j: int|
                        0 <= j < sb.families@[i].signals@.len() ==> #[trigger] signal_valid(
                            sb.families@[i].signals@[j],
                            o1,
                        ) == signal_valid(sb.families@[i].signals@[j], o2));
                }
            }
        }
    }
}

/// Validates the `signals` block against a built operation index.
#[verifier::loop_isolation(false)]
pub fn validate_signals(ast: &PipelineAst, op_index: &OperationIndex) -> (r: Result<
    (),
    CompileError,
>)
    ensures
        r is Ok <==> (ast.signals matches Some(sb) && signals_valid(sb, op_index.index@)),
{
    let signals_block = match &ast.signals {
        Some(sb) => sb,
        None => {
            return Err(
                CompileError::new(CompileErrorKind::Parse, "", "missing `signals { ... }` block"),
            );
        },
    };
    let ghost fam_views = signals_block.families@.map_values(|f: SignalFamily| f.name@);
    let mut names: Vec<String> = Vec::new();
    let mut i: usize = 0;
    while i < signals_block.families.len()
        invariant
            i <= signals_block.families@.len(),
            names@.map_values(|s: String| s@) =~= fam_views.take(i as int),
        decreases signals_block.families@.len() - i,
    {
        names.push(signals_block.families[i].name.clone());
        proof {
            assert(names@.map_values(|s: String| s@) =~= fam_views.take(i as int + 1));
        }
        i += 1;
    }
    proof {
        assert(fam_views.take(signals_block.families@.len() as int) =~= fam_views);
    }
    match validate_unique_names(&names, "signal family") {
        Ok(()) => (),
        Err(e) => {
            return Err(e);
        },
    }
    match validate_signal_name_unique(signals_block) {
        Ok(()) => (),
        Err(e) => {
            return Err(e);
        },
    }
    match validate_family_non_empty(signals_block) {
        Ok(()) => (),
        Err(e) => {
            return Err(e);
        },
    }
    let mut f: usize = 0;
    while f < signals_block.families.len()
        invariant
            f <= signals_block.families@.len(),
            forall|a: int, b: int|
                0 <= a < f && 0 <= b < signals_block.families@[a].signals@.len() ==> signal_valid(
                    #[trigger] signals_block.families@[a].signals@[b],
                    op_index.index@,
                ),
        decreases signals_block.families@.len() - f,
    {
        let family = &signals_block.families[f];
        let mut s: usize = 0;
        while s < family.signals.len()
            invariant
                s <= family.signals@.len(),
                forall|b: int|
                    0 <= b < s ==> signal_valid(
                        #[trigger] family.signals@[b],
                        op_index.index@,
                    ),
            decreases family.signals@.len() - s,
        {
            let signal = &family.signals[s];
            match validate_single_when(signal) {
                Ok(()) => (),
                Err(e) => {
                    return Err(e);
                },
            }
            match validate_derive_from(signal, op_index) {
                Ok(()) => (),
                Err(e) => {
                    return Err(e);
                },
            }
            match validate_ops_exist(signal, op_index) {
                Ok(()) => (),
                Err(e) => {
                    return Err(e);
                },
            }
            match validate_when_references(signal, op_index) {
                Ok(()) => (),
                Err(e) => {
                    return Err(e);
                },
            }
            s += 1;
        }
        f += 1;
    }
    Ok(())
}

/// Signal names must be unique within each family.
#[verifier::loop_isolation(false)]
fn validate_signal_name_unique(signals_block: &SignalsBlock) -> (r: Result<(), CompileError>)
    ensures
        r is Ok <==> forall|i: int|
            0 <= i < signals_block.families@.len() ==> names_unique(
                (#[trigger] signals_block.families@[i]).signals@.map_values(
                    |s: SignalDef| s.name@,
                ),
            ),
{
    let mut f: usize = 0;
    while f < signals_block.families.len()
        invariant
            f <= signals_block.families@.len(),
            forall|i: int|
                0 <= i < f ==> names_unique(
                    (#[trigger] signals_block.families@[i]).signals@.map_values(
                        |s: SignalDef| s.name@,
                    ),
                ),
        decreases signals_block.families@.len() - f,
    {
        let family = &signals_block.families[f];
        let ghost sig_views = family.signals@.map_values(|s: SignalDef| s.name@);
        let mut names: Vec<String> = Vec::new();
        let mut i: usize = 0;
        while i < family.signals.len()
            invariant
                i <= family.signals@.len(),
                sig_views == family.signals@.map_values(|s: SignalDef| s.name@),
                names@.map_values(|s: String| s@) =~= sig_views.take(i as int),
            decreases family.signals@.len() - i,
        {
            names.push(family.signals[i].name.clone());
            proof {
                assert(names@.map_values(|s: String| s@) =~= sig_views.take(i as int + 1));
            }
            i += 1;
        }
        proof {
            assert(sig_views.take(family.signals@.len() as int) =~= sig_views);
        }
        match validate_unique_names(&names, "signal") {
            Ok(()) => (),
            Err(e) => {
                return Err(e);
            },
        }
        f += 1;
    }
    Ok(())
}

/// A signal's `when` condition must not be empty.
fn validate_single_when(signal: &SignalDef) -> (r: Result<(), CompileError>)
    ensures
        r is Ok <==> spec_flatten_trees(signal.body.when@).len() > 0,
        r matches Err(e) ==> e.kind == CompileErrorKind::Grammar,
{
    let toks = flatten_to_vec(&signal.body.when);
    if toks.len() == 0 {
        return Err(
            CompileError::new(
                CompileErrorKind::Grammar,
                signal.name.as_str(),
                "empty `when` condition in signal definition",
            ),
        );
    }
    Ok(())
}

/// Every family must contain at least one signal.
#[verifier::loop_isolation(false)]
fn validate_family_non_empty(signals_block: &SignalsBlock) -> (r: Result<(), CompileError>)
    ensures
        r is Ok <==> forall|i: int|
            0 <= i < signals_block.families@.len() ==> (#[trigger] signals_block.families@[i]
            ).signals@.len() > 0,
        r matches Err(e) ==> e.kind == CompileErrorKind::Grammar,
{
    let mut f: usize = 0;
    while f < signals_block.families.len()
        invariant
            f <= signals_block.families@.len(),
            forall|i: int|
                0 <= i < f ==> (#[trigger] signals_block.families@[i]).signals@.len() > 0,
        decreases signals_block.families@.len() - f,
    {
        if signals_block.families[f].signals.len() == 0 {
            return Err(
                CompileError::new(
                    CompileErrorKind::Grammar,
                    signals_block.families[f].name.as_str(),
                    "signal family must contain at least one signal",
                ),
            );
        }
        f += 1;
    }
    Ok(())
}

/// The derived operation and step must exist.
fn validate_derive_from(signal: &SignalDef, op_index: &OperationIndex) -> (r: Result<
    (),
    CompileError,
>)
    ensures
        r is Ok <==> (lookup_by_name(op_index.index@, signal.body.derive_from.operation@)
            matches Some(op) && lookup_by_name(op.steps@, signal.body.derive_from.step@) is Some),
        r matches Err(e) ==> e.kind == CompileErrorKind::Referential && (e.token@
            == signal.body.derive_from.operation@ || e.token@ == signal.body.derive_from.step@),
{
    let op = match crate::index::common::find_by_name(
        &op_index.index,
        signal.body.derive_from.operation.as_str(),
    ) {
        Some(op) => op,
        None => {
            return Err(
                CompileError::new(
                    CompileErrorKind::Referential,
                    signal.body.derive_from.operation.as_str(),
                    "operation does not exist",
                ),
            );
        },
    };
    match crate::index::common::find_by_name(&op.steps, signal.body.derive_from.step.as_str()) {
        Some(_) => Ok(()),
        None => Err(
            CompileError::new(
                CompileErrorKind::Referential,
                signal.body.derive_from.step.as_str(),
                "step does not exist on operation",
            ),
        ),
    }
}

/// The derived operation and step must exist, and the step must declare
/// a non-empty output binding.
fn validate_ops_exist(signal: &SignalDef, op_index: &OperationIndex) -> (r: Result<
    (),
    CompileError,
>)
    ensures
        r is Ok <==> (lookup_by_name(op_index.index@, signal.body.derive_from.operation@)
            matches Some(op) && (lookup_by_name(op.steps@, signal.body.derive_from.step@)
            matches Some(st) && st.binding@.len() > 0)),
        r matches Err(e) ==> e.kind == CompileErrorKind::Referential && (e.token@
            == signal.body.derive_from.operation@ || e.token@ == signal.body.derive_from.step@),
{
    let op = match crate::index::common::find_by_name(
        &op_index.index,
        signal.body.derive_from.operation.as_str(),
    ) {
        Some(op) => op,
        None => {
            return Err(
                CompileError::new(
                    CompileErrorKind::Referential,
                    signal.body.derive_from.operation.as_str(),
                    "operation does not exist",
                ),
            );
        },
    };
    let st = match crate::index::common::find_by_name(
        &op.steps,
        signal.body.derive_from.step.as_str(),
    ) {
        Some(st) => st,
        None => {
            return Err(
                CompileError::new(
                    CompileErrorKind::Referential,
                    signal.body.derive_from.step.as_str(),
                    "step does not exist on operation",
                ),
            );
        },
    };
    if st.binding.as_str().unicode_len() == 0 {
        return Err(
            CompileError::new(
                CompileErrorKind::Referential,
                signal.body.derive_from.step.as_str(),
                "derived step declares no output binding",
            ),
        );
    }
    Ok(())
}

/// Every leading identifier of a member access in the predicate must be
/// the derived step's output binding.
#[verifier::loop_isolation(false)]
fn validate_when_references(signal: &SignalDef, op_index: &OperationIndex) -> (r: Result<
    (),
    CompileError,
>)
    ensures
        r is Ok <==> (lookup_by_name(op_index.index@, signal.body.derive_from.operation@)
            matches Some(op) && (lookup_by_name(op.steps@, signal.body.derive_from.step@)
            matches Some(st) && when_refs_ok(spec_flatten_trees(signal.body.when@), st.binding@))),
        r matches Err(e) ==> e.kind == CompileErrorKind::Referential,
{
    let op = match crate::index::common::find_by_name(
        &op_index.index,
        signal.body.derive_from.operation.as_str(),
    ) {
        Some(op) => op,
        None => {
            return Err(
                CompileError::new(
                    CompileErrorKind::Referential,
                    signal.body.derive_from.operation.as_str(),
                    "derived operation does not exist",
                ),
            );
        },
    };
    let st = match crate::index::common::find_by_name(
        &op.steps,
        signal.body.derive_from.step.as_str(),
    ) {
        Some(st) => st,
        None => {
            return Err(
                CompileError::new(
                    CompileErrorKind::Referential,
                    signal.body.derive_from.step.as_str(),
                    "derived step does not exist",
                ),
            );
        },
    };
    let binding = &st.binding;
    let toks = flatten_to_vec(&signal.body.when);
    proof {
        vstd::std_specs::vec::axiom_spec_len(&toks);
    }
    let mut i: usize = 0;
    while toks.len() - i > 1
        invariant
            i <= toks@.len(),
            forall|j: int|
                0 <= j < i ==> ((#[trigger] toks@[j]) is Ident && (toks@[j + 1]
                    matches Tok::Punct('.')) ==> tok_ident(toks@[j]) == binding@),
        decreases toks@.len() - i,
    {
        let name = match &toks[i] {
            Tok::Ident(s) => Some(s),
            _ => None,
        };
        let dotted = match &toks[i + 1] {
            Tok::Punct(p) => *p == '.',
            _ => false,
        };
        match name {
            Some(s) => {
                if dotted && !str_eq(s.as_str(), binding.as_str()) {
                    return Err(
                        CompileError::new(
                            CompileErrorKind::Referential,
                            s.as_str(),
                            "unknown binding in `when`; expected the derived step's output binding",
                        ),
                    );
                }
            },
            None => (),
        }
        i += 1;
    }
    Ok(())
}

} // verus!
