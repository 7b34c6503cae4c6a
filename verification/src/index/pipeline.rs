//! The pipeline index: the three block indices together, with the
//! cross-referencing guarantees the compiler establishes.

use vstd::prelude::*;

use crate::error::CompileError;
use crate::error::CompileErrorKind;
use crate::index::clinch::ClinchIndex;
use crate::index::clinch::build_clinch_index;
use crate::index::common::StepInfo;
use crate::index::common::lookup_by_name;
use crate::index::operations::OperationIndex;
use crate::index::operations::OperationInfo;
use crate::index::operations::build_operation_index;
use crate::index::operations::steps_wf;
use crate::index::signals::SignalIndex;
use crate::index::signals::build_signal_index;
use crate::index::signals::family_wf;
use crate::parse::pipeline::PipelineAst;

verus! {

/// The compiled, immutable result of validating and indexing a
/// pipeline definition.
pub struct PipelineIndex {
    pub operation_index: OperationIndex,
    pub signal_index: SignalIndex,
    pub clinch_index: ClinchIndex,
}

/// Referential completeness of a built index: every signal's derivation
/// resolves to an existing operation and step with a non-empty output
/// binding, and every clinch clause's signal reference resolves to an
/// existing family and signal.
pub open spec fn index_refs_complete(idx: PipelineIndex) -> bool {
    &&& forall|f: int, j: int|
        0 <= f < idx.signal_index.families@.len() && 0 <= j
            < idx.signal_index.families@[f].1.signals@.len() ==> {
            let info = (#[trigger] idx.signal_index.families@[f].1.signals@[j]).1;
            lookup_by_name(idx.operation_index.index@, info.derives_from.operation@)
                matches Some(op) && (lookup_by_name(op.steps@, info.derives_from.step@)
                matches Some(st) && st.binding@.len() > 0)
        }
    &&& forall|k: int|
        0 <= k < idx.clinch_index.clauses@.len() ==> {
            let id = (#[trigger] idx.clinch_index.clauses@[k]).0;
            lookup_by_name(idx.signal_index.families@, id.family@) matches Some(fam)
                && lookup_by_name(fam.signals@, id.name@) is Some
        }
}

/// A built index is the faithful, ordered image of its definition:
/// the operation index lists the definition's operations in order with
/// exactly the scanned steps of each body; the signal index lists the
/// families and signals in order, each with its declared derivation and
/// the compiled form of its own `when` tokens; the clinch index lists
/// the clauses in declaration order, each with the parsed form of its
/// own action tokens.
pub open spec fn index_matches_definition(
    ast: crate::parse::pipeline::PipelineAst,
    idx: PipelineIndex,
) -> bool {
    &&& (ast.operations matches Some(ops) && {
        &&& idx.operation_index.index@.len() == ops.definitions@.len()
        &&& forall|k: int|
            0 <= k < idx.operation_index.index@.len() ==> (
            #[trigger] idx.operation_index.index@[k].0@) == ops.definitions@[k].name@
        &&& forall|k: int|
            0 <= k < idx.operation_index.index@.len() ==> steps_wf(
                ops.definitions@[k],
                #[trigger] idx.operation_index.index@[k].1,
            )
    })
    &&& (ast.signals matches Some(sb) && {
        &&& idx.signal_index.families@.len() == sb.families@.len()
        &&& forall|k: int|
            0 <= k < sb.families@.len() ==> (#[trigger] idx.signal_index.families@[k].0@)
                == sb.families@[k].name@
        &&& forall|k: int|
            0 <= k < sb.families@.len() ==> crate::index::signals::family_wf(
                sb.families@[k],
                #[trigger] idx.signal_index.families@[k].1,
            )
    })
    &&& (ast.clinch matches Some(cb) && {
        &&& idx.clinch_index.clauses@.len() == cb.clauses@.len()
        &&& forall|k: int|
            0 <= k < cb.clauses@.len() ==> (#[trigger] idx.clinch_index.clauses@[k].0.family@)
                == cb.clauses@[k].signal.family@ && idx.clinch_index.clauses@[k].0.name@
                == cb.clauses@[k].signal.name@
        &&& forall|k: int|
            0 <= k < cb.clauses@.len() ==> crate::index::clinch::scan_actions(
                crate::token::spec_flatten_trees(cb.clauses@[k].body.actions@),
            ) == Some(
                crate::index::clinch::actions_view(
                    (#[trigger] idx.clinch_index.clauses@[k]).1@,
                ),
            )
    })
}

/// An index witnessing that a definition passes every validation and
/// build stage: it is the definition's faithful image, and the
/// definition's blocks are valid against its own parts. Such a witness
/// exists exactly when `validate_and_index` succeeds.
pub open spec fn validated_index_witness(
    ast: crate::parse::pipeline::PipelineAst,
    idx: PipelineIndex,
) -> bool {
    &&& index_matches_definition(ast, idx)
    &&& (ast.operations matches Some(ops) && crate::validate::operations::ops_valid(ops))
    &&& (ast.signals matches Some(sb) && crate::validate::signals::signals_valid(
        sb,
        idx.operation_index.index@,
    ))
    &&& (ast.clinch matches Some(cb) && crate::validate::clinch::clinch_valid(
        cb,
        idx.signal_index.families@,
    ))
}

/// An index matching a definition certifies that the definition's
/// operation bodies are buildable.
pub proof fn lemma_matches_ops_buildable(
    ast: crate::parse::pipeline::PipelineAst,
    idx: PipelineIndex,
)
    requires
        index_matches_definition(ast, idx),
    ensures
        ast.operations matches Some(ops) && crate::index::operations::ops_buildable(ops),
{
    let ops = ast.operations->0;
    assert forall|k: int| 0 <= k < ops.definitions@.len() implies (
    crate::validate::operations::scan_steps(
        crate::token::spec_flatten_trees((#[trigger] ops.definitions@[k]).body.content@),
    ) matches Some(s2) && crate::index::operations::step_names_unique(s2)) by {
        assert(steps_wf(ops.definitions@[k], idx.operation_index.index@[k].1));
        let steps = idx.operation_index.index@[k].1.steps@;
        let pairs = crate::index::operations::steps_pairs(steps);
        assert forall|a: int, b: int| 0 <= a < b < pairs.len() implies pairs[a].0
            != pairs[b].0 by {
            assert(pairs[a].0 == steps[a].0@);
            assert(pairs[b].0 == steps[b].0@);
        }
    }
}

/// Two operation indices built from one definition are congruent.
#[verifier::rlimit(60)]
pub proof fn lemma_matched_ops_congruent(
    ops: crate::parse::operations::OperationsBlock,
    o1: Seq<(String, OperationInfo)>,
    o2: Seq<(String, OperationInfo)>,
)
    requires
        o1.len() == ops.definitions@.len(),
        o2.len() == ops.definitions@.len(),
        forall|k: int| 0 <= k < o1.len() ==> (#[trigger] o1[k].0@) == ops.definitions@[k].name@,
        forall|k: int| 0 <= k < o2.len() ==> (#[trigger] o2[k].0@) == ops.definitions@[k].name@,
        forall|k: int| 0 <= k < o1.len() ==> steps_wf(ops.definitions@[k], #[trigger] o1[k].1),
        forall|k: int| 0 <= k < o2.len() ==> steps_wf(ops.definitions@[k], #[trigger] o2[k].1),
    ensures
        crate::validate::signals::ops_congruent(o1, o2),
{
    assert forall|k: int| 0 <= k < o1.len() implies (#[trigger] o1[k].0@) == o2[k].0@
        && crate::validate::signals::steps_congruent(o1[k].1.steps@, o2[k].1.steps@) by {
        assert(o1[k].0@ == ops.definitions@[k].name@);
        assert(o2[k].0@ == ops.definitions@[k].name@);
        assert(steps_wf(ops.definitions@[k], o1[k].1));
        assert(steps_wf(ops.definitions@[k], o2[k].1));
        let p1 = crate::index::operations::steps_pairs(o1[k].1.steps@);
        let p2 = crate::index::operations::steps_pairs(o2[k].1.steps@);
        assert(crate::validate::operations::scan_steps(
            crate::token::spec_flatten_trees(ops.definitions@[k].body.content@),
        ) == Some(p1));
        assert(crate::validate::operations::scan_steps(
            crate::token::spec_flatten_trees(ops.definitions@[k].body.content@),
        ) == Some(p2));
        assert(p1 == p2);
        assert(o1[k].1.steps@.len() == p1.len());
        assert(o2[k].1.steps@.len() == p2.len());
        assert forall|i: int| 0 <= i < o1[k].1.steps@.len() implies (
        #[trigger] o1[k].1.steps@[i].0@) == o2[k].1.steps@[i].0@ && o1[k].1.steps@[i].1.binding@
            == o2[k].1.steps@[i].1.binding@ by {
            assert(p1[i] == (o1[k].1.steps@[i].0@, o1[k].1.steps@[i].1.binding@));
            assert(p2[i] == (o2[k].1.steps@[i].0@, o2[k].1.steps@[i].1.binding@));
            assert(p1[i] == p2[i]);
        }
    }
}

/// Two signal indices built from one definition are congruent.
#[verifier::rlimit(60)]
pub proof fn lemma_matched_fams_congruent(
    sb: crate::parse::signals::SignalsBlock,
    f1: Seq<(String, crate::index::signals::FamilyInfo)>,
    f2: Seq<(String, crate::index::signals::FamilyInfo)>,
)
    requires
        f1.len() == sb.families@.len(),
        f2.len() == sb.families@.len(),
        forall|k: int| 0 <= k < f1.len() ==> (#[trigger] f1[k].0@) == sb.families@[k].name@,
        forall|k: int| 0 <= k < f2.len() ==> (#[trigger] f2[k].0@) == sb.families@[k].name@,
        forall|k: int| 0 <= k < f1.len() ==> family_wf(sb.families@[k], #[trigger] f1[k].1),
        forall|k: int| 0 <= k < f2.len() ==> family_wf(sb.families@[k], #[trigger] f2[k].1),
    ensures
        crate::validate::clinch::fams_congruent(f1, f2),
{
    assert forall|k: int| 0 <= k < f1.len() implies (#[trigger] f1[k].0@) == f2[k].0@
        && crate::validate::clinch::signames_congruent(f1[k].1.signals@, f2[k].1.signals@) by {
        assert(f1[k].0@ == sb.families@[k].name@);
        assert(f2[k].0@ == sb.families@[k].name@);
        assert(family_wf(sb.families@[k], f1[k].1));
        assert(family_wf(sb.families@[k], f2[k].1));
        assert(f1[k].1.signals@.len() == sb.families@[k].signals@.len());
        assert(f2[k].1.signals@.len() == sb.families@[k].signals@.len());
        assert forall|i: int| 0 <= i < f1[k].1.signals@.len() implies (
        #[trigger] f1[k].1.signals@[i].0@) == f2[k].1.signals@[i].0@ by {
            assert(f1[k].1.signals@[i].0@ == sb.families@[k].signals@[i].name@);
            assert(f2[k].1.signals@[i].0@ == sb.families@[k].signals@[i].name@);
        }
    }
}

/// An index matching a definition certifies that the definition's
/// signals and clinch blocks are buildable.
pub proof fn lemma_matches_blocks_buildable(
    ast: crate::parse::pipeline::PipelineAst,
    idx: PipelineIndex,
)
    requires
        index_matches_definition(ast, idx),
    ensures
        ast.signals matches Some(sb) ==> (forall|i: int, j: int|
            0 <= i < sb.families@.len() && 0 <= j < sb.families@[i].signals@.len()
                ==> crate::predicate::spec_parse_predicate(
                (#[trigger] sb.families@[i].signals@[j]).body.when@,
            ) is Some),
        ast.clinch matches Some(cb) && crate::index::clinch::clinch_buildable(cb),
{
    let sb = ast.signals->0;
    assert forall|i: int, j: int|
        0 <= i < sb.families@.len() && 0 <= j
            < sb.families@[i].signals@.len() implies crate::predicate::spec_parse_predicate(
        (#[trigger] sb.families@[i].signals@[j]).body.when@,
    ) is Some by {
        assert(family_wf(sb.families@[i], idx.signal_index.families@[i].1));
        assert(crate::predicate::spec_parse_predicate(sb.families@[i].signals@[j].body.when@)
            == Some(
            crate::predicate::pred_view(idx.signal_index.families@[i].1.signals@[j].1.when),
        ));
    }
    let cb = ast.clinch->0;
    assert forall|k: int| 0 <= k < cb.clauses@.len() implies crate::index::clinch::scan_actions(
        crate::token::spec_flatten_trees((#[trigger] cb.clauses@[k]).body.actions@),
    ) is Some by {
        assert(crate::index::clinch::scan_actions(
            crate::token::spec_flatten_trees(cb.clauses@[k].body.actions@),
        ) == Some(
            crate::index::clinch::actions_view(idx.clinch_index.clauses@[k].1@),
        ));
    }
}

impl PipelineIndex {
    /// Builds the operation index of a pipeline definition; the signal
    /// and clinch indices start empty.
    pub fn from_operations(ast: &PipelineAst) -> (r: Result<PipelineIndex, CompileError>)
        ensures
            r is Err ==> !(ast.operations matches Some(ops)
                && crate::index::operations::ops_buildable(ops)),
            r matches Ok(idx) ==> {
                &&& ast.operations matches Some(ops) && {
                    &&& idx.operation_index.index@.len() == ops.definitions@.len()
                    &&& forall|k: int|
                        0 <= k < idx.operation_index.index@.len() ==> (
                        #[trigger] idx.operation_index.index@[k].0@) == ops.definitions@[k].name@
                    &&& forall|k: int|
                        0 <= k < idx.operation_index.index@.len() ==> steps_wf(
                            ops.definitions@[k],
                            #[trigger] idx.operation_index.index@[k].1,
                        )
                }
                &&& idx.signal_index.families@.len() == 0
                &&& idx.clinch_index.clauses@.len() == 0
            },
    {
        let ops = match &ast.operations {
            Some(ops) => ops,
            None => {
                return Err(
                    CompileError::new(
                        CompileErrorKind::Parse,
                        "",
                        "missing `operations` block in pipeline definition",
                    ),
                );
            },
        };
        let operation_infos = match build_operation_index(ops) {
            Ok(v) => v,
            Err(e) => {
                return Err(e);
            },
        };
        let idx = PipelineIndex {
            operation_index: OperationIndex { index: operation_infos },
            signal_index: SignalIndex::new(),
            clinch_index: ClinchIndex::new(),
        };
        proof {
            assert(idx.operation_index.index@.len() == ops.definitions@.len());
            assert(forall|k: int|
                0 <= k < idx.operation_index.index@.len() ==> (
                #[trigger] idx.operation_index.index@[k].0@) == ops.definitions@[k].name@);
            assert(forall|k: int|
                0 <= k < idx.operation_index.index@.len() ==> steps_wf(
                    ops.definitions@[k],
                    #[trigger] idx.operation_index.index@[k].1,
                ));
            assert(idx.signal_index.families@.len() == 0);
            assert(idx.clinch_index.clauses@.len() == 0);
        }
        Ok(idx)
    }

    /// Builds the signal index into this pipeline index.
    pub fn extend_with_signals(&mut self, ast: &PipelineAst) -> (r: Result<(), CompileError>)
        ensures
            r is Err ==> !(ast.signals matches Some(sb)
                && crate::index::signals::signals_buildable(sb)),
            final(self).operation_index == old(self).operation_index,
            final(self).clinch_index == old(self).clinch_index,
            r is Err ==> final(self).signal_index == old(self).signal_index,
            r is Ok ==> (ast.signals matches Some(sb) && {
                &&& final(self).signal_index.families@.len() == sb.families@.len()
                &&& crate::index::common::keys_unique(final(self).signal_index.families@)
                &&& forall|k: int|
                    0 <= k < sb.families@.len() ==> (
                    #[trigger] final(self).signal_index.families@[k].0@) == sb.families@[k].name@
                &&& forall|k: int|
                    0 <= k < sb.families@.len() ==> family_wf(
                        sb.families@[k],
                        #[trigger] final(self).signal_index.families@[k].1,
                    )
            }),
    {
        let signals_block = match &ast.signals {
            Some(sb) => sb,
            None => {
                return Err(
                    CompileError::new(
                        CompileErrorKind::Parse,
                        "",
                        "missing `signals` block in pipeline definition",
                    ),
                );
            },
        };
        let families = match build_signal_index(signals_block) {
            Ok(v) => v,
            Err(e) => {
                return Err(e);
            },
        };
        self.signal_index.families = families;
        Ok(())
    }

    /// Builds the clinch index into this pipeline index.
    pub fn extend_with_clinch(&mut self, ast: &PipelineAst) -> (r: Result<(), CompileError>)
        ensures
            r is Err ==> !(ast.clinch matches Some(cb)
                && crate::index::clinch::clinch_buildable(cb)),
            final(self).operation_index == old(self).operation_index,
            final(self).signal_index == old(self).signal_index,
            r is Err ==> final(self).clinch_index == old(self).clinch_index,
            r is Ok ==> (ast.clinch matches Some(cb) && {
                &&& final(self).clinch_index.clauses@.len() == cb.clauses@.len()
                &&& forall|k: int|
                    0 <= k < cb.clauses@.len() ==> (
                    #[trigger] final(self).clinch_index.clauses@[k].0.family@)
                        == cb.clauses@[k].signal.family@
                        && final(self).clinch_index.clauses@[k].0.name@
                        == cb.clauses@[k].signal.name@
                &&& forall|k: int|
                    0 <= k < cb.clauses@.len() ==> crate::index::clinch::scan_actions(
                        crate::token::spec_flatten_trees(cb.clauses@[k].body.actions@),
                    ) == Some(
                        crate::index::clinch::actions_view(
                            (#[trigger] final(self).clinch_index.clauses@[k]).1@,
                        ),
                    )
            }),
    {
        let clinch_block = match &ast.clinch {
            Some(cb) => cb,
            None => {
                return Err(
                    CompileError::new(
                        CompileErrorKind::Parse,
                        "",
                        "missing `clinch` block in pipeline definition",
                    ),
                );
            },
        };
        let clinch_index = match build_clinch_index(clinch_block) {
            Ok(v) => v,
            Err(e) => {
                return Err(e);
            },
        };
        self.clinch_index = clinch_index;
        Ok(())
    }

    /// Looks an operation up by name.
    pub fn get_operation<'a>(&'a self, name: &str) -> (r: Option<&'a OperationInfo>)
        ensures
            match r {
                Some(op) => lookup_by_name(self.operation_index.index@, name@) == Some(*op),
                None => lookup_by_name(self.operation_index.index@, name@) is None,
            },
    {
        crate::index::common::find_by_name(&self.operation_index.index, name)
    }

    /// Looks a step up by operation and step name.
    pub fn get_step<'a>(&'a self, op: &str, step: &str) -> (r: Option<&'a StepInfo>)
        ensures
            match r {
                Some(st) => lookup_by_name(self.operation_index.index@, op@) matches Some(o)
                    && lookup_by_name(o.steps@, step@) == Some(*st),
                None => !(lookup_by_name(self.operation_index.index@, op@) matches Some(o)
                    && lookup_by_name(o.steps@, step@) is Some),
            },
    {
        match self.get_operation(op) {
            Some(o) => crate::index::common::find_by_name(&o.steps, step),
            None => None,
        }
    }

    /// Whether an operation's step exists (and so carries a binding).
    pub fn has_binding(&self, op: &str, step: &str) -> (r: bool)
        ensures
            r == (lookup_by_name(self.operation_index.index@, op@) matches Some(o)
                && lookup_by_name(o.steps@, step@) is Some),
    {
        match self.get_step(op, step) {
            Some(_) => true,
            None => false,
        }
    }
}

} // verus!
