//! Top-level parser: the `meta`, `operations`, `signals` and `clinch`
//! blocks, each at most once, in any order.

use vstd::prelude::*;

use crate::error::CompileError;
use crate::error::CompileErrorKind;
use crate::parse::clinch::ClinchBlock;
use crate::parse::clinch::ClinchClause;
use crate::parse::clinch::clause_shape_view;
use crate::parse::clinch::sp_clauses;
use crate::parse::operations::OperationDef;
use crate::parse::operations::OperationsBlock;
use crate::parse::operations::op_shape_view;
use crate::parse::operations::sp_op_defs;
use crate::parse::signals::SignalsBlock;
use crate::parse::signals::expect_ident;
use crate::parse::signals::expect_punct;
use crate::parse::signals::families_view;
use crate::parse::signals::sp_families;
use crate::parse::signals::tree_brace_content;
use crate::parse::signals::tree_ident;
use crate::parse::signals::tree_is_brace;
use crate::parse::signals::tree_is_ident;
use crate::parse::signals::tree_is_kw;
use crate::parse::signals::tree_is_punct;
use crate::strutil::str_eq;
use crate::token::Delim;
use crate::token::Tok;
use crate::token::TokenTree;

verus! {

/// The `meta` block: parsed and carried, but not semantically checked or
/// consumed by lowering.
#[derive(Debug)]
pub struct MetaBlock {
    pub name: String,
    pub content: Vec<TokenTree>,
}

/// The parsed pipeline definition.
pub struct PipelineAst {
    pub meta: Option<MetaBlock>,
    pub operations: Option<OperationsBlock>,
    pub signals: Option<SignalsBlock>,
    pub clinch: Option<ClinchBlock>,
}

/// The blocks a pipeline definition denotes, scanned front to back
/// with the blocks collected so far: each block is a keyword and a
/// braced body, each at most once, in any order; `meta` stays raw,
/// the others parse into their block shapes.
pub open spec fn sp_pipeline(
    m: Option<Vec<TokenTree>>,
    o: Option<Seq<(Seq<char>, Vec<TokenTree>)>>,
    g: Option<Seq<(Seq<char>, Seq<(Seq<char>, (Seq<char>, Seq<char>), Seq<TokenTree>)>)>>,
    c: Option<Seq<((Seq<char>, Seq<char>), Vec<TokenTree>)>>,
    ts: Seq<TokenTree>,
) -> Option<
    (
        Option<Vec<TokenTree>>,
        Option<Seq<(Seq<char>, Vec<TokenTree>)>>,
        Option<Seq<(Seq<char>, Seq<(Seq<char>, (Seq<char>, Seq<char>), Seq<TokenTree>)>)>>,
        Option<Seq<((Seq<char>, Seq<char>), Vec<TokenTree>)>>,
    ),
>
    decreases ts.len(),
{
    if ts.len() == 0 {
        Some((m, o, g, c))
    } else if ts.len() >= 2 && tree_is_ident(ts[0]) && tree_is_brace(ts[1]) {
        let name = tree_ident(ts[0]);
        let content = tree_brace_content(ts[1]);
        if name == "meta"@ {
            if m is Some {
                None
            } else {
                sp_pipeline(Some(content), o, g, c, ts.skip(2))
            }
        } else if name == "operations"@ {
            if o is Some {
                None
            } else {
                match sp_op_defs(content@) {
                    Some(v) => sp_pipeline(m, Some(v), g, c, ts.skip(2)),
                    None => None,
                }
            }
        } else if name == "signals"@ {
            if g is Some {
                None
            } else {
                match sp_families(content@) {
                    Some(v) => sp_pipeline(m, o, Some(v), c, ts.skip(2)),
                    None => None,
                }
            }
        } else if name == "clinch"@ {
            if c is Some {
                None
            } else {
                match sp_clauses(content@) {
                    Some(v) => sp_pipeline(m, o, g, Some(v), ts.skip(2)),
                    None => None,
                }
            }
        } else {
            None
        }
    } else {
        None
    }
}

/// The block shapes a parsed definition denotes.
pub open spec fn ast_shape_view(ast: PipelineAst) -> (
    Option<Vec<TokenTree>>,
    Option<Seq<(Seq<char>, Vec<TokenTree>)>>,
    Option<Seq<(Seq<char>, Seq<(Seq<char>, (Seq<char>, Seq<char>), Seq<TokenTree>)>)>>,
    Option<Seq<((Seq<char>, Seq<char>), Vec<TokenTree>)>>,
) {
    (
        match ast.meta {
            Some(mb) => Some(mb.content),
            None => None,
        },
        match ast.operations {
            Some(b) => Some(b.definitions@.map_values(|d: OperationDef| op_shape_view(d))),
            None => None,
        },
        match ast.signals {
            Some(b) => Some(families_view(b.families@)),
            None => None,
        },
        match ast.clinch {
            Some(b) => Some(b.clauses@.map_values(|x: ClinchClause| clause_shape_view(x))),
            None => None,
        },
    )
}

impl PipelineAst {
    /// Parses a whole pipeline definition from a lexed token forest.
    #[verifier::loop_isolation(false)]
    pub fn parse(trees: Vec<TokenTree>) -> (r: Result<PipelineAst, CompileError>)
        ensures
            r is Ok <==> sp_pipeline(None, None, None, None, trees@) is Some,
            r matches Ok(ast) ==> sp_pipeline(None, None, None, None, trees@) == Some(
                ast_shape_view(ast),
            ),
            r matches Err(e) ==> e.kind == CompileErrorKind::Parse,
    {
        let ghost whole = trees@;
        let mut trees = trees;
        let mut meta: Option<MetaBlock> = None;
        let mut operations: Option<OperationsBlock> = None;
        let mut signals: Option<SignalsBlock> = None;
        let mut clinch: Option<ClinchBlock> = None;
        while trees.len() > 0
            invariant
                sp_pipeline(None, None, None, None, whole) == sp_pipeline(
                    match meta {
                        Some(mb) => Some(mb.content),
                        None => None,
                    },
                    match operations {
                        Some(b) => Some(
                            b.definitions@.map_values(|d: OperationDef| op_shape_view(d)),
                        ),
                        None => None,
                    },
                    match signals {
                        Some(b) => Some(families_view(b.families@)),
                        None => None,
                    },
                    match clinch {
                        Some(b) => Some(
                            b.clauses@.map_values(|x: ClinchClause| clause_shape_view(x)),
                        ),
                        None => None,
                    },
                    trees@,
                ),
            decreases trees@.len(),
        {
            let ghost pre = trees@;
            proof {
                if pre.len() >= 1 {
                    assert(forall|m2: int|
                        0 <= m2 < pre.len() - 1 ==> pre.skip(1)[m2] == pre[m2 + 1]);
                }
                if pre.len() >= 2 {
                    assert(pre.skip(1).skip(1) =~= pre.skip(2));
                }
            }
            let name = match trees.remove(0) {
                TokenTree::Leaf(Tok::Ident(s)) => s,
                _ => {
                    return Err(
                        CompileError::new(
                            CompileErrorKind::Parse,
                            "",
                            "expected one of: meta, operations, signals, clinch",
                        ),
                    );
                },
            };
            if trees.len() == 0 {
                return Err(
                    CompileError::new(
                        CompileErrorKind::Parse,
                        name.as_str(),
                        "expected `{ ... }` after block keyword",
                    ),
                );
            }
            let content = match trees.remove(0) {
                TokenTree::Group(Delim::Brace, content) => content,
                _ => {
                    return Err(
                        CompileError::new(
                            CompileErrorKind::Parse,
                            name.as_str(),
                            "expected `{ ... }` after block keyword",
                        ),
                    );
                },
            };
            if str_eq(name.as_str(), "meta") {
                if meta.is_some() {
                    return Err(
                        CompileError::new(CompileErrorKind::Parse, "meta", "duplicate `meta` block"),
                    );
                }
                meta = Some(MetaBlock { name, content });
            } else if str_eq(name.as_str(), "operations") {
                if operations.is_some() {
                    return Err(
                        CompileError::new(
                            CompileErrorKind::Parse,
                            "operations",
                            "duplicate `operations` block",
                        ),
                    );
                }
                match OperationsBlock::parse(content) {
                    Ok(b) => {
                        operations = Some(b);
                    },
                    Err(e) => {
                        return Err(e);
                    },
                }
            } else if str_eq(name.as_str(), "signals") {
                if signals.is_some() {
                    return Err(
                        CompileError::new(
                            CompileErrorKind::Parse,
                            "signals",
                            "duplicate `signals` block",
                        ),
                    );
                }
                match SignalsBlock::parse(content) {
                    Ok(b) => {
                        signals = Some(b);
                    },
                    Err(e) => {
                        return Err(e);
                    },
                }
            } else if str_eq(name.as_str(), "clinch") {
                if clinch.is_some() {
                    return Err(
                        CompileError::new(
                            CompileErrorKind::Parse,
                            "clinch",
                            "duplicate `clinch` block",
                        ),
                    );
                }
                match ClinchBlock::parse(content) {
                    Ok(b) => {
                        clinch = Some(b);
                    },
                    Err(e) => {
                        return Err(e);
                    },
                }
            } else {
                return Err(
                    CompileError::new(
                        CompileErrorKind::Parse,
                        name.as_str(),
                        "expected one of: meta, operations, signals, clinch",
                    ),
                );
            }
        }
        Ok(PipelineAst { meta, operations, signals, clinch })
    }
}

impl PipelineAst {
    /// Validates the three blocks in dependency order and builds the
    /// pipeline index. On success, every cross-namespace reference in
    /// the index resolves: compilation, never a run, catches a dangling
    /// derivation or signal reference.
    pub fn validate_and_index(&self) -> (r: Result<
        crate::index::pipeline::PipelineIndex,
        CompileError,
    >)
        ensures
            r matches Ok(idx) ==> crate::index::pipeline::index_refs_complete(idx),
            r matches Ok(idx) ==> crate::index::pipeline::index_matches_definition(*self, idx),
            r is Ok <==> exists|w: crate::index::pipeline::PipelineIndex|
                #[trigger] crate::index::pipeline::validated_index_witness(*self, w),
            r matches Ok(idx) ==> crate::index::common::keys_unique(
                idx.signal_index.families@,
            ) && forall|f: int|
                0 <= f < idx.signal_index.families@.len() ==> crate::index::common::keys_unique(
                    (#[trigger] idx.signal_index.families@[f]).1.signals@,
                ),
    {
        match crate::validate::operations::validate_operations(self) {
            Ok(()) => (),
            Err(e) => {
                proof {
                    assert forall|w: crate::index::pipeline::PipelineIndex| !(
                    #[trigger] crate::index::pipeline::validated_index_witness(*self, w)) by {}
                }
                return Err(e);
            },
        }
        let mut index = match crate::index::pipeline::PipelineIndex::from_operations(self) {
            Ok(i) => i,
            Err(e) => {
                proof {
                    assert forall|w: crate::index::pipeline::PipelineIndex| !(
                    #[trigger] crate::index::pipeline::validated_index_witness(*self, w)) by {
                        if crate::index::pipeline::validated_index_witness(*self, w) {
                            crate::index::pipeline::lemma_matches_ops_buildable(*self, w);
                        }
                    }
                }
                return Err(e);
            },
        };
        match crate::validate::signals::validate_signals(self, &index.operation_index) {
            Ok(()) => (),
            Err(e) => {
                proof {
                    assert forall|w: crate::index::pipeline::PipelineIndex| !(
                    #[trigger] crate::index::pipeline::validated_index_witness(*self, w)) by {
                        if crate::index::pipeline::validated_index_witness(*self, w) {
                            let ops2 = self.operations->0;
                            let sb2 = self.signals->0;
                            crate::index::pipeline::lemma_matched_ops_congruent(
                                ops2,
                                w.operation_index.index@,
                                index.operation_index.index@,
                            );
                            crate::validate::signals::lemma_signals_valid_congruent(
                                sb2,
                                w.operation_index.index@,
                                index.operation_index.index@,
                            );
                        }
                    }
                }
                return Err(e);
            },
        }
        match index.extend_with_signals(self) {
            Ok(()) => (),
            Err(e) => {
                proof {
                    assert forall|w: crate::index::pipeline::PipelineIndex| !(
                    #[trigger] crate::index::pipeline::validated_index_witness(*self, w)) by {
                        if crate::index::pipeline::validated_index_witness(*self, w) {
                            let sb2 = self.signals->0;
                            crate::index::pipeline::lemma_matches_blocks_buildable(*self, w);
                            assert(crate::index::signals::signals_buildable(sb2));
                        }
                    }
                }
                return Err(e);
            },
        }
        match crate::validate::clinch::validate_clinch(self, &index.signal_index) {
            Ok(()) => (),
            Err(e) => {
                proof {
                    assert forall|w: crate::index::pipeline::PipelineIndex| !(
                    #[trigger] crate::index::pipeline::validated_index_witness(*self, w)) by {
                        if crate::index::pipeline::validated_index_witness(*self, w) {
                            let sb2 = self.signals->0;
                            let cb2 = self.clinch->0;
                            crate::index::pipeline::lemma_matched_fams_congruent(
                                sb2,
                                w.signal_index.families@,
                                index.signal_index.families@,
                            );
                            crate::validate::clinch::lemma_clinch_valid_congruent(
                                cb2,
                                w.signal_index.families@,
                                index.signal_index.families@,
                            );
                        }
                    }
                }
                return Err(e);
            },
        }
        match index.extend_with_clinch(self) {
            Ok(()) => (),
            Err(e) => {
                proof {
                    assert forall|w: crate::index::pipeline::PipelineIndex| !(
                    #[trigger] crate::index::pipeline::validated_index_witness(*self, w)) by {
                        if crate::index::pipeline::validated_index_witness(*self, w) {
                            crate::index::pipeline::lemma_matches_blocks_buildable(*self, w);
                        }
                    }
                }
                return Err(e);
            },
        }
        proof {
            assert(crate::index::pipeline::validated_index_witness(*self, index));
        }
        Ok(index)
    }
}

/// The outermost `component = <ident> { <pipeline> }` wrapper a
/// definition source may carry.
pub struct LunchGenInput {
    pub component: String,
    pub pipeline: PipelineAst,
}

/// The four-token shape of a `component = <ident> { ... }` wrapper,
/// with nothing after the body.
pub open spec fn component_shape(ts: Seq<TokenTree>) -> bool {
    &&& ts.len() == 4
    &&& tree_is_kw(ts[0], "component"@)
    &&& tree_is_punct(ts[1], '=')
    &&& tree_is_ident(ts[2])
    &&& tree_is_brace(ts[3])
}

impl LunchGenInput {
    /// Parses `component = <ident> { ... }` from a lexed token forest.
    pub fn parse(trees: Vec<TokenTree>) -> (r: Result<LunchGenInput, CompileError>)
        ensures
            r is Ok <==> component_shape(trees@) && sp_pipeline(
                None,
                None,
                None,
                None,
                tree_brace_content(trees@[3])@,
            ) is Some,
            r matches Ok(i) ==> i.component@ == tree_ident(trees@[2]) && sp_pipeline(
                None,
                None,
                None,
                None,
                tree_brace_content(trees@[3])@,
            ) == Some(ast_shape_view(i.pipeline)),
            r matches Err(e) ==> e.kind == CompileErrorKind::Parse,
    {
        let ghost t0 = trees@;
        proof {
            if t0.len() >= 1 {
                assert(forall|m: int| 0 <= m < t0.len() - 1 ==> t0.skip(1)[m] == t0[m + 1]);
            }
            if t0.len() >= 2 {
                assert(forall|m: int| 0 <= m < t0.len() - 2 ==> t0.skip(2)[m] == t0[m + 2]);
                assert(t0.skip(1).skip(1) =~= t0.skip(2));
            }
            if t0.len() >= 3 {
                assert(forall|m: int| 0 <= m < t0.len() - 3 ==> t0.skip(3)[m] == t0[m + 3]);
                assert(t0.skip(2).skip(1) =~= t0.skip(3));
            }
            if t0.len() >= 4 {
                assert(t0.skip(3).skip(1) =~= t0.skip(4));
            }
        }
        let mut trees = trees;
        let key = match expect_ident(&mut trees, "expected `component = <ident>`") {
            Ok(s) => s,
            Err(e) => {
                return Err(e);
            },
        };
        if !str_eq(key.as_str(), "component") {
            return Err(
                CompileError::new(
                    CompileErrorKind::Parse,
                    key.as_str(),
                    "expected `component = <ident>`",
                ),
            );
        }
        match expect_punct(&mut trees, '=', "expected `=` after `component`") {
            Ok(()) => (),
            Err(e) => {
                return Err(e);
            },
        }
        let component = match expect_ident(&mut trees, "expected component name") {
            Ok(s) => s,
            Err(e) => {
                return Err(e);
            },
        };
        if trees.len() == 0 {
            return Err(
                CompileError::new(
                    CompileErrorKind::Parse,
                    component.as_str(),
                    "expected `{ ... }` after component name",
                ),
            );
        }
        let content = match trees.remove(0) {
            TokenTree::Group(Delim::Brace, content) => content,
            _ => {
                return Err(
                    CompileError::new(
                        CompileErrorKind::Parse,
                        component.as_str(),
                        "expected `{ ... }` after component name",
                    ),
                );
            },
        };
        if trees.len() > 0 {
            return Err(
                CompileError::new(
                    CompileErrorKind::Parse,
                    "",
                    "unexpected tokens after the component body",
                ),
            );
        }
        let pipeline = match PipelineAst::parse(content) {
            Ok(p) => p,
            Err(e) => {
                return Err(e);
            },
        };
        Ok(LunchGenInput { component, pipeline })
    }
}

} // verus!
