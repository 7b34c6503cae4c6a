//! The clinch index: each clause's signal reference and parsed action
//! list, in declaration order, plus the per-signal accumulation.

use vstd::prelude::*;
use vstd::string::StringExecFns;

use crate::error::CompileError;
use crate::error::CompileErrorKind;
use crate::num::Num;
use crate::num::parse_num;
use crate::num::spec_parse_num;
use crate::parse::clinch::ClinchBlock;
use crate::strutil::str_eq;
use crate::token::Tok;
use crate::token::flatten_to_vec;
use crate::token::spec_flatten_trees;
use crate::token::tok_surface;
use crate::token::tok_surface_string;
use crate::validate::core_validate::tok_is_kw;
use crate::validate::core_validate::tok_kw;
use crate::validate::operations::opt_concat;

verus! {

/// One signal, named by family and signal name.
#[derive(Debug, PartialEq, Eq, Hash)]
pub struct SignalId {
    pub family: String,
    pub name: String,
}

impl Clone for SignalId {
    fn clone(&self) -> (r: Self)
        ensures
            r == *self,
    {
        SignalId { family: self.family.clone(), name: self.name.clone() }
    }
}

/// How a score action combines its value with the key's current one.
#[derive(Clone, Copy, Debug, PartialEq, Eq, Structural)]
pub enum ScoreOp {
    Add,
    Sub,
    Mul,
    Assign,
}

/// One clinch action.
#[derive(Debug)]
pub enum ClinchAction {
    Emit { event: String },
    Tag { key: String, value: String },
    Score { key: String, operator: ScoreOp, value: Num },
    RunDeferred { handler: String },
}

impl Clone for ClinchAction {
    fn clone(&self) -> (r: Self)
        ensures
            r == *self,
    {
        match self {
            ClinchAction::Emit { event } => ClinchAction::Emit { event: event.clone() },
            ClinchAction::Tag { key, value } => ClinchAction::Tag {
                key: key.clone(),
                value: value.clone(),
            },
            ClinchAction::Score { key, operator, value } => ClinchAction::Score {
                key: key.clone(),
                operator: *operator,
                value: *value,
            },
            ClinchAction::RunDeferred { handler } => ClinchAction::RunDeferred {
                handler: handler.clone(),
            },
        }
    }
}

/// The shape of one action, over character sequences: what the contracts
/// speak of.
pub enum ActionV {
    Emit(Seq<char>),
    Tag(Seq<char>, Seq<char>),
    Score(Seq<char>, ScoreOp, Num),
    RunDeferred(Seq<char>),
}

/// The shape an action denotes.
pub open spec fn action_view(a: ClinchAction) -> ActionV {
    match a {
        ClinchAction::Emit { event } => ActionV::Emit(event@),
        ClinchAction::Tag { key, value } => ActionV::Tag(key@, value@),
        ClinchAction::Score { key, operator, value } => ActionV::Score(key@, operator, value),
        ClinchAction::RunDeferred { handler } => ActionV::RunDeferred(handler@),
    }
}

/// The shapes an action list denotes.
pub open spec fn actions_view(s: Seq<ClinchAction>) -> Seq<ActionV> {
    s.map_values(|a: ClinchAction| action_view(a))
}

/// Whether an identifier is one of the action keywords, which never
/// continue a path.
pub open spec fn path_kw(s: Seq<char>) -> bool {
    s == "run"@ || s == "emit"@ || s == "tag"@ || s == "score"@
}

/// A path scan as the action parser sees it: identifiers (other than
/// action keywords) joined by `.` or `::` separators, returning the
/// parts and the remaining tokens.
pub open spec fn scan_path(toks: Seq<Tok>) -> (Seq<Seq<char>>, Seq<Tok>)
    decreases toks.len(),
{
    if toks.len() == 0 {
        (Seq::empty(), toks)
    } else {
        match toks[0] {
            Tok::Ident(s) => {
                if !path_kw(s@) {
                    let r = scan_path(toks.skip(1));
                    (seq![s@] + r.0, r.1)
                } else {
                    (Seq::empty(), toks)
                }
            },
            Tok::Punct(c) => {
                if c == ':' && toks.len() >= 2 && (toks[1] matches Tok::Punct(':')) {
                    scan_path(toks.skip(2))
                } else if c == '.' {
                    scan_path(toks.skip(1))
                } else {
                    (Seq::empty(), toks)
                }
            },
            _ => (Seq::empty(), toks),
        }
    }
}

pub proof fn lemma_scan_path_rem(toks: Seq<Tok>)
    ensures
        scan_path(toks).1.len() <= toks.len(),
    decreases toks.len(),
{
    if toks.len() > 0 {
        match toks[0] {
            Tok::Ident(s) => {
                if !path_kw(s@) {
                    lemma_scan_path_rem(toks.skip(1));
                }
            },
            Tok::Punct(c) => {
                if c == ':' && toks.len() >= 2 && (toks[1] matches Tok::Punct(':')) {
                    lemma_scan_path_rem(toks.skip(2));
                } else if c == '.' {
                    lemma_scan_path_rem(toks.skip(1));
                }
            },
            _ => {},
        }
    }
}

/// Path parts joined with `::`.
pub open spec fn join_path(parts: Seq<Seq<char>>) -> Seq<char>
    decreases parts.len(),
{
    if parts.len() == 0 {
        Seq::empty()
    } else if parts.len() == 1 {
        parts[0]
    } else {
        parts[0] + "::"@ + join_path(parts.skip(1))
    }
}

pub proof fn lemma_join_path_snoc(parts: Seq<Seq<char>>, p: Seq<char>)
    ensures
        join_path(parts.push(p)) == if parts.len() == 0 {
            p
        } else {
            join_path(parts) + "::"@ + p
        },
    decreases parts.len(),
{
    if parts.len() == 0 {
        assert(parts.push(p)[0] == p);
        assert(join_path(parts.push(p)) == p);
    } else if parts.len() == 1 {
        assert(parts.push(p)[0] == parts[0]);
        assert(parts.push(p).skip(1) =~= seq![p]);
        assert(seq![p][0] == p);
        assert(join_path(seq![p]) == p);
        assert(join_path(parts.push(p)) == parts[0] + "::"@ + p);
        assert(join_path(parts) == parts[0]);
    } else {
        assert(parts.push(p)[0] == parts[0]);
        assert(parts.push(p).skip(1) =~= parts.skip(1).push(p));
        lemma_join_path_snoc(parts.skip(1), p);
        assert(join_path(parts.push(p)) == parts[0] + "::"@ + (join_path(parts.skip(1)) + "::"@
            + p));
        assert(parts[0] + "::"@ + (join_path(parts.skip(1)) + "::"@ + p) =~= (parts[0] + "::"@
            + join_path(parts.skip(1))) + "::"@ + p);
    }
}

/// Prepends one action shape to a scan result.
pub open spec fn opt_cons(a: ActionV, rest: Option<Seq<ActionV>>) -> Option<Seq<ActionV>> {
    match rest {
        Some(r) => Some(seq![a] + r),
        None => None,
    }
}

/// The action list a clause's tokens denote, scanned left to right, or
/// nothing when any action is malformed.
pub open spec fn scan_actions(toks: Seq<Tok>) -> Option<Seq<ActionV>>
    decreases toks.len(), 1nat,
    via scan_actions_dec
{
    if toks.len() == 0 {
        Some(Seq::empty())
    } else if tok_is_kw(toks[0], "emit"@) {
        let r = scan_path(toks.skip(1));
        if r.0.len() == 0 {
            None
        } else {
            opt_cons(ActionV::Emit(join_path(r.0)), scan_actions(r.1))
        }
    } else if tok_is_kw(toks[0], "tag"@) {
        if toks.len() >= 4 && (toks[1] matches Tok::Punct('+')) && (toks[2] matches Tok::Punct(
            '=',
        )) {
            opt_cons(ActionV::Tag("tag"@, tok_surface(toks[3])), scan_actions(toks.skip(4)))
        } else {
            None
        }
    } else if tok_is_kw(toks[0], "score"@) {
        if toks.len() >= 4 && (toks[2] matches Tok::Punct('+')) && (toks[3] matches Tok::Punct(
            '=',
        )) {
            scan_score(toks, ScoreOp::Add, 4)
        } else if toks.len() >= 4 && (toks[2] matches Tok::Punct('-')) && (toks[3]
            matches Tok::Punct('=')) {
            scan_score(toks, ScoreOp::Sub, 4)
        } else if toks.len() >= 4 && (toks[2] matches Tok::Punct('*')) && (toks[3]
            matches Tok::Punct('=')) {
            scan_score(toks, ScoreOp::Mul, 4)
        } else if toks.len() >= 3 && (toks[2] matches Tok::Punct('=')) {
            scan_score(toks, ScoreOp::Assign, 3)
        } else {
            None
        }
    } else if tok_is_kw(toks[0], "run"@) {
        if toks.len() >= 3 && tok_is_kw(toks[1], "deferred"@) {
            opt_cons(ActionV::RunDeferred(tok_surface(toks[2])), scan_actions(toks.skip(3)))
        } else {
            None
        }
    } else {
        None
    }
}

#[via_fn]
proof fn scan_actions_dec(toks: Seq<Tok>) {
    if toks.len() > 0 && tok_is_kw(toks[0], "emit"@) {
        lemma_scan_path_rem(toks.skip(1));
    }
}

/// One score action at the front of the tokens: its value literal sits
/// at `vi` and must parse as a number.
pub open spec fn scan_score(toks: Seq<Tok>, op: ScoreOp, vi: nat) -> Option<Seq<ActionV>>
    recommends
        3 <= vi <= 4,
    decreases toks.len(), 0nat,
{
    if vi + 1 > toks.len() {
        None
    } else {
        match toks[vi as int] {
            Tok::NumLit(raw) => match spec_parse_num(raw@) {
                Some(n) => opt_cons(
                    ActionV::Score(tok_surface(toks[1]), op, n),
                    scan_actions(toks.skip(vi + 1 as int)),
                ),
                None => None,
            },
            _ => None,
        }
    }
}

/// What building the clinch index requires of its block: every
/// clause's action tokens scan cleanly.
pub open spec fn clinch_buildable(cb: ClinchBlock) -> bool {
    forall|k: int|
        0 <= k < cb.clauses@.len() ==> scan_actions(
            spec_flatten_trees((#[trigger] cb.clauses@[k]).body.actions@),
        ) is Some
}

/// The clinch clauses with their parsed action lists, in source
/// declaration order: the explicit stable ordering later stages rely
/// on. Clauses on one signal accumulate through this order — the plan
/// walks them first to last, so a signal's actions apply clause by
/// clause exactly as declared.
#[derive(Debug)]
pub struct ClinchIndex {
    pub clauses: Vec<(SignalId, Vec<ClinchAction>)>,
}

impl ClinchIndex {
    pub fn new() -> (r: ClinchIndex)
        ensures
            r.clauses@.len() == 0,
    {
        ClinchIndex { clauses: Vec::new() }
    }
}

/// Parses a path starting at `start`: identifiers joined by `.` or
/// `::`, canonicalized to `::`; fails on an empty path.
#[verifier::loop_isolation(false)]
fn parse_path(toks: &Vec<Tok>, start: usize) -> (r: Result<(String, usize), CompileError>)
    requires
        start <= toks@.len(),
    ensures
        r is Ok <==> scan_path(toks@.skip(start as int)).0.len() > 0,
        r matches Ok((s, n)) ==> {
            &&& start <= n <= toks@.len()
            &&& s@ == join_path(scan_path(toks@.skip(start as int)).0)
            &&& scan_path(toks@.skip(start as int)).1 =~= toks@.skip(n as int)
        },
        r matches Err(e) ==> e.kind == CompileErrorKind::Grammar,
{
    let ghost whole = toks@;
    let mut joined = String::new();
    let ghost mut partsv: Seq<Seq<char>> = Seq::empty();
    let mut got_part = false;
    let mut j: usize = start;
    proof {
        assert(whole.skip(start as int).skip(0) =~= whole.skip(start as int));
    }
    loop
        invariant
            start <= j <= whole.len(),
            scan_path(whole.skip(start as int)).0 =~= partsv + scan_path(whole.skip(j as int)).0,
            scan_path(whole.skip(start as int)).1 == scan_path(whole.skip(j as int)).1,
            joined@ == join_path(partsv),
            got_part <==> partsv.len() > 0,
        decreases whole.len() - j,
    {
        if j >= toks.len() {
            proof {
                assert(whole.skip(j as int) =~= Seq::<Tok>::empty());
            }
            break ;
        }
        proof {
            assert(whole.skip(j as int)[0] == whole[j as int]);
            assert(whole.skip(j as int).skip(1) =~= whole.skip(j as int + 1));
        }
        match &toks[j] {
            Tok::Ident(s) => {
                if tok_kw(&toks[j], "run") || tok_kw(&toks[j], "emit") || tok_kw(&toks[j], "tag")
                    || tok_kw(&toks[j], "score") {
                    break ;
                }
                proof {
                    lemma_join_path_snoc(partsv, s@);
                    assert((partsv + (seq![s@] + scan_path(whole.skip(j as int + 1)).0)) =~= (
                    partsv.push(s@) + scan_path(whole.skip(j as int + 1)).0));
                }
                if got_part {
                    let j1 = joined.concat("::");
                    joined = j1.concat(s.as_str());
                } else {
                    joined = s.clone();
                    got_part = true;
                }
                proof {
                    partsv = partsv.push(s@);
                }
                j += 1;
            },
            Tok::Punct(p) => {
                let two = if *p == ':' && toks.len() - j >= 2 {
                    match &toks[j + 1] {
                        Tok::Punct(q) => *q == ':',
                        _ => false,
                    }
                } else {
                    false
                };
                if two {
                    proof {
                        assert(whole.skip(j as int)[1] == whole[j as int + 1]);
                        assert(whole.skip(j as int).skip(2) =~= whole.skip(j as int + 2));
                    }
                    j += 2;
                } else if *p == '.' {
                    j += 1;
                } else {
                    break ;
                }
            },
            _ => {
                break ;
            },
        }
    }
    if !got_part {
        return Err(
            CompileError::new(
                CompileErrorKind::Grammar,
                "",
                "expected a valid path (e.g. Emit::PdfMagic)",
            ),
        );
    }
    proof {
        assert(partsv + scan_path(whole.skip(j as int)).0 =~= partsv);
    }
    Ok((joined, j))
}

/// Parses a clause's action tokens into the ordered action list.
#[verifier::loop_isolation(false)]
#[verifier::rlimit(80)]
pub fn parse_clinch_actions(ts: &Vec<crate::token::TokenTree>) -> (r: Result<
    Vec<ClinchAction>,
    CompileError,
>)
    ensures
        r is Ok <==> scan_actions(spec_flatten_trees(ts@)) is Some,
        r matches Ok(v) ==> scan_actions(spec_flatten_trees(ts@)) == Some(actions_view(v@)),
{
    let toks = flatten_to_vec(ts);
    proof {
        vstd::std_specs::vec::axiom_spec_len(&toks);
    }
    let ghost whole = toks@;
    let mut actions: Vec<ClinchAction> = Vec::new();
    let mut i: usize = 0;
    proof {
        assert(whole.skip(0) =~= whole);
        assert(actions_view(actions@) =~= Seq::<ActionV>::empty());
        assert(opt_concat(actions_view(actions@), scan_actions(whole)) == scan_actions(whole)) by {
            match scan_actions(whole) {
                Some(r) => {
                    assert(actions_view(actions@) + r =~= r);
                },
                None => {},
            }
        }
    }
    while i < toks.len()
        invariant
            i <= whole.len(),
            scan_actions(whole) == opt_concat(
                actions_view(actions@),
                scan_actions(whole.skip(i as int)),
            ),
        decreases whole.len() - i,
    {
        proof {
            assert(whole.skip(i as int)[0] == whole[i as int]);
            assert(whole.skip(i as int).skip(1) =~= whole.skip(i as int + 1));
        }
        let ghost accv = actions_view(actions@);
        if tok_kw(&toks[i], "emit") {
            let (event, next) = match parse_path(&toks, i + 1) {
                Ok(p) => p,
                Err(e) => {
                    return Err(e);
                },
            };
            let a = ClinchAction::Emit { event };
            proof {
                push_view(accv, action_view(a), scan_actions(whole.skip(next as int)));
            }
            actions.push(a);
            proof {
                assert(actions_view(actions@) =~= accv.push(ActionV::Emit(
                    join_path(scan_path(whole.skip(i as int + 1)).0),
                )));
            }
            i = next;
        } else if tok_kw(&toks[i], "tag") {
            let ok = if toks.len() - i >= 4 {
                let p1 = match &toks[i + 1] {
                    Tok::Punct(p) => *p == '+',
                    _ => false,
                };
                let p2 = match &toks[i + 2] {
                    Tok::Punct(p) => *p == '=',
                    _ => false,
                };
                p1 && p2
            } else {
                false
            };
            if !ok {
                return Err(
                    CompileError::new(CompileErrorKind::Grammar, "tag", "expected `tag += <value>`"),
                );
            }
            proof {
                assert(whole.skip(i as int)[1] == whole[i as int + 1]);
                assert(whole.skip(i as int)[2] == whole[i as int + 2]);
                assert(whole.skip(i as int)[3] == whole[i as int + 3]);
                assert(whole.skip(i as int).skip(4) =~= whole.skip(i as int + 4));
            }
            let value = tok_surface_string(&toks[i + 3]);
            let a = ClinchAction::Tag { key: String::from_str("tag"), value };
            proof {
                push_view(accv, action_view(a), scan_actions(whole.skip(i as int + 4)));
            }
            actions.push(a);
            proof {
                assert(actions_view(actions@) =~= accv.push(ActionV::Tag(
                    "tag"@,
                    tok_surface(whole[i as int + 3]),
                )));
            }
            i += 4;
        } else if tok_kw(&toks[i], "score") {
            let two_op: Option<ScoreOp> = if toks.len() - i >= 4 {
                let b = match &toks[i + 3] {
                    Tok::Punct(p) => *p == '=',
                    _ => false,
                };
                let a = match &toks[i + 2] {
                    Tok::Punct(p) => {
                        if *p == '+' {
                            Some(ScoreOp::Add)
                        } else if *p == '-' {
                            Some(ScoreOp::Sub)
                        } else if *p == '*' {
                            Some(ScoreOp::Mul)
                        } else {
                            None
                        }
                    },
                    _ => None,
                };
                if b {
                    a
                } else {
                    None
                }
            } else {
                None
            };
            let one_op = if toks.len() - i >= 3 {
                match &toks[i + 2] {
                    Tok::Punct(p) => *p == '=',
                    _ => false,
                }
            } else {
                false
            };
            let (op, vi) = match two_op {
                Some(op) => (op, 4usize),
                None => {
                    if one_op {
                        (ScoreOp::Assign, 3usize)
                    } else {
                        return Err(
                            CompileError::new(
                                CompileErrorKind::Grammar,
                                "score",
                                "invalid score operator",
                            ),
                        );
                    }
                },
            };
            proof {
                assert(whole.skip(i as int)[1] == whole[i as int + 1]);
                assert(whole.skip(i as int)[2] == whole[i as int + 2]);
                if vi == 4 {
                    assert(whole.skip(i as int)[3] == whole[i as int + 3]);
                }
            }
            if i + vi >= toks.len() {
                proof {
                    assert(scan_actions(whole.skip(i as int)) == scan_score(
                        whole.skip(i as int),
                        op,
                        vi as nat,
                    ));
                    assert(scan_score(whole.skip(i as int), op, vi as nat) is None);
                }
                return Err(
                    CompileError::new(CompileErrorKind::Grammar, "score", "missing score value"),
                );
            }
            proof {
                assert(whole.skip(i as int)[vi as int] == whole[i as int + vi as int]);
                assert(whole.skip(i as int).skip(vi as int + 1) =~= whole.skip(
                    i as int + vi as int + 1,
                ));
            }
            let value = match &toks[i + vi] {
                Tok::NumLit(raw) => {
                    match parse_num(raw.as_str()) {
                        Some(n) => n,
                        None => {
                            proof {
                                assert(scan_actions(whole.skip(i as int)) == scan_score(
                                    whole.skip(i as int),
                                    op,
                                    vi as nat,
                                ));
                                assert(scan_score(whole.skip(i as int), op, vi as nat) is None);
                            }
                            return Err(
                                CompileError::new(
                                    CompileErrorKind::NumericLiteral,
                                    raw.as_str(),
                                    "score value must be a number",
                                ),
                            );
                        },
                    }
                },
                _ => {
                    proof {
                        assert(scan_actions(whole.skip(i as int)) == scan_score(
                            whole.skip(i as int),
                            op,
                            vi as nat,
                        ));
                        assert(scan_score(whole.skip(i as int), op, vi as nat) is None);
                    }
                    return Err(
                        CompileError::new(
                            CompileErrorKind::NumericLiteral,
                            "score",
                            "score value must be a number",
                        ),
                    );
                },
            };
            let key = tok_surface_string(&toks[i + 1]);
            let a = ClinchAction::Score { key, operator: op, value };
            proof {
                assert(scan_actions(whole.skip(i as int)) == scan_score(
                    whole.skip(i as int),
                    op,
                    vi as nat,
                ));
                assert(scan_score(whole.skip(i as int), op, vi as nat) == opt_cons(
                    ActionV::Score(tok_surface(whole[i as int + 1]), op, value),
                    scan_actions(whole.skip(i as int + vi as int + 1)),
                ));
                push_view(accv, action_view(a), scan_actions(whole.skip(i as int + vi as int + 1)));
            }
            actions.push(a);
            proof {
                assert(actions_view(actions@) =~= accv.push(ActionV::Score(
                    tok_surface(whole[i as int + 1]),
                    op,
                    value,
                )));
            }
            i += vi + 1;
        } else if tok_kw(&toks[i], "run") {
            let ok = if toks.len() - i >= 2 {
                tok_kw(&toks[i + 1], "deferred")
            } else {
                false
            };
            if !ok {
                return Err(
                    CompileError::new(
                        CompileErrorKind::Grammar,
                        "run",
                        "expected `run deferred <Handler>`",
                    ),
                );
            }
            proof {
                assert(whole.skip(i as int)[1] == whole[i as int + 1]);
            }
            if toks.len() - i < 3 {
                return Err(
                    CompileError::new(CompileErrorKind::Grammar, "run", "missing handler"),
                );
            }
            proof {
                assert(whole.skip(i as int)[2] == whole[i as int + 2]);
                assert(whole.skip(i as int).skip(3) =~= whole.skip(i as int + 3));
            }
            let handler = tok_surface_string(&toks[i + 2]);
            let a = ClinchAction::RunDeferred { handler };
            proof {
                push_view(accv, action_view(a), scan_actions(whole.skip(i as int + 3)));
            }
            actions.push(a);
            proof {
                assert(actions_view(actions@) =~= accv.push(ActionV::RunDeferred(
                    tok_surface(whole[i as int + 2]),
                )));
            }
            i += 3;
        } else {
            return Err(
                CompileError::new(CompileErrorKind::Grammar, "", "invalid clinch action"),
            );
        }
    }
    proof {
        assert(whole.skip(whole.len() as int) =~= Seq::<Tok>::empty());
        match scan_actions(whole) {
            Some(full) => {
                assert(full =~= actions_view(actions@));
            },
            None => {},
        }
    }
    Ok(actions)
}

/// Pushing one action keeps the accumulated shapes aligned with the
/// scan.
proof fn push_view(accv: Seq<ActionV>, a: ActionV, rest: Option<Seq<ActionV>>)
    ensures
        opt_concat(accv, opt_cons(a, rest)) == opt_concat(accv.push(a), rest),
{
    match rest {
        Some(r) => {
            assert(accv + (seq![a] + r) =~= accv.push(a) + r);
        },
        None => {},
    }
}

/// Builds the clinch index: the clause list in declaration order, and
/// the per-signal accumulation with clause order preserved within each
/// signal.
#[verifier::loop_isolation(false)]
pub fn build_clinch_index(clinch: &ClinchBlock) -> (r: Result<ClinchIndex, CompileError>)
    ensures
        r matches Ok(ci) ==> {
            &&& ci.clauses@.len() == clinch.clauses@.len()
            &&& forall|k: int|
                0 <= k < ci.clauses@.len() ==> (#[trigger] ci.clauses@[k].0.family@)
                    == clinch.clauses@[k].signal.family@ && ci.clauses@[k].0.name@
                    == clinch.clauses@[k].signal.name@
            &&& forall|k: int|
                0 <= k < ci.clauses@.len() ==> scan_actions(
                    spec_flatten_trees(clinch.clauses@[k].body.actions@),
                ) == Some(actions_view(#[trigger] ci.clauses@[k].1@))
        },
        r is Err <==> exists|k: int|
            0 <= k < clinch.clauses@.len() && scan_actions(
                spec_flatten_trees((#[trigger] clinch.clauses@[k]).body.actions@),
            ) is None,
{
    let mut clauses: Vec<(SignalId, Vec<ClinchAction>)> = Vec::new();
    let mut c: usize = 0;
    while c < clinch.clauses.len()
        invariant
            c <= clinch.clauses@.len(),
            clauses@.len() == c,
            forall|k: int|
                0 <= k < c ==> (#[trigger] clauses@[k].0.family@)
                    == clinch.clauses@[k].signal.family@ && clauses@[k].0.name@
                    == clinch.clauses@[k].signal.name@,
            forall|k: int|
                0 <= k < c ==> scan_actions(
                    spec_flatten_trees(clinch.clauses@[k].body.actions@),
                ) == Some(actions_view(#[trigger] clauses@[k].1@)),
        decreases clinch.clauses@.len() - c,
    {
        let clause = &clinch.clauses[c];
        let signal = SignalId {
            family: clause.signal.family.clone(),
            name: clause.signal.name.clone(),
        };
        let actions = match parse_clinch_actions(&clause.body.actions) {
            Ok(a) => a,
            Err(e) => {
                proof {
                    assert(scan_actions(
                        spec_flatten_trees(clinch.clauses@[c as int].body.actions@),
                    ) is None);
                }
                return Err(e);
            },
        };
        clauses.push((signal, actions));
        c += 1;
    }
    proof {
        assert forall|k: int| 0 <= k < clinch.clauses@.len() implies !(scan_actions(
            spec_flatten_trees((#[trigger] clinch.clauses@[k]).body.actions@),
        ) is None) by {
            assert(scan_actions(spec_flatten_trees(clinch.clauses@[k].body.actions@)) == Some(
                actions_view(clauses@[k].1@),
            ));
        }
    }
    Ok(ClinchIndex { clauses })
}

} // verus!
