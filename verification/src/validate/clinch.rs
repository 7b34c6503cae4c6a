//! Validation of the `clinch` block against the signal index: every
//! clause's signal reference must resolve, its action block must be
//! non-empty, and every action must have one of the four fixed shapes.

use vstd::prelude::*;

use crate::error::CompileError;
use crate::error::CompileErrorKind;
use crate::index::common::lookup_by_name;
use crate::index::signals::FamilyInfo;
use crate::index::signals::SignalIndex;
use crate::parse::clinch::ClinchBody;
use crate::parse::clinch::SignalPath;
use crate::parse::pipeline::PipelineAst;
use crate::strutil::str_eq;
use crate::token::Tok;
use crate::token::flatten_to_vec;
use crate::token::spec_flatten_trees;
use crate::validate::core_validate::tok_is_kw;
use crate::validate::core_validate::tok_kw;

verus! {

/// A path scan, as the action validator sees it: identifiers and `.`
/// or `::` separators, greedily, returning the parts and the remaining
/// tokens.
pub open spec fn scan_vpath(toks: Seq<Tok>) -> (Seq<Seq<char>>, Seq<Tok>)
    decreases toks.len(),
{
    if toks.len() == 0 {
        (Seq::empty(), toks)
    } else {
        match toks[0] {
            Tok::Ident(s) => {
                let r = scan_vpath(toks.skip(1));
                (seq![s@] + r.0, r.1)
            },
            Tok::Punct(c) => {
                if c == ':' && toks.len() >= 2 && (toks[1] matches Tok::Punct(':')) {
                    scan_vpath(toks.skip(2))
                } else if c == '.' {
                    scan_vpath(toks.skip(1))
                } else {
                    (Seq::empty(), toks)
                }
            },
            _ => (Seq::empty(), toks),
        }
    }
}

pub proof fn lemma_scan_vpath_rem(toks: Seq<Tok>)
    ensures
        scan_vpath(toks).1.len() <= toks.len(),
    decreases toks.len(),
{
    if toks.len() > 0 {
        match toks[0] {
            Tok::Ident(_) => {
                lemma_scan_vpath_rem(toks.skip(1));
            },
            Tok::Punct(c) => {
                if c == ':' && toks.len() >= 2 && (toks[1] matches Tok::Punct(':')) {
                    lemma_scan_vpath_rem(toks.skip(2));
                } else if c == '.' {
                    lemma_scan_vpath_rem(toks.skip(1));
                }
            },
            _ => {},
        }
    }
}

/// Whether the action tokens, scanned left to right, all have one of
/// the four accepted shapes, as the validator checks them.
pub open spec fn actions_shape_ok(toks: Seq<Tok>) -> bool
    decreases toks.len(),
    via actions_shape_ok_dec
{
    if toks.len() == 0 {
        true
    } else if toks[0] is Ident {
        if tok_is_kw(toks[0], "emit"@) {
            let r = scan_vpath(toks.skip(1));
            r.0.len() > 0 && actions_shape_ok(r.1)
        } else if tok_is_kw(toks[0], "run"@) {
            toks.len() >= 2 && tok_is_kw(toks[1], "deferred"@) && (toks.len() < 3
                || actions_shape_ok(toks.skip(3)))
        } else if tok_is_kw(toks[0], "tag"@) {
            toks.len() >= 4 && (toks[1] matches Tok::Punct('+')) && (toks[2] matches Tok::Punct(
                '=',
            )) && actions_shape_ok(toks.skip(4))
        } else if tok_is_kw(toks[0], "score"@) {
            &&& toks.len() >= 2 && toks[1] is Ident
            &&& {
                if toks.len() >= 4 && (toks[2] matches Tok::Punct('+')) && (toks[3]
                    matches Tok::Punct('=')) {
                    toks.len() >= 5 && lit_tok(toks[4]) && actions_shape_ok(toks.skip(5))
                } else if toks.len() >= 4 && (toks[2] matches Tok::Punct('-')) && (toks[3]
                    matches Tok::Punct('=')) {
                    toks.len() >= 5 && lit_tok(toks[4]) && actions_shape_ok(toks.skip(5))
                } else if toks.len() >= 4 && (toks[2] matches Tok::Punct('*')) && (toks[3]
                    matches Tok::Punct('=')) {
                    toks.len() >= 5 && lit_tok(toks[4]) && actions_shape_ok(toks.skip(5))
                } else if toks.len() >= 3 && (toks[2] matches Tok::Punct('=')) {
                    toks.len() >= 4 && lit_tok(toks[3]) && actions_shape_ok(toks.skip(4))
                } else {
                    false
                }
            }
        } else {
            false
        }
    } else {
        actions_shape_ok(toks.skip(1))
    }
}

#[via_fn]
proof fn actions_shape_ok_dec(toks: Seq<Tok>) {
    if toks.len() > 0 && toks[0] is Ident && tok_is_kw(toks[0], "emit"@) {
        lemma_scan_vpath_rem(toks.skip(1));
    }
}

/// Whether a token is a literal (numeric or string).
pub open spec fn lit_tok(t: Tok) -> bool {
    t is NumLit || t is StrLit
}

/// The rules for one clinch clause against the signal index.
pub open spec fn clause_valid(
    clause: crate::parse::clinch::ClinchClause,
    families: Seq<(String, FamilyInfo)>,
) -> bool {
    &&& (lookup_by_name(families, clause.signal.family@) matches Some(fam) && lookup_by_name(
        fam.signals@,
        clause.signal.name@,
    ) is Some)
    &&& spec_flatten_trees(clause.body.actions@).len() > 0
    &&& actions_shape_ok(spec_flatten_trees(clause.body.actions@))
}

/// The rules for the whole `clinch` block against the signal index.
pub open spec fn clinch_valid(
    cb: crate::parse::clinch::ClinchBlock,
    families: Seq<(String, FamilyInfo)>,
) -> bool {
    forall|i: int| 0 <= i < cb.clauses@.len() ==> clause_valid(#[trigger] cb.clauses@[i], families)
}

/// Two signal lists agree on every signal name.
pub open spec fn signames_congruent(
    s1: Seq<(String, crate::index::signals::SignalInfo)>,
    s2: Seq<(String, crate::index::signals::SignalInfo)>,
) -> bool {
    &&& s1.len() == s2.len()
    &&& forall|i: int| 0 <= i < s1.len() ==> (#[trigger] s1[i].0@) == s2[i].0@
}

/// Two signal indices agree on every family name and signal name.
pub open spec fn fams_congruent(
    f1: Seq<(String, FamilyInfo)>,
    f2: Seq<(String, FamilyInfo)>,
) -> bool {
    &&& f1.len() == f2.len()
    &&& forall|k: int|
        0 <= k < f1.len() ==> (#[trigger] f1[k].0@) == f2[k].0@ && signames_congruent(
            f1[k].1.signals@,
            f2[k].1.signals@,
        )
}

/// Congruent signal lists answer a signal lookup the same way.
proof fn lemma_lookup_sig_congruent(
    s1: Seq<(String, crate::index::signals::SignalInfo)>,
    s2: Seq<(String, crate::index::signals::SignalInfo)>,
    name: Seq<char>,
)
    requires
        signames_congruent(s1, s2),
    ensures
        lookup_by_name(s1, name) is Some <==> lookup_by_name(s2, name) is Some,
    decreases s1.len(),
{
    if s1.len() > 0 {
        if s1[0].0@ != name {
            assert(signames_congruent(s1.skip(1), s2.skip(1))) by {
                assert forall|i: int| 0 <= i < s1.skip(1).len() implies (
                #[trigger] s1.skip(1)[i].0@) == s2.skip(1)[i].0@ by {
                    assert(s1.skip(1)[i] == s1[i + 1]);
                    assert(s2.skip(1)[i] == s2[i + 1]);
                }
            }
            lemma_lookup_sig_congruent(s1.skip(1), s2.skip(1), name);
        }
    }
}

/// Congruent signal indices answer a family lookup the same way, with
/// name-congruent signal lists.
proof fn lemma_lookup_fam_congruent(
    f1: Seq<(String, FamilyInfo)>,
    f2: Seq<(String, FamilyInfo)>,
    name: Seq<char>,
)
    requires
        fams_congruent(f1, f2),
    ensures
        match (lookup_by_name(f1, name), lookup_by_name(f2, name)) {
            (Some(a), Some(b)) => signames_congruent(a.signals@, b.signals@),
            (None, None) => true,
            _ => false,
        },
    decreases f1.len(),
{
    if f1.len() > 0 {
        if f1[0].0@ != name {
            assert(fams_congruent(f1.skip(1), f2.skip(1))) by {
                assert forall|k: int| 0 <= k < f1.skip(1).len() implies (
                #[trigger] f1.skip(1)[k].0@) == f2.skip(1)[k].0@ && signames_congruent(
                    f1.skip(1)[k].1.signals@,
                    f2.skip(1)[k].1.signals@,
                ) by {
                    assert(f1.skip(1)[k] == f1[k + 1]);
                    assert(f2.skip(1)[k] == f2[k + 1]);
                }
            }
            lemma_lookup_fam_congruent(f1.skip(1), f2.skip(1), name);
        }
    }
}

/// Clinch validity reads the signal index only through name lookups, so
/// congruent indices validate every clause alike.
pub proof fn lemma_clinch_valid_congruent(
    cb: crate::parse::clinch::ClinchBlock,
    f1: Seq<(String, FamilyInfo)>,
    f2: Seq<(String, FamilyInfo)>,
)
    requires
        fams_congruent(f1, f2),
    ensures
        clinch_valid(cb, f1) == clinch_valid(cb, f2),
{
    assert forall|i: int| 0 <= i < cb.clauses@.len() implies #[trigger] clause_valid(
        cb.clauses@[i],
        f1,
    ) == clause_valid(cb.clauses@[i], f2) by {
        let clause = cb.clauses@[i];
        lemma_lookup_fam_congruent(f1, f2, clause.signal.family@);
        match (
            lookup_by_name(f1, clause.signal.family@),
            lookup_by_name(f2, clause.signal.family@),
        ) {
            (Some(a), Some(b)) => {
                lemma_lookup_sig_congruent(a.signals@, b.signals@, clause.signal.name@);
            },
            _ => {},
        }
    }
}

/// Validates the `clinch` block against a built signal index.
#[verifier::loop_isolation(false)]
pub fn validate_clinch(ast: &PipelineAst, signal_index: &SignalIndex) -> (r: Result<
    (),
    CompileError,
>)
    ensures
        r is Ok <==> (ast.clinch matches Some(cb) && clinch_valid(cb, signal_index.families@)),
{
    let clinch_block = match &ast.clinch {
        Some(cb) => cb,
        None => {
            return Err(
                CompileError::new(CompileErrorKind::Parse, "", "missing `clinch { ... }` block"),
            );
        },
    };
    let mut c: usize = 0;
    while c < clinch_block.clauses.len()
        invariant
            c <= clinch_block.clauses@.len(),
            forall|i: int|
                0 <= i < c ==> clause_valid(
                    #[trigger] clinch_block.clauses@[i],
                    signal_index.families@,
                ),
        decreases clinch_block.clauses@.len() - c,
    {
        let clause = &clinch_block.clauses[c];
        match validate_signal_path(&clause.signal, signal_index) {
            Ok(()) => (),
            Err(e) => {
                return Err(e);
            },
        }
        match validate_actions_non_empty(&clause.body) {
            Ok(()) => (),
            Err(e) => {
                return Err(e);
            },
        }
        match validate_actions(&clause.body) {
            Ok(()) => (),
            Err(e) => {
                return Err(e);
            },
        }
        c += 1;
    }
    Ok(())
}

/// The referenced family and signal must exist.
fn validate_signal_path(signal: &SignalPath, index: &SignalIndex) -> (r: Result<(), CompileError>)
    ensures
        r is Ok <==> (lookup_by_name(index.families@, signal.family@) matches Some(fam)
            && lookup_by_name(fam.signals@, signal.name@) is Some),
        r matches Err(e) ==> e.kind == CompileErrorKind::Referential && (e.token@
            == signal.family@ || e.token@ == signal.name@),
{
    let family = match crate::index::common::find_by_name(&index.families, signal.family.as_str()) {
        Some(f) => f,
        None => {
            return Err(
                CompileError::new(
                    CompileErrorKind::Referential,
                    signal.family.as_str(),
                    "unknown signal family",
                ),
            );
        },
    };
    if !crate::index::common::has_name(&family.signals, signal.name.as_str()) {
        return Err(
            CompileError::new(
                CompileErrorKind::Referential,
                signal.name.as_str(),
                "unknown signal in family",
            ),
        );
    }
    Ok(())
}

/// A clause's action block must not be empty.
fn validate_actions_non_empty(body: &ClinchBody) -> (r: Result<(), CompileError>)
    ensures
        r is Ok <==> spec_flatten_trees(body.actions@).len() > 0,
        r matches Err(e) ==> e.kind == CompileErrorKind::Grammar,
{
    let toks = flatten_to_vec(&body.actions);
    if toks.len() == 0 {
        return Err(
            CompileError::new(
                CompileErrorKind::Grammar,
                "",
                "clinch body must contain at least one action",
            ),
        );
    }
    Ok(())
}

/// Scans a path (`A`, `A::B`, ...) from `i`; returns how many parts it
/// saw and the index it stopped at.
#[verifier::loop_isolation(false)]
fn scan_vpath_exec(toks: &Vec<Tok>, i: usize) -> (r: (usize, usize))
    requires
        i <= toks@.len(),
    ensures
        i <= r.1 <= toks@.len(),
        scan_vpath(toks@.skip(i as int)).0.len() == r.0,
        scan_vpath(toks@.skip(i as int)).1 =~= toks@.skip(r.1 as int),
{
    let mut parts: usize = 0;
    let mut j: usize = i;
    loop
        invariant
            i <= j <= toks@.len(),
            parts <= j,
            scan_vpath(toks@.skip(i as int)).0.len() == parts + scan_vpath(
                toks@.skip(j as int),
            ).0.len(),
            scan_vpath(toks@.skip(i as int)).1 == scan_vpath(toks@.skip(j as int)).1,
        decreases toks@.len() - j,
    {
        if j >= toks.len() {
            proof {
                assert(toks@.skip(j as int) =~= Seq::<Tok>::empty());
            }
            return (parts, j);
        }
        proof {
            assert(toks@.skip(j as int)[0] == toks@[j as int]);
            assert(toks@.skip(j as int).skip(1) =~= toks@.skip(j as int + 1));
        }
        match &toks[j] {
            Tok::Ident(_) => {
                parts += 1;
                j += 1;
            },
            Tok::Punct(p) => {
                let two = if *p == ':' && toks.len() - j >= 2 {
                    match &toks[j + 1] {
                        Tok::Punct(q) => *q == ':',
                        _ => false,
                    }
                } else {
                    false
                };
                if two {
                    proof {
                        assert(toks@.skip(j as int)[1] == toks@[j as int + 1]);
                        assert(toks@.skip(j as int).skip(2) =~= toks@.skip(j as int + 2));
                    }
                    j += 2;
                } else if *p == '.' {
                    j += 1;
                } else {
                    return (parts, j);
                }
            },
            _ => {
                return (parts, j);
            },
        }
    }
}

/// Each action must parse as one of the four fixed shapes.
#[verifier::loop_isolation(false)]
fn validate_actions(body: &ClinchBody) -> (r: Result<(), CompileError>)
    ensures
        r is Ok <==> actions_shape_ok(spec_flatten_trees(body.actions@)),
{
    let toks = flatten_to_vec(&body.actions);
    proof {
        vstd::std_specs::vec::axiom_spec_len(&toks);
    }
    let ghost whole = toks@;
    let mut i: usize = 0;
    proof {
        assert(whole.skip(0) =~= whole);
    }
    while i < toks.len()
        invariant
            i <= toks@.len(),
            actions_shape_ok(whole) == actions_shape_ok(whole.skip(i as int)),
        decreases toks@.len() - i,
    {
        proof {
            assert(whole.skip(i as int)[0] == whole[i as int]);
            assert(whole.skip(i as int).skip(1) =~= whole.skip(i as int + 1));
        }
        let is_ident = match &toks[i] {
            Tok::Ident(_) => true,
            _ => false,
        };
        if !is_ident {
            i += 1;
        } else if tok_kw(&toks[i], "emit") {
            let (nparts, next) = scan_vpath_exec(&toks, i + 1);
            if nparts == 0 {
                return Err(
                    CompileError::new(
                        CompileErrorKind::Grammar,
                        "emit",
                        "expected event name after `emit`",
                    ),
                );
            }
            i = next;
        } else if tok_kw(&toks[i], "run") {
            let ok = if toks.len() - i >= 2 {
                tok_kw(&toks[i + 1], "deferred")
            } else {
                false
            };
            if !ok {
                return Err(
                    CompileError::new(
                        CompileErrorKind::Grammar,
                        "run",
                        "expected `deferred` after `run`",
                    ),
                );
            }
            proof {
                assert(whole.skip(i as int)[1] == whole[i as int + 1]);
                if i + 3 <= toks@.len() {
                    assert(whole.skip(i as int).skip(3) =~= whole.skip(i as int + 3));
                } else {
                    assert(whole.skip(toks@.len() as int) =~= Seq::<Tok>::empty());
                }
            }
            if toks.len() - i >= 3 {
                i += 3;
            } else {
                i = toks.len();
            }
        } else if tok_kw(&toks[i], "tag") {
            let ok = if toks.len() - i >= 4 {
                let p1 = match &toks[i + 1] {
                    Tok::Punct(p) => *p == '+',
                    _ => false,
                };
                let p2 = match &toks[i + 2] {
                    Tok::Punct(p) => *p == '=',
                    _ => false,
                };
                p1 && p2
            } else {
                false
            };
            if !ok {
                return Err(
                    CompileError::new(CompileErrorKind::Grammar, "tag", "expected `tag += <value>`"),
                );
            }
            proof {
                assert(whole.skip(i as int)[1] == whole[i as int + 1]);
                assert(whole.skip(i as int)[2] == whole[i as int + 2]);
                assert(whole.skip(i as int).skip(4) =~= whole.skip(i as int + 4));
            }
            i += 4;
        } else if tok_kw(&toks[i], "score") {
            let key_ok = if toks.len() - i >= 2 {
                match &toks[i + 1] {
                    Tok::Ident(_) => true,
                    _ => false,
                }
            } else {
                false
            };
            if !key_ok {
                return Err(
                    CompileError::new(
                        CompileErrorKind::Grammar,
                        "score",
                        "expected score key after `score`",
                    ),
                );
            }
            proof {
                assert(whole.skip(i as int)[1] == whole[i as int + 1]);
            }
            let two_op = if toks.len() - i >= 4 {
                let a = match &toks[i + 2] {
                    Tok::Punct(p) => {
                        if *p == '+' || *p == '-' || *p == '*' {
                            true
                        } else {
                            false
                        }
                    },
                    _ => false,
                };
                let b = match &toks[i + 3] {
                    Tok::Punct(p) => *p == '=',
                    _ => false,
                };
                a && b
            } else {
                false
            };
            let one_op = if !two_op && toks.len() - i >= 3 {
                match &toks[i + 2] {
                    Tok::Punct(p) => *p == '=',
                    _ => false,
                }
            } else {
                false
            };
            if !two_op && !one_op {
                return Err(
                    CompileError::new(
                        CompileErrorKind::Grammar,
                        "score",
                        "expected score operator (`=`, `+=`, `-=`, `*=`)",
                    ),
                );
            }
            let vi = if two_op {
                i + 4
            } else {
                i + 3
            };
            let val_ok = if vi < toks.len() {
                match &toks[vi] {
                    Tok::NumLit(_) => true,
                    Tok::StrLit(_) => true,
                    _ => false,
                }
            } else {
                false
            };
            if !val_ok {
                return Err(
                    CompileError::new(
                        CompileErrorKind::Grammar,
                        "score",
                        "expected numeric literal after score operator",
                    ),
                );
            }
            proof {
                assert(whole.skip(i as int)[2] == whole[i as int + 2]);
                if two_op {
                    assert(whole.skip(i as int)[3] == whole[i as int + 3]);
                    assert(whole.skip(i as int)[4] == whole[i as int + 4]);
                    assert(whole.skip(i as int).skip(5) =~= whole.skip(i as int + 5));
                } else {
                    assert(whole.skip(i as int)[3] == whole[i as int + 3]);
                    assert(whole.skip(i as int).skip(4) =~= whole.skip(i as int + 4));
                }
            }
            i = if two_op {
                i + 5
            } else {
                i + 4
            };
        } else {
            return Err(
                CompileError::new(CompileErrorKind::Grammar, "", "unknown action in clinch body"),
            );
        }
    }
    proof {
        assert(whole.skip(toks@.len() as int) =~= Seq::<Tok>::empty());
    }
    Ok(())
}

} // verus!
