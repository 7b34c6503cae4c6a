//! Parser for the `clinch` block: `when signal.<family>.<name> { ... }`
//! clauses whose action lists stay raw token sequences.

use vstd::prelude::*;

use crate::error::CompileError;
use crate::error::CompileErrorKind;
use crate::parse::signals::expect_ident;
use crate::parse::signals::expect_kw;
use crate::parse::signals::expect_punct;
use crate::parse::signals::tree_brace_content;
use crate::parse::signals::tree_ident;
use crate::parse::signals::tree_is_brace;
use crate::parse::signals::tree_is_ident;
use crate::parse::signals::tree_is_kw;
use crate::parse::signals::tree_is_punct;
use crate::token::Delim;
use crate::token::TokenTree;

verus! {

/// The `clinch` block: its clauses in declaration order.
pub struct ClinchBlock {
    pub clauses: Vec<ClinchClause>,
}

/// One `when signal.<family>.<name> { <actions> }` clause.
pub struct ClinchClause {
    pub signal: SignalPath,
    pub body: ClinchBody,
}

/// A `signal.<family>.<name>` reference.
pub struct SignalPath {
    pub family: String,
    pub name: String,
}

/// The raw action tokens of one clause.
pub struct ClinchBody {
    pub actions: Vec<TokenTree>,
}

/// The shape of one parsed clause: its signal reference and its raw
/// action tokens.
pub open spec fn clause_shape_view(c: ClinchClause) -> ((Seq<char>, Seq<char>), Vec<TokenTree>) {
    ((c.signal.family@, c.signal.name@), c.body.actions)
}

/// The clauses a `clinch` block body denotes, scanned front to back.
pub open spec fn sp_clauses(ts: Seq<TokenTree>) -> Option<
    Seq<((Seq<char>, Seq<char>), Vec<TokenTree>)>,
>
    decreases ts.len(),
{
    if ts.len() == 0 {
        Some(Seq::empty())
    } else if ts.len() >= 7 && tree_is_kw(ts[0], "when"@) && signal_path_shape(ts.skip(1))
        && tree_is_brace(ts[6]) {
        match sp_clauses(ts.skip(7)) {
            Some(rest) => Some(
                seq![((tree_ident(ts[3]), tree_ident(ts[5])), tree_brace_content(ts[6]))] + rest,
            ),
            None => None,
        }
    } else {
        None
    }
}

impl ClinchBlock {
    /// Parses the contents of `clinch { ... }`.
    #[verifier::loop_isolation(false)]
    pub fn parse(trees: Vec<TokenTree>) -> (r: Result<ClinchBlock, CompileError>)
        ensures
            r is Ok <==> sp_clauses(trees@) is Some,
            r matches Ok(b) ==> sp_clauses(trees@) == Some(
                b.clauses@.map_values(|c: ClinchClause| clause_shape_view(c)),
            ),
            r matches Err(e) ==> e.kind == CompileErrorKind::Parse,
    {
        let ghost whole = trees@;
        let mut trees = trees;
        let mut clauses: Vec<ClinchClause> = Vec::new();
        proof {
            assert(clauses@.map_values(|c: ClinchClause| clause_shape_view(c)) =~= Seq::<(
                (Seq<char>, Seq<char>),
                Vec<TokenTree>,
            )>::empty());
            assert(crate::validate::operations::opt_concat(
                clauses@.map_values(|c: ClinchClause| clause_shape_view(c)),
                sp_clauses(whole),
            ) == sp_clauses(whole)) by {
                match sp_clauses(whole) {
                    Some(r2) => {
                        assert(clauses@.map_values(|c: ClinchClause| clause_shape_view(c)) + r2
                            =~= r2);
                    },
                    None => {},
                }
            }
        }
        while trees.len() > 0
            invariant
                sp_clauses(whole) == crate::validate::operations::opt_concat(
                    clauses@.map_values(|c: ClinchClause| clause_shape_view(c)),
                    sp_clauses(trees@),
                ),
            decreases trees@.len(),
        {
            let ghost pre = trees@;
            let ghost accv = clauses@.map_values(|c: ClinchClause| clause_shape_view(c));
            match ClinchClause::parse(&mut trees) {
                Ok(c) => {
                    proof {
                        assert(forall|m: int|
                            0 <= m < pre.len() - 1 ==> pre.skip(1)[m] == pre[m + 1]);
                        match sp_clauses(pre.skip(7)) {
                            Some(rest) => {
                                assert(accv + (seq![clause_shape_view(c)] + rest) =~= accv.push(
                                    clause_shape_view(c),
                                ) + rest);
                            },
                            None => {},
                        }
                    }
                    clauses.push(c);
                    proof {
                        assert(clauses@.map_values(|x: ClinchClause| clause_shape_view(x))
                            =~= accv.push(clause_shape_view(c)));
                    }
                },
                Err(e) => {
                    return Err(e);
                },
            }
        }
        proof {
            match sp_clauses(whole) {
                Some(full) => {
                    assert(full =~= clauses@.map_values(|c: ClinchClause| clause_shape_view(c)));
                },
                None => {},
            }
        }
        Ok(ClinchBlock { clauses })
    }
}

/// The five-token shape of a `signal.<family>.<name>` reference.
pub open spec fn signal_path_shape(ts: Seq<TokenTree>) -> bool {
    &&& ts.len() >= 5
    &&& tree_is_kw(ts[0], "signal"@)
    &&& tree_is_punct(ts[1], '.')
    &&& tree_is_ident(ts[2])
    &&& tree_is_punct(ts[3], '.')
    &&& tree_is_ident(ts[4])
}

impl ClinchClause {
    /// Parses one clause from the front of `trees`.
    pub fn parse(trees: &mut Vec<TokenTree>) -> (r: Result<ClinchClause, CompileError>)
        requires
            old(trees)@.len() > 0,
        ensures
            r is Ok <==> old(trees)@.len() >= 7 && tree_is_kw(old(trees)@[0], "when"@)
                && signal_path_shape(old(trees)@.skip(1)) && tree_is_brace(old(trees)@[6]),
            r matches Ok(c) ==> {
                &&& c.signal.family@ == tree_ident(old(trees)@[3])
                &&& c.signal.name@ == tree_ident(old(trees)@[5])
                &&& c.body.actions == tree_brace_content(old(trees)@[6])
                &&& final(trees)@ == old(trees)@.skip(7)
            },
            r is Ok ==> final(trees)@.len() < old(trees)@.len(),
            r matches Err(e) ==> e.kind == CompileErrorKind::Parse,
    {
        let ghost t0 = trees@;
        proof {
            if t0.len() >= 1 {
                assert(forall|m: int| 0 <= m < t0.len() - 1 ==> t0.skip(1)[m] == t0[m + 1]);
            }
            if t0.len() >= 6 {
                assert(t0.skip(1).skip(5) =~= t0.skip(6));
            }
            if t0.len() >= 7 {
                assert(t0.skip(6).skip(1) =~= t0.skip(7));
                assert(t0.skip(6)[0] == t0[6]);
            }
        }
        match expect_kw(trees, "when", "expected `when signal.<family>.<name> { ... }`") {
            Ok(()) => (),
            Err(e) => {
                return Err(e);
            },
        }
        let signal = match SignalPath::parse(trees) {
            Ok(p) => p,
            Err(e) => {
                return Err(e);
            },
        };
        let body = match ClinchBody::parse(trees) {
            Ok(b) => b,
            Err(e) => {
                return Err(e);
            },
        };
        Ok(ClinchClause { signal, body })
    }
}

impl SignalPath {
    /// Parses `signal.<family>.<name>` from the front of `trees`.
    pub fn parse(trees: &mut Vec<TokenTree>) -> (r: Result<SignalPath, CompileError>)
        ensures
            r is Ok <==> signal_path_shape(old(trees)@),
            r matches Ok(p) ==> p.family@ == tree_ident(old(trees)@[2]) && p.name@ == tree_ident(
                old(trees)@[4],
            ) && final(trees)@ == old(trees)@.skip(5),
            r is Ok ==> final(trees)@.len() < old(trees)@.len(),
            r matches Err(e) ==> e.kind == CompileErrorKind::Parse,
    {
        let ghost t0 = trees@;
        proof {
            if t0.len() >= 1 {
                assert(forall|m: int| 0 <= m < t0.len() - 1 ==> t0.skip(1)[m] == t0[m + 1]);
            }
            if t0.len() >= 2 {
                assert(forall|m: int| 0 <= m < t0.len() - 2 ==> t0.skip(2)[m] == t0[m + 2]);
                assert(t0.skip(1).skip(1) =~= t0.skip(2));
            }
            if t0.len() >= 3 {
                assert(forall|m: int| 0 <= m < t0.len() - 3 ==> t0.skip(3)[m] == t0[m + 3]);
                assert(t0.skip(2).skip(1) =~= t0.skip(3));
            }
            if t0.len() >= 4 {
                assert(forall|m: int| 0 <= m < t0.len() - 4 ==> t0.skip(4)[m] == t0[m + 4]);
                assert(t0.skip(3).skip(1) =~= t0.skip(4));
            }
            if t0.len() >= 5 {
                assert(t0.skip(4).skip(1) =~= t0.skip(5));
            }
        }
        match expect_kw(trees, "signal", "expected `signal.<family>.<name>`") {
            Ok(()) => (),
            Err(e) => {
                return Err(e);
            },
        }
        match expect_punct(trees, '.', "expected `.` after `signal`") {
            Ok(()) => (),
            Err(e) => {
                return Err(e);
            },
        }
        let family = match expect_ident(trees, "expected family name") {
            Ok(s) => s,
            Err(e) => {
                return Err(e);
            },
        };
        match expect_punct(trees, '.', "expected `.` after family name") {
            Ok(()) => (),
            Err(e) => {
                return Err(e);
            },
        }
        let name = match expect_ident(trees, "expected signal name") {
            Ok(s) => s,
            Err(e) => {
                return Err(e);
            },
        };
        Ok(SignalPath { family, name })
    }
}

impl ClinchBody {
    /// Parses a braced action block from the front of `trees`.
    pub fn parse(trees: &mut Vec<TokenTree>) -> (r: Result<ClinchBody, CompileError>)
        ensures
            r is Ok <==> old(trees)@.len() > 0 && tree_is_brace(old(trees)@[0]),
            r matches Ok(b) ==> b.actions == tree_brace_content(old(trees)@[0]) && final(trees)@
                == old(trees)@.skip(1),
            r is Ok ==> old(trees)@.len() > 0 && final(trees)@.len() < old(trees)@.len(),
            r matches Err(e) ==> e.kind == CompileErrorKind::Parse,
    {
        if trees.len() == 0 {
            return Err(
                CompileError::new(CompileErrorKind::Parse, "", "expected `{ ... }` action block"),
            );
        }
        match trees.remove(0) {
            TokenTree::Group(Delim::Brace, actions) => Ok(ClinchBody { actions }),
            _ => Err(
                CompileError::new(CompileErrorKind::Parse, "", "expected `{ ... }` action block"),
            ),
        }
    }
}

} // verus!
