//! Parser for the `operations` block: `operation <name> { ... }`
//! definitions whose bodies stay raw token sequences.

use vstd::prelude::*;

use crate::error::CompileError;
use crate::error::CompileErrorKind;
use crate::parse::signals::tree_brace_content;
use crate::parse::signals::tree_ident;
use crate::parse::signals::tree_is_brace;
use crate::parse::signals::tree_is_ident;
use crate::parse::signals::tree_is_kw;
use crate::strutil::str_eq;
use crate::token::Delim;
use crate::token::Tok;
use crate::token::TokenTree;

verus! {

/// Raw DSL tokens inside an operation's `{ ... }`.
pub struct OperationBody {
    pub content: Vec<TokenTree>,
}

/// One `operation <name> { ... }` definition.
pub struct OperationDef {
    pub name: String,
    pub body: OperationBody,
}

/// The `operations` block: its definitions in declaration order.
pub struct OperationsBlock {
    pub definitions: Vec<OperationDef>,
}

/// The shape of one parsed operation: its name and its raw body.
pub open spec fn op_shape_view(def: OperationDef) -> (Seq<char>, Vec<TokenTree>) {
    (def.name@, def.body.content)
}

/// The operation definitions a block body denotes, scanned front to
/// back.
pub open spec fn sp_op_defs(ts: Seq<TokenTree>) -> Option<Seq<(Seq<char>, Vec<TokenTree>)>>
    decreases ts.len(),
{
    if ts.len() == 0 {
        Some(Seq::empty())
    } else if ts.len() >= 3 && tree_is_kw(ts[0], "operation"@) && tree_is_ident(ts[1])
        && tree_is_brace(ts[2]) {
        match sp_op_defs(ts.skip(3)) {
            Some(rest) => Some(seq![(tree_ident(ts[1]), tree_brace_content(ts[2]))] + rest),
            None => None,
        }
    } else {
        None
    }
}

impl OperationsBlock {
    /// Parses the contents of `operations { ... }`.
    #[verifier::loop_isolation(false)]
    pub fn parse(trees: Vec<TokenTree>) -> (r: Result<OperationsBlock, CompileError>)
        ensures
            r is Ok <==> sp_op_defs(trees@) is Some,
            r matches Ok(b) ==> sp_op_defs(trees@) == Some(
                b.definitions@.map_values(|d: OperationDef| op_shape_view(d)),
            ),
            r matches Err(e) ==> e.kind == CompileErrorKind::Parse,
    {
        let ghost whole = trees@;
        let mut trees = trees;
        let mut definitions: Vec<OperationDef> = Vec::new();
        proof {
            assert(definitions@.map_values(|d: OperationDef| op_shape_view(d)) =~= Seq::<(
                Seq<char>,
                Vec<TokenTree>,
            )>::empty());
            assert(crate::validate::operations::opt_concat(
                definitions@.map_values(|d: OperationDef| op_shape_view(d)),
                sp_op_defs(whole),
            ) == sp_op_defs(whole)) by {
                match sp_op_defs(whole) {
                    Some(r2) => {
                        assert(definitions@.map_values(|d: OperationDef| op_shape_view(d)) + r2
                            =~= r2);
                    },
                    None => {},
                }
            }
        }
        while trees.len() > 0
            invariant
                sp_op_defs(whole) == crate::validate::operations::opt_concat(
                    definitions@.map_values(|d: OperationDef| op_shape_view(d)),
                    sp_op_defs(trees@),
                ),
            decreases trees@.len(),
        {
            let ghost pre = trees@;
            let ghost accv = definitions@.map_values(|d: OperationDef| op_shape_view(d));
            match OperationDef::parse(&mut trees) {
                Ok(def) => {
                    proof {
                        match sp_op_defs(pre.skip(3)) {
                            Some(rest) => {
                                assert(accv + (seq![op_shape_view(def)] + rest) =~= accv.push(
                                    op_shape_view(def),
                                ) + rest);
                            },
                            None => {},
                        }
                    }
                    definitions.push(def);
                    proof {
                        assert(definitions@.map_values(|d: OperationDef| op_shape_view(d))
                            =~= accv.push(op_shape_view(def)));
                    }
                },
                Err(e) => {
                    return Err(e);
                },
            }
        }
        proof {
            match sp_op_defs(whole) {
                Some(full) => {
                    assert(full =~= definitions@.map_values(|d: OperationDef| op_shape_view(d)));
                },
                None => {},
            }
        }
        Ok(OperationsBlock { definitions })
    }
}

impl OperationDef {
    /// Parses one `operation <name> { ... }` from the front of `trees`.
    pub fn parse(trees: &mut Vec<TokenTree>) -> (r: Result<OperationDef, CompileError>)
        requires
            old(trees)@.len() > 0,
        ensures
            r is Ok <==> old(trees)@.len() >= 3 && tree_is_kw(old(trees)@[0], "operation"@)
                && tree_is_ident(old(trees)@[1]) && tree_is_brace(old(trees)@[2]),
            r matches Ok(def) ==> {
                &&& def.name@ == tree_ident(old(trees)@[1])
                &&& def.body.content == tree_brace_content(old(trees)@[2])
                &&& final(trees)@ == old(trees)@.skip(3)
            },
            r is Ok ==> final(trees)@.len() < old(trees)@.len(),
            r matches Err(e) ==> e.kind == CompileErrorKind::Parse,
    {
        let ghost t0 = trees@;
        proof {
            if t0.len() >= 1 {
                assert(forall|m: int| 0 <= m < t0.len() - 1 ==> t0.skip(1)[m] == t0[m + 1]);
            }
            if t0.len() >= 2 {
                assert(forall|m: int| 0 <= m < t0.len() - 2 ==> t0.skip(2)[m] == t0[m + 2]);
                assert(t0.skip(1).skip(1) =~= t0.skip(2));
            }
            if t0.len() >= 3 {
                assert(t0.skip(2).skip(1) =~= t0.skip(3));
            }
        }
        let kw = trees.remove(0);
        match kw {
            TokenTree::Leaf(Tok::Ident(s)) => {
                if !str_eq(s.as_str(), "operation") {
                    return Err(
                        CompileError::new(
                            CompileErrorKind::Parse,
                            s.as_str(),
                            "expected `operation <name> { ... }`",
                        ),
                    );
                }
            },
            _ => {
                return Err(
                    CompileError::new(
                        CompileErrorKind::Parse,
                        "",
                        "expected `operation <name> { ... }`",
                    ),
                );
            },
        }
        if trees.len() == 0 {
            return Err(
                CompileError::new(CompileErrorKind::Parse, "operation", "expected operation name"),
            );
        }
        let name = match trees.remove(0) {
            TokenTree::Leaf(Tok::Ident(s)) => s,
            _ => {
                return Err(
                    CompileError::new(
                        CompileErrorKind::Parse,
                        "operation",
                        "expected operation name",
                    ),
                );
            },
        };
        let body = match OperationBody::parse(trees) {
            Ok(b) => b,
            Err(e) => {
                return Err(e);
            },
        };
        Ok(OperationDef { name, body })
    }
}

impl OperationBody {
    /// Parses a braced `{ ... }` body from the front of `trees`.
    pub fn parse(trees: &mut Vec<TokenTree>) -> (r: Result<OperationBody, CompileError>)
        ensures
            r is Ok <==> old(trees)@.len() > 0 && tree_is_brace(old(trees)@[0]),
            r matches Ok(b) ==> b.content == tree_brace_content(old(trees)@[0]) && final(trees)@
                == old(trees)@.skip(1),
            r is Ok ==> old(trees)@.len() > 0 && final(trees)@.len() < old(trees)@.len(),
            r matches Err(e) ==> e.kind == CompileErrorKind::Parse,
    {
        if trees.len() == 0 {
            return Err(CompileError::new(CompileErrorKind::Parse, "", "expected `{ ... }` body"));
        }
        match trees.remove(0) {
            TokenTree::Group(Delim::Brace, content) => Ok(OperationBody { content }),
            _ => Err(CompileError::new(CompileErrorKind::Parse, "", "expected `{ ... }` body")),
        }
    }
}

} // verus!
