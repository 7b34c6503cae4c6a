//! The predicate sublanguage: the self-contained boolean-expression
//! grammar of `when` clauses, compiled once into an AST at pipeline
//! compile time and evaluated against one step's output record at run
//! time. Predicates never splice or execute host code.

use vstd::prelude::*;

use crate::error::CompileError;
use crate::error::CompileErrorKind;
use crate::error::RuntimeError;
use crate::num::Num;
use crate::num::NumOrd;
use crate::num::num_cmp;
use crate::num::parse_num;
use crate::num::spec_num_cmp;
use crate::num::spec_parse_num;
use crate::strutil::str_eq;
use crate::token::Delim;
use crate::token::Tok;
use crate::token::TokenTree;
use crate::validate::operations::opt_concat;

verus! {

/// A typed value of the predicate domain: what an operation step's
/// result record is made of.
pub enum Value {
    Bool(bool),
    Num(Num),
    Bytes(Vec<u8>),
    Str(String),
    Record(Vec<(String, Value)>),
}

/// A comparison operator.
#[derive(Clone, Copy, Debug, PartialEq, Eq, Structural)]
pub enum CmpOp {
    Eq,
    Ne,
    Gt,
    Lt,
    Ge,
    Le,
}

/// One step of a path: a field access or an integer index.
#[derive(Debug)]
pub enum PathSeg {
    Field(String),
    Index(u64),
}

/// A path operand: a base identifier with field/index steps.
#[derive(Debug)]
pub struct PathExpr {
    pub base: String,
    pub segs: Vec<PathSeg>,
}

/// A literal operand.
#[derive(Debug)]
pub enum LitVal {
    Num(Num),
    Str(String),
    Bool(bool),
    ByteSeq(Vec<i64>),
}

/// An operand: a path or a literal.
#[derive(Debug)]
pub enum Operand {
    Path(PathExpr),
    Lit(LitVal),
}

/// A comparison: an operand, optionally compared against a second one.
#[derive(Debug)]
pub struct CmpExpr {
    pub lhs: Operand,
    pub rhs: Option<(CmpOp, Operand)>,
}

/// A conjunction of comparisons, evaluated left to right.
#[derive(Debug)]
pub struct AndExpr {
    pub factors: Vec<CmpExpr>,
}

/// A disjunction of conjunctions: a whole compiled predicate.
#[derive(Debug)]
pub struct OrExpr {
    pub terms: Vec<AndExpr>,
}


// ---------------------------------------------------------------------
// Parsing semantics
// ---------------------------------------------------------------------

/// The shape of a literal operand.
pub enum LitV {
    Num(Num),
    Str(Seq<char>),
    Bool(bool),
    ByteSeq(Seq<i64>),
}

/// The shape of one path step.
pub enum SegV {
    Field(Seq<char>),
    Index(u64),
}

/// The shape of an operand.
pub enum OperandV {
    Path(Seq<char>, Seq<SegV>),
    Lit(LitV),
}

/// The shape of one comparison.
pub struct CmpV {
    pub lhs: OperandV,
    pub rhs: Option<(CmpOp, OperandV)>,
}

pub open spec fn lit_view(l: LitVal) -> LitV {
    match l {
        LitVal::Num(n) => LitV::Num(n),
        LitVal::Str(t) => LitV::Str(t@),
        LitVal::Bool(b) => LitV::Bool(b),
        LitVal::ByteSeq(v) => LitV::ByteSeq(v@),
    }
}

pub open spec fn seg_view(s: PathSeg) -> SegV {
    match s {
        PathSeg::Field(f) => SegV::Field(f@),
        PathSeg::Index(i) => SegV::Index(i),
    }
}

pub open spec fn operand_view(o: Operand) -> OperandV {
    match o {
        Operand::Path(p) => OperandV::Path(p.base@, p.segs@.map_values(|s: PathSeg| seg_view(s))),
        Operand::Lit(l) => OperandV::Lit(lit_view(l)),
    }
}

pub open spec fn cmp_view(c: CmpExpr) -> CmpV {
    CmpV {
        lhs: operand_view(c.lhs),
        rhs: match c.rhs {
            Some((op, o)) => Some((op, operand_view(o))),
            None => None,
        },
    }
}

pub open spec fn and_view(a: AndExpr) -> Seq<CmpV> {
    a.factors@.map_values(|c: CmpExpr| cmp_view(c))
}

/// The shape of a whole compiled predicate: its conjunctions'
/// comparisons, in order.
pub open spec fn pred_view(p: OrExpr) -> Seq<Seq<CmpV>> {
    p.terms@.map_values(|a: AndExpr| and_view(a))
}

/// Joins already-collected path steps with the scan of the rest.
pub open spec fn seg_concat(acc: Seq<SegV>, rest: Option<(Seq<SegV>, Seq<TokenTree>)>) -> Option<
    (Seq<SegV>, Seq<TokenTree>),
> {
    match rest {
        Some((s2, r)) => Some((acc + s2, r)),
        None => None,
    }
}

/// Whether a tree is the given punctuation leaf.
pub open spec fn tt_is_punct(t: TokenTree, c: char) -> bool {
    t matches TokenTree::Leaf(Tok::Punct(p)) && p == c
}

/// Path steps at the front of the tokens: `.field` accesses and
/// single-integer bracket indices, greedily, with the remaining tokens.
pub open spec fn sp_segs(ts: Seq<TokenTree>) -> Option<(Seq<SegV>, Seq<TokenTree>)>
    decreases ts.len(),
{
    if ts.len() == 0 {
        Some((Seq::empty(), ts))
    } else {
        match ts[0] {
            TokenTree::Leaf(Tok::Punct(c)) => {
                if c == '.' {
                    if ts.len() >= 2 && (ts[1] matches TokenTree::Leaf(Tok::Ident(f))) {
                        match sp_segs(ts.skip(2)) {
                            Some((segs, rem)) => Some(
                                (seq![SegV::Field(ts[1]->Leaf_0->Ident_0@)] + segs, rem),
                            ),
                            None => None,
                        }
                    } else {
                        None
                    }
                } else {
                    Some((Seq::empty(), ts))
                }
            },
            TokenTree::Group(d, items) => {
                if d == Delim::Bracket {
                    if items@.len() == 1 && (items@[0] matches TokenTree::Leaf(Tok::NumLit(_))) {
                        match spec_parse_num(items@[0]->Leaf_0->NumLit_0@) {
                            Some(n) => {
                                if n.scale == 0 && n.mant >= 0 {
                                    match sp_segs(ts.skip(1)) {
                                        Some((segs, rem)) => Some(
                                            (seq![SegV::Index(n.mant as u64)] + segs, rem),
                                        ),
                                        None => None,
                                    }
                                } else {
                                    None
                                }
                            },
                            None => None,
                        }
                    } else {
                        None
                    }
                } else {
                    Some((Seq::empty(), ts))
                }
            },
            _ => Some((Seq::empty(), ts)),
        }
    }
}

pub proof fn lemma_sp_segs_rem(ts: Seq<TokenTree>)
    ensures
        sp_segs(ts) matches Some(r) ==> r.1.len() <= ts.len(),
    decreases ts.len(),
{
    if ts.len() > 0 {
        lemma_sp_segs_rem(ts.skip(1));
        if ts.len() >= 2 {
            lemma_sp_segs_rem(ts.skip(2));
        }
    }
}

/// The elements of a byte-sequence literal: integers separated by
/// single commas, no trailing separator.
pub open spec fn sp_byte_items(items: Seq<TokenTree>) -> Option<Seq<i64>>
    decreases items.len(),
{
    if items.len() == 0 {
        Some(Seq::empty())
    } else {
        match items[0] {
            TokenTree::Leaf(Tok::NumLit(raw)) => match spec_parse_num(raw@) {
                Some(n) => {
                    if n.scale == 0 {
                        if items.len() == 1 {
                            Some(seq![n.mant])
                        } else if tt_is_punct(items[1], ',') {
                            if items.len() >= 3 {
                                match sp_byte_items(items.skip(2)) {
                                    Some(r) => Some(seq![n.mant] + r),
                                    None => None,
                                }
                            } else {
                                None
                            }
                        } else {
                            None
                        }
                    } else {
                        None
                    }
                },
                None => None,
            },
            _ => None,
        }
    }
}

/// One operand at the front of the tokens, with the remaining tokens.
pub open spec fn sp_operand(ts: Seq<TokenTree>) -> Option<(OperandV, Seq<TokenTree>)> {
    if ts.len() == 0 {
        None
    } else {
        match ts[0] {
            TokenTree::Leaf(Tok::Ident(b)) => {
                if b@ == "true"@ {
                    Some((OperandV::Lit(LitV::Bool(true)), ts.skip(1)))
                } else if b@ == "false"@ {
                    Some((OperandV::Lit(LitV::Bool(false)), ts.skip(1)))
                } else {
                    match sp_segs(ts.skip(1)) {
                        Some((segs, rem)) => Some((OperandV::Path(b@, segs), rem)),
                        None => None,
                    }
                }
            },
            TokenTree::Leaf(Tok::NumLit(raw)) => match spec_parse_num(raw@) {
                Some(n) => Some((OperandV::Lit(LitV::Num(n)), ts.skip(1))),
                None => None,
            },
            TokenTree::Leaf(Tok::StrLit(t)) => Some((OperandV::Lit(LitV::Str(t@)), ts.skip(1))),
            TokenTree::Group(d, items) => {
                if d == Delim::Bracket {
                    match sp_byte_items(items@) {
                        Some(bs) => {
                            if bs.len() > 0 {
                                Some((OperandV::Lit(LitV::ByteSeq(bs)), ts.skip(1)))
                            } else {
                                None
                            }
                        },
                        None => None,
                    }
                } else {
                    None
                }
            },
            _ => None,
        }
    }
}

pub proof fn lemma_sp_operand_rem(ts: Seq<TokenTree>)
    ensures
        sp_operand(ts) matches Some(r) ==> r.1.len() < ts.len(),
{
    if ts.len() > 0 {
        lemma_sp_segs_rem(ts.skip(1));
    }
}

/// The comparison operator at the front of the tokens, if any, longest
/// match first; `=` and `!` alone are no operator and consume nothing.
pub open spec fn sp_op(ts: Seq<TokenTree>) -> Option<(CmpOp, Seq<TokenTree>)> {
    if ts.len() >= 1 && tt_is_punct(ts[0], '=') {
        if ts.len() >= 2 && tt_is_punct(ts[1], '=') {
            Some((CmpOp::Eq, ts.skip(2)))
        } else {
            None
        }
    } else if ts.len() >= 1 && tt_is_punct(ts[0], '!') {
        if ts.len() >= 2 && tt_is_punct(ts[1], '=') {
            Some((CmpOp::Ne, ts.skip(2)))
        } else {
            None
        }
    } else if ts.len() >= 1 && tt_is_punct(ts[0], '>') {
        if ts.len() >= 2 && tt_is_punct(ts[1], '=') {
            Some((CmpOp::Ge, ts.skip(2)))
        } else {
            Some((CmpOp::Gt, ts.skip(1)))
        }
    } else if ts.len() >= 1 && tt_is_punct(ts[0], '<') {
        if ts.len() >= 2 && tt_is_punct(ts[1], '=') {
            Some((CmpOp::Le, ts.skip(2)))
        } else {
            Some((CmpOp::Lt, ts.skip(1)))
        }
    } else {
        None
    }
}

/// One comparison at the front of the tokens: an operand, optionally an
/// operator and a second operand.
pub open spec fn sp_cmp(ts: Seq<TokenTree>) -> Option<(CmpV, Seq<TokenTree>)> {
    match sp_operand(ts) {
        None => None,
        Some((l, r1)) => match sp_op(r1) {
            None => Some((CmpV { lhs: l, rhs: None }, r1)),
            Some((op, r2)) => match sp_operand(r2) {
                None => None,
                Some((rv, r3)) => Some((CmpV { lhs: l, rhs: Some((op, rv)) }, r3)),
            },
        },
    }
}

pub proof fn lemma_sp_cmp_rem(ts: Seq<TokenTree>)
    ensures
        sp_cmp(ts) matches Some(r) ==> r.1.len() < ts.len(),
{
    lemma_sp_operand_rem(ts);
    match sp_operand(ts) {
        None => {},
        Some((l, r1)) => {
            match sp_op(r1) {
                None => {},
                Some((op, r2)) => {
                    lemma_sp_operand_rem(r2);
                },
            }
        },
    }
}

/// The rest of a conjunction: further `&&`-joined comparisons after the
/// ones already collected.
pub open spec fn sp_and_cont(acc: Seq<CmpV>, ts: Seq<TokenTree>) -> Option<
    (Seq<CmpV>, Seq<TokenTree>),
>
    decreases ts.len(),
    via sp_and_cont_dec
{
    if ts.len() >= 2 && tt_is_punct(ts[0], '&') && tt_is_punct(ts[1], '&') {
        match sp_cmp(ts.skip(2)) {
            None => None,
            Some((c, r)) => sp_and_cont(acc.push(c), r),
        }
    } else {
        Some((acc, ts))
    }
}

#[via_fn]
proof fn sp_and_cont_dec(acc: Seq<CmpV>, ts: Seq<TokenTree>) {
    if ts.len() >= 2 && tt_is_punct(ts[0], '&') && tt_is_punct(ts[1], '&') {
        lemma_sp_cmp_rem(ts.skip(2));
    }
}

/// A conjunction at the front of the tokens.
pub open spec fn sp_and(ts: Seq<TokenTree>) -> Option<(Seq<CmpV>, Seq<TokenTree>)> {
    match sp_cmp(ts) {
        None => None,
        Some((c, r)) => sp_and_cont(seq![c], r),
    }
}

/// The rest of a disjunction: further `||`-joined conjunctions after
/// the ones already collected.
pub open spec fn sp_or_cont(acc: Seq<Seq<CmpV>>, ts: Seq<TokenTree>) -> Option<
    (Seq<Seq<CmpV>>, Seq<TokenTree>),
>
    decreases ts.len(),
    via sp_or_cont_dec
{
    if ts.len() >= 2 && tt_is_punct(ts[0], '|') && tt_is_punct(ts[1], '|') {
        match sp_and(ts.skip(2)) {
            None => None,
            Some((f, r)) => sp_or_cont(acc.push(f), r),
        }
    } else {
        Some((acc, ts))
    }
}

#[via_fn]
proof fn sp_or_cont_dec(acc: Seq<Seq<CmpV>>, ts: Seq<TokenTree>) {
    if ts.len() >= 2 && tt_is_punct(ts[0], '|') && tt_is_punct(ts[1], '|') {
        lemma_sp_and_rem(ts.skip(2));
    }
}

pub proof fn lemma_sp_and_rem(ts: Seq<TokenTree>)
    ensures
        sp_and(ts) matches Some(r) ==> r.1.len() < ts.len(),
{
    lemma_sp_cmp_rem(ts);
    match sp_cmp(ts) {
        None => {},
        Some((c, r)) => {
            lemma_sp_and_cont_rem(seq![c], r);
        },
    }
}

pub proof fn lemma_sp_and_cont_rem(acc: Seq<CmpV>, ts: Seq<TokenTree>)
    ensures
        sp_and_cont(acc, ts) matches Some(r) ==> r.1.len() <= ts.len(),
    decreases ts.len(),
{
    if ts.len() >= 2 && tt_is_punct(ts[0], '&') && tt_is_punct(ts[1], '&') {
        lemma_sp_cmp_rem(ts.skip(2));
        match sp_cmp(ts.skip(2)) {
            None => {},
            Some((c, r)) => {
                lemma_sp_and_cont_rem(acc.push(c), r);
            },
        }
    }
}

/// What a whole `when` token sequence denotes: its compiled predicate's
/// shape, or nothing when the grammar rejects it. The entire sequence
/// must be consumed.
pub open spec fn spec_parse_predicate(ts: Seq<TokenTree>) -> Option<Seq<Seq<CmpV>>> {
    match sp_or(ts) {
        None => None,
        Some((v, rem)) => {
            if rem.len() == 0 {
                Some(v)
            } else {
                None
            }
        },
    }
}

/// A disjunction at the front of the tokens.
pub open spec fn sp_or(ts: Seq<TokenTree>) -> Option<(Seq<Seq<CmpV>>, Seq<TokenTree>)> {
    match sp_and(ts) {
        None => None,
        Some((f, r)) => sp_or_cont(seq![f], r),
    }
}

// ---------------------------------------------------------------------
// Parsing
// ---------------------------------------------------------------------

/// Whether the leaf at `i` is the punctuation `c`.
fn punct_at(trees: &Vec<TokenTree>, i: usize, c: char) -> (r: bool)
    ensures
        r == (i < trees@.len() && tt_is_punct(trees@[i as int], c)),
        r ==> i < trees@.len(),
{
    if i >= trees.len() {
        return false;
    }
    match &trees[i] {
        TokenTree::Leaf(Tok::Punct(p)) => *p == c,
        _ => false,
    }
}

/// Parses one `Path` or `Literal` operand.
#[verifier::loop_isolation(false)]
#[verifier::rlimit(100)]
fn parse_operand(trees: &Vec<TokenTree>, i: &mut usize) -> (r: Result<Operand, CompileError>)
    requires
        *old(i) <= trees@.len(),
    ensures
        *final(i) <= trees@.len(),
        r is Ok ==> *old(i) < *final(i),
        match r {
            Ok(o) => sp_operand(trees@.skip(*old(i) as int)) == Some(
                (operand_view(o), trees@.skip(*final(i) as int)),
            ),
            Err(_) => sp_operand(trees@.skip(*old(i) as int)) is None,
        },
{
    let ghost s0 = trees@.skip(*old(i) as int);
    if *i >= trees.len() {
        proof {
            assert(s0.len() == 0);
        }
        return Err(
            CompileError::new(CompileErrorKind::Grammar, "", "expected operand in predicate"),
        );
    }
    proof {
        assert(s0[0] == trees@[*i as int]);
        assert(s0.skip(1) =~= trees@.skip(*i as int + 1));
    }
    match &trees[*i] {
        TokenTree::Leaf(Tok::Ident(s)) => {
            if str_eq(s.as_str(), "true") {
                *i = *i + 1;
                return Ok(Operand::Lit(LitVal::Bool(true)));
            }
            if str_eq(s.as_str(), "false") {
                *i = *i + 1;
                return Ok(Operand::Lit(LitVal::Bool(false)));
            }
            let base = s.clone();
            *i = *i + 1;
            let mut segs: Vec<PathSeg> = Vec::new();
            proof {
                assert(segs@.map_values(|g: PathSeg| seg_view(g)) =~= Seq::<SegV>::empty());
                assert(seg_concat(Seq::<SegV>::empty(), sp_segs(s0.skip(1))) == sp_segs(
                    s0.skip(1),
                )) by {
                    match sp_segs(s0.skip(1)) {
                        Some((s2, r)) => {
                            assert(Seq::<SegV>::empty() + s2 =~= s2);
                        },
                        None => {},
                    }
                }
            }
            loop
                invariant
                    *old(i) < *i <= trees@.len(),
                    sp_segs(s0.skip(1)) == seg_concat(
                        segs@.map_values(|g: PathSeg| seg_view(g)),
                        sp_segs(trees@.skip(*i as int)),
                    ),
                decreases trees@.len() - *i,
            {
                let ghost cur = trees@.skip(*i as int);
                let ghost accv = segs@.map_values(|g: PathSeg| seg_view(g));
                proof {
                    if *i < trees@.len() {
                        assert(cur[0] == trees@[*i as int]);
                        assert(cur.skip(1) =~= trees@.skip(*i as int + 1));
                    } else {
                        assert(cur.len() == 0);
                    }
                }
                if punct_at(trees, *i, '.') {
                    if *i + 1 >= trees.len() {
                        return Err(
                            CompileError::new(
                                CompileErrorKind::Grammar,
                                ".",
                                "expected field name after `.`",
                            ),
                        );
                    }
                    proof {
                        assert(cur[1] == trees@[*i as int + 1]);
                        assert(cur.skip(2) =~= trees@.skip(*i as int + 2));
                    }
                    match &trees[*i + 1] {
                        TokenTree::Leaf(Tok::Ident(f)) => {
                            proof {
                                match sp_segs(trees@.skip(*i as int + 2)) {
                                    Some((s2, r)) => {
                                        assert(accv + (seq![SegV::Field(f@)] + s2) =~= accv.push(
                                            SegV::Field(f@),
                                        ) + s2);
                                    },
                                    None => {},
                                }
                            }
                            segs.push(PathSeg::Field(f.clone()));
                            proof {
                                assert(segs@.map_values(|g: PathSeg| seg_view(g)) =~= accv.push(
                                    SegV::Field(f@),
                                ));
                            }
                            *i = *i + 2;
                        },
                        _ => {
                            return Err(
                                CompileError::new(
                                    CompileErrorKind::Grammar,
                                    ".",
                                    "expected field name after `.`",
                                ),
                            );
                        },
                    }
                } else if *i < trees.len() && (matches!(
                    &trees[*i],
                    TokenTree::Group(Delim::Bracket, _)
                )) {
                    let items = match &trees[*i] {
                        TokenTree::Group(_, items) => items,
                        TokenTree::Leaf(_) => {
                            return Err(
                                CompileError::new(CompileErrorKind::Grammar, "", "expected index"),
                            );
                        },
                    };
                    if items.len() != 1 {
                        return Err(
                            CompileError::new(
                                CompileErrorKind::Grammar,
                                "[",
                                "expected a single integer index",
                            ),
                        );
                    }
                    let idx = match &items[0] {
                        TokenTree::Leaf(Tok::NumLit(raw)) => {
                            match parse_num(raw.as_str()) {
                                Some(n) => {
                                    if n.scale == 0 && n.mant >= 0 {
                                        n.mant as u64
                                    } else {
                                        return Err(
                                            CompileError::new(
                                                CompileErrorKind::NumericLiteral,
                                                raw.as_str(),
                                                "index must be a non-negative integer",
                                            ),
                                        );
                                    }
                                },
                                None => {
                                    return Err(
                                        CompileError::new(
                                            CompileErrorKind::NumericLiteral,
                                            raw.as_str(),
                                            "index must be a non-negative integer",
                                        ),
                                    );
                                },
                            }
                        },
                        _ => {
                            return Err(
                                CompileError::new(
                                    CompileErrorKind::Grammar,
                                    "[",
                                    "expected a single integer index",
                                ),
                            );
                        },
                    };
                    proof {
                        match sp_segs(trees@.skip(*i as int + 1)) {
                            Some((s2, r)) => {
                                assert(accv + (seq![SegV::Index(idx)] + s2) =~= accv.push(
                                    SegV::Index(idx),
                                ) + s2);
                            },
                            None => {},
                        }
                    }
                    segs.push(PathSeg::Index(idx));
                    proof {
                        assert(segs@.map_values(|g: PathSeg| seg_view(g)) =~= accv.push(
                            SegV::Index(idx),
                        ));
                    }
                    *i = *i + 1;
                } else {
                    proof {
                        assert(sp_segs(cur) == Some((Seq::<SegV>::empty(), cur)));
                        assert(accv + Seq::<SegV>::empty() =~= accv);
                    }
                    break ;
                }
            }
            proof {
                assert(operand_view(Operand::Path(PathExpr { base, segs })) == OperandV::Path(
                    base@,
                    segs@.map_values(|g: PathSeg| seg_view(g)),
                ));
            }
            Ok(Operand::Path(PathExpr { base, segs }))
        },
        TokenTree::Leaf(Tok::NumLit(raw)) => {
            match parse_num(raw.as_str()) {
                Some(n) => {
                    *i = *i + 1;
                    Ok(Operand::Lit(LitVal::Num(n)))
                },
                None => Err(
                    CompileError::new(
                        CompileErrorKind::NumericLiteral,
                        raw.as_str(),
                        "malformed numeric literal in predicate",
                    ),
                ),
            }
        },
        TokenTree::Leaf(Tok::StrLit(s)) => {
            let text = s.clone();
            *i = *i + 1;
            Ok(Operand::Lit(LitVal::Str(text)))
        },
        TokenTree::Group(Delim::Bracket, items) => {
            let mut bytes: Vec<i64> = Vec::new();
            let mut j: usize = 0;
            proof {
                vstd::std_specs::vec::axiom_spec_len(items);
                assert(items@.skip(0) =~= items@);
                assert(opt_concat(bytes@, sp_byte_items(items@)) == sp_byte_items(items@)) by {
                    match sp_byte_items(items@) {
                        Some(r) => {
                            assert(bytes@ + r =~= r);
                        },
                        None => {},
                    }
                }
            }
            while j < items.len()
                invariant
                    j <= items@.len(),
                    sp_byte_items(items@) == opt_concat(
                        bytes@,
                        sp_byte_items(items@.skip(j as int)),
                    ),
                decreases items@.len() - j,
            {
                let ghost jcur = items@.skip(j as int);
                let ghost bacc = bytes@;
                proof {
                    assert(jcur[0] == items@[j as int]);
                    assert(jcur.skip(1) =~= items@.skip(j as int + 1));
                }
                let m: i64 = match &items[j] {
                    TokenTree::Leaf(Tok::NumLit(raw)) => {
                        match parse_num(raw.as_str()) {
                            Some(n) => {
                                if n.scale == 0 {
                                    n.mant
                                } else {
                                    return Err(
                                        CompileError::new(
                                            CompileErrorKind::NumericLiteral,
                                            raw.as_str(),
                                            "byte-sequence elements must be integers",
                                        ),
                                    );
                                }
                            },
                            None => {
                                return Err(
                                    CompileError::new(
                                        CompileErrorKind::NumericLiteral,
                                        raw.as_str(),
                                        "byte-sequence elements must be integers",
                                    ),
                                );
                            },
                        }
                    },
                    _ => {
                        return Err(
                            CompileError::new(
                                CompileErrorKind::Grammar,
                                "[",
                                "expected an integer in byte-sequence literal",
                            ),
                        );
                    },
                };
                bytes.push(m);
                if j + 1 < items.len() {
                    proof {
                        assert(jcur[1] == items@[j as int + 1]);
                        assert(jcur.skip(2) =~= items@.skip(j as int + 2));
                    }
                    match &items[j + 1] {
                        TokenTree::Leaf(Tok::Punct(pc)) => {
                            if *pc != ',' {
                                return Err(
                                    CompileError::new(
                                        CompileErrorKind::Grammar,
                                        "[",
                                        "expected `,` between byte-sequence elements",
                                    ),
                                );
                            }
                        },
                        _ => {
                            return Err(
                                CompileError::new(
                                    CompileErrorKind::Grammar,
                                    "[",
                                    "expected `,` between byte-sequence elements",
                                ),
                            );
                        },
                    }
                    if j + 2 >= items.len() {
                        return Err(
                            CompileError::new(
                                CompileErrorKind::Grammar,
                                ",",
                                "trailing `,` in byte-sequence literal",
                            ),
                        );
                    }
                    proof {
                        match sp_byte_items(items@.skip(j as int + 2)) {
                            Some(r) => {
                                assert(bacc + (seq![m] + r) =~= bacc.push(m) + r);
                            },
                            None => {},
                        }
                        assert(bytes@ =~= bacc.push(m));
                    }
                    j += 2;
                } else {
                    proof {
                        assert(items@.skip(j as int + 1) =~= Seq::<TokenTree>::empty());
                        assert(sp_byte_items(jcur) == Some(seq![m]));
                        assert(bacc + seq![m] =~= bacc.push(m) + Seq::<i64>::empty());
                        assert(bytes@ =~= bacc.push(m));
                        assert(sp_byte_items(items@.skip(j as int + 1)) == Some(
                            Seq::<i64>::empty(),
                        ));
                    }
                    j += 1;
                }
            }
            proof {
                assert(items@.skip(items@.len() as int) =~= Seq::<TokenTree>::empty());
                match sp_byte_items(items@) {
                    Some(full) => {
                        assert(full =~= bytes@);
                    },
                    None => {},
                }
            }
            if bytes.len() == 0 {
                return Err(
                    CompileError::new(
                        CompileErrorKind::Grammar,
                        "[",
                        "empty byte-sequence literal",
                    ),
                );
            }
            *i = *i + 1;
            Ok(Operand::Lit(LitVal::ByteSeq(bytes)))
        },
        _ => Err(CompileError::new(CompileErrorKind::Grammar, "", "expected operand in predicate")),
    }
}

/// Consumes a comparison operator, longest match first, if one is next.
fn parse_cmp_op(trees: &Vec<TokenTree>, i: &mut usize) -> (r: Option<CmpOp>)
    requires
        *old(i) <= trees@.len(),
    ensures
        *final(i) <= trees@.len(),
        *old(i) <= *final(i),
        match r {
            Some(op) => sp_op(trees@.skip(*old(i) as int)) == Some(
                (op, trees@.skip(*final(i) as int)),
            ),
            None => sp_op(trees@.skip(*old(i) as int)) is None && *final(i) == *old(i),
        },
{
    let ghost s0 = trees@.skip(*old(i) as int);
    proof {
        vstd::std_specs::vec::axiom_spec_len(trees);
        if (*old(i) as int) < trees@.len() {
            assert(s0[0] == trees@[*old(i) as int]);
            assert(s0.skip(1) =~= trees@.skip(*old(i) as int + 1));
            if (*old(i) as int) + 1 < trees@.len() {
                assert(s0[1] == trees@[*old(i) as int + 1]);
                assert(s0.skip(2) =~= trees@.skip(*old(i) as int + 2));
            }
        }
    }
    if punct_at(trees, *i, '=') {
        if punct_at(trees, *i + 1, '=') {
            *i = *i + 2;
            return Some(CmpOp::Eq);
        }
        return None;
    }
    if punct_at(trees, *i, '!') {
        if punct_at(trees, *i + 1, '=') {
            *i = *i + 2;
            return Some(CmpOp::Ne);
        }
        return None;
    }
    if punct_at(trees, *i, '>') {
        if punct_at(trees, *i + 1, '=') {
            *i = *i + 2;
            return Some(CmpOp::Ge);
        }
        *i = *i + 1;
        return Some(CmpOp::Gt);
    }
    if punct_at(trees, *i, '<') {
        if punct_at(trees, *i + 1, '=') {
            *i = *i + 2;
            return Some(CmpOp::Le);
        }
        *i = *i + 1;
        return Some(CmpOp::Lt);
    }
    None
}

/// Parses one comparison: an operand, optionally compared to another.
fn parse_cmp(trees: &Vec<TokenTree>, i: &mut usize) -> (r: Result<CmpExpr, CompileError>)
    requires
        *old(i) <= trees@.len(),
    ensures
        *final(i) <= trees@.len(),
        r is Ok ==> *old(i) < *final(i),
        match r {
            Ok(c) => sp_cmp(trees@.skip(*old(i) as int)) == Some(
                (cmp_view(c), trees@.skip(*final(i) as int)),
            ),
            Err(_) => sp_cmp(trees@.skip(*old(i) as int)) is None,
        },
{
    let lhs = match parse_operand(trees, i) {
        Ok(o) => o,
        Err(e) => {
            return Err(e);
        },
    };
    match parse_cmp_op(trees, i) {
        None => Ok(CmpExpr { lhs, rhs: None }),
        Some(op) => {
            let rhs = match parse_operand(trees, i) {
                Ok(o) => o,
                Err(e) => {
                    return Err(e);
                },
            };
            Ok(CmpExpr { lhs, rhs: Some((op, rhs)) })
        },
    }
}

/// Parses a conjunction: comparisons joined by `&&`.
#[verifier::loop_isolation(false)]
fn parse_and(trees: &Vec<TokenTree>, i: &mut usize) -> (r: Result<AndExpr, CompileError>)
    requires
        *old(i) <= trees@.len(),
    ensures
        *final(i) <= trees@.len(),
        r is Ok ==> *old(i) < *final(i),
        match r {
            Ok(a) => sp_and(trees@.skip(*old(i) as int)) == Some(
                (and_view(a), trees@.skip(*final(i) as int)),
            ),
            Err(_) => sp_and(trees@.skip(*old(i) as int)) is None,
        },
{
    let ghost s0 = trees@.skip(*old(i) as int);
    let first = match parse_cmp(trees, i) {
        Ok(c) => c,
        Err(e) => {
            return Err(e);
        },
    };
    let mut factors: Vec<CmpExpr> = Vec::new();
    factors.push(first);
    proof {
        assert(factors@.map_values(|c: CmpExpr| cmp_view(c)) =~= seq![cmp_view(first)]);
    }
    proof {
        vstd::std_specs::vec::axiom_spec_len(trees);
    }
    while punct_at(trees, *i, '&') && punct_at(trees, *i + 1, '&')
        invariant
            *old(i) < *i <= trees@.len(),
            sp_and(s0) == sp_and_cont(
                factors@.map_values(|c: CmpExpr| cmp_view(c)),
                trees@.skip(*i as int),
            ),
        decreases trees@.len() - *i,
    {
        let ghost cur = trees@.skip(*i as int);
        let ghost accv = factors@.map_values(|c: CmpExpr| cmp_view(c));
        proof {
            assert(cur[0] == trees@[*i as int]);
            assert(cur[1] == trees@[*i as int + 1]);
            assert(cur.skip(2) =~= trees@.skip(*i as int + 2));
        }
        *i = *i + 2;
        match parse_cmp(trees, i) {
            Ok(c) => {
                factors.push(c);
                proof {
                    assert(factors@.map_values(|x: CmpExpr| cmp_view(x)) =~= accv.push(
                        cmp_view(c),
                    ));
                }
            },
            Err(e) => {
                return Err(e);
            },
        }
    }
    Ok(AndExpr { factors })
}

/// Parses a whole predicate: conjunctions joined by `||`, consuming the
/// entire token sequence.
#[verifier::loop_isolation(false)]
pub fn parse_predicate(trees: &Vec<TokenTree>) -> (r: Result<OrExpr, CompileError>)
    ensures
        match r {
            Ok(p) => spec_parse_predicate(trees@) == Some(pred_view(p)),
            Err(_) => spec_parse_predicate(trees@) is None,
        },
{
    let mut i: usize = 0;
    proof {
        assert(trees@.skip(0) =~= trees@);
    }
    let first = match parse_and(trees, &mut i) {
        Ok(a) => a,
        Err(e) => {
            return Err(e);
        },
    };
    let mut terms: Vec<AndExpr> = Vec::new();
    terms.push(first);
    proof {
        assert(terms@.map_values(|a: AndExpr| and_view(a)) =~= seq![and_view(first)]);
    }
    proof {
        vstd::std_specs::vec::axiom_spec_len(trees);
    }
    while punct_at(trees, i, '|') && punct_at(trees, i + 1, '|')
        invariant
            0 < i <= trees@.len(),
            sp_or(trees@) == sp_or_cont(
                terms@.map_values(|a: AndExpr| and_view(a)),
                trees@.skip(i as int),
            ),
        decreases trees@.len() - i,
    {
        let ghost cur = trees@.skip(i as int);
        let ghost accv = terms@.map_values(|a: AndExpr| and_view(a));
        proof {
            assert(cur[0] == trees@[i as int]);
            assert(cur[1] == trees@[i as int + 1]);
            assert(cur.skip(2) =~= trees@.skip(i as int + 2));
        }
        i = i + 2;
        match parse_and(trees, &mut i) {
            Ok(a) => {
                terms.push(a);
                proof {
                    assert(terms@.map_values(|x: AndExpr| and_view(x)) =~= accv.push(and_view(a)));
                }
            },
            Err(e) => {
                return Err(e);
            },
        }
    }
    if i < trees.len() {
        proof {
            assert(trees@.skip(i as int).len() > 0);
        }
        return Err(
            CompileError::new(CompileErrorKind::Grammar, "", "unexpected token in predicate"),
        );
    }
    proof {
        assert(trees@.skip(i as int).len() == 0);
    }
    Ok(OrExpr { terms })
}

// ---------------------------------------------------------------------
// Evaluation semantics
// ---------------------------------------------------------------------

/// First binding of `name` in a record's field list.
pub open spec fn lookup_field(fields: Seq<(String, Value)>, name: Seq<char>) -> Option<Value>
    decreases fields.len(),
{
    if fields.len() == 0 {
        None
    } else if fields[0].0@ == name {
        Some(fields[0].1)
    } else {
        lookup_field(fields.skip(1), name)
    }
}

/// Resolves the remaining path steps against a value: field access walks
/// records, integer indexing reads one byte out of a byte sequence.
pub open spec fn spec_resolve_from(v: Value, segs: Seq<PathSeg>) -> Result<Value, RuntimeError>
    decreases segs.len(),
{
    if segs.len() == 0 {
        Ok(v)
    } else {
        match segs[0] {
            PathSeg::Field(f) => match v {
                Value::Record(fields) => match lookup_field(fields@, f@) {
                    Some(v2) => spec_resolve_from(v2, segs.skip(1)),
                    None => Err(RuntimeError::UnknownField),
                },
                _ => Err(RuntimeError::TypeMismatch),
            },
            PathSeg::Index(i) => match v {
                Value::Bytes(b) => if i < b@.len() {
                    spec_resolve_from(
                        Value::Num(Num { mant: b@[i as int] as i64, scale: 0 }),
                        segs.skip(1),
                    )
                } else {
                    Err(RuntimeError::IndexOutOfBounds)
                },
                _ => Err(RuntimeError::TypeMismatch),
            },
        }
    }
}

/// What one resolved operand denotes: a record value, or a byte-sequence
/// literal kept apart for its element-wise comparison rule.
pub enum EvalSide {
    V(Value),
    L(LitVal),
}

/// Resolves one operand against the bound step record.
pub open spec fn spec_operand(o: Operand, binding: Seq<char>, v: Value) -> Result<
    EvalSide,
    RuntimeError,
> {
    match o {
        Operand::Path(p) => {
            if p.base@ == binding {
                match spec_resolve_from(v, p.segs@) {
                    Ok(rv) => Ok(EvalSide::V(rv)),
                    Err(e) => Err(e),
                }
            } else {
                Err(RuntimeError::UnknownBinding)
            }
        },
        Operand::Lit(l) => Ok(EvalSide::L(l)),
    }
}

/// How a comparison outcome answers one operator.
pub open spec fn spec_apply_cmp(ord: NumOrd, op: CmpOp) -> bool {
    match op {
        CmpOp::Eq => ord is Eq,
        CmpOp::Ne => !(ord is Eq),
        CmpOp::Gt => ord is Gt,
        CmpOp::Lt => ord is Lt,
        CmpOp::Ge => ord is Gt || ord is Eq,
        CmpOp::Le => ord is Lt || ord is Eq,
    }
}

/// Element-wise equality of a byte sequence against a bracketed literal:
/// lengths must match, else the comparison is false.
pub open spec fn spec_bytes_match(b: Seq<u8>, l: Seq<i64>) -> bool {
    b.len() == l.len() && forall|i: int| 0 <= i < b.len() ==> b[i] as int == #[trigger] l[i]
}

/// The boolean a `Num`-against-`Num` comparison yields, or an overflow
/// error when either side is not well formed.
pub open spec fn spec_cmp_nums(a: Num, b: Num, op: CmpOp) -> Result<bool, RuntimeError> {
    if a.wf() && b.wf() {
        Ok(spec_apply_cmp(spec_num_cmp(a, b), op))
    } else {
        Err(RuntimeError::NumericOverflow)
    }
}

/// Comparison semantics over two resolved sides: numbers compare by
/// value under any operator; strings, booleans and byte sequences
/// compare under equality and inequality only; byte sequences compare
/// element-wise; everything else is a type mismatch.
pub open spec fn spec_cmp_sides(a: EvalSide, op: CmpOp, b: EvalSide) -> Result<
    bool,
    RuntimeError,
> {
    match (a, b) {
        (EvalSide::V(Value::Num(x)), EvalSide::V(Value::Num(y))) => spec_cmp_nums(x, y, op),
        (EvalSide::V(Value::Num(x)), EvalSide::L(LitVal::Num(y))) => spec_cmp_nums(x, y, op),
        (EvalSide::L(LitVal::Num(x)), EvalSide::V(Value::Num(y))) => spec_cmp_nums(x, y, op),
        (EvalSide::L(LitVal::Num(x)), EvalSide::L(LitVal::Num(y))) => spec_cmp_nums(x, y, op),
        (EvalSide::V(Value::Str(x)), EvalSide::V(Value::Str(y))) => spec_cmp_eq_only(
            x@ == y@,
            op,
        ),
        (EvalSide::V(Value::Str(x)), EvalSide::L(LitVal::Str(y))) => spec_cmp_eq_only(
            x@ == y@,
            op,
        ),
        (EvalSide::L(LitVal::Str(x)), EvalSide::V(Value::Str(y))) => spec_cmp_eq_only(
            x@ == y@,
            op,
        ),
        (EvalSide::L(LitVal::Str(x)), EvalSide::L(LitVal::Str(y))) => spec_cmp_eq_only(
            x@ == y@,
            op,
        ),
        (EvalSide::V(Value::Bool(x)), EvalSide::V(Value::Bool(y))) => spec_cmp_eq_only(x == y, op),
        (EvalSide::V(Value::Bool(x)), EvalSide::L(LitVal::Bool(y))) => spec_cmp_eq_only(x == y, op),
        (EvalSide::L(LitVal::Bool(x)), EvalSide::V(Value::Bool(y))) => spec_cmp_eq_only(x == y, op),
        (EvalSide::L(LitVal::Bool(x)), EvalSide::L(LitVal::Bool(y))) => spec_cmp_eq_only(
            x == y,
            op,
        ),
        (EvalSide::V(Value::Bytes(x)), EvalSide::V(Value::Bytes(y))) => spec_cmp_eq_only(
            x@ == y@,
            op,
        ),
        (EvalSide::V(Value::Bytes(x)), EvalSide::L(LitVal::ByteSeq(y))) => spec_cmp_eq_only(
            spec_bytes_match(x@, y@),
            op,
        ),
        (EvalSide::L(LitVal::ByteSeq(x)), EvalSide::V(Value::Bytes(y))) => spec_cmp_eq_only(
            spec_bytes_match(y@, x@),
            op,
        ),
        (EvalSide::L(LitVal::ByteSeq(x)), EvalSide::L(LitVal::ByteSeq(y))) => spec_cmp_eq_only(
            x@ == y@,
            op,
        ),
        _ => Err(RuntimeError::TypeMismatch),
    }
}

/// Equality-class comparisons: `==` and `!=` are answered from the given
/// equality; ordering operators are a type mismatch.
pub open spec fn spec_cmp_eq_only(eq: bool, op: CmpOp) -> Result<bool, RuntimeError> {
    match op {
        CmpOp::Eq => Ok(eq),
        CmpOp::Ne => Ok(!eq),
        _ => Err(RuntimeError::TypeMismatch),
    }
}

/// One comparison: a bare operand must resolve to a boolean; a pair is
/// compared by `spec_cmp_sides`.
pub open spec fn spec_eval_cmp(c: CmpExpr, binding: Seq<char>, v: Value) -> Result<
    bool,
    RuntimeError,
> {
    match spec_operand(c.lhs, binding, v) {
        Err(e) => Err(e),
        Ok(ls) => match c.rhs {
            None => match ls {
                EvalSide::V(Value::Bool(b)) => Ok(b),
                EvalSide::L(LitVal::Bool(b)) => Ok(b),
                _ => Err(RuntimeError::TypeMismatch),
            },
            Some((op, ro)) => match spec_operand(ro, binding, v) {
                Err(e) => Err(e),
                Ok(rs) => spec_cmp_sides(ls, op, rs),
            },
        },
    }
}

/// A conjunction short-circuits left to right.
pub open spec fn spec_eval_and(fs: Seq<CmpExpr>, binding: Seq<char>, v: Value) -> Result<
    bool,
    RuntimeError,
>
    decreases fs.len(),
{
    if fs.len() == 0 {
        Ok(true)
    } else {
        match spec_eval_cmp(fs[0], binding, v) {
            Err(e) => Err(e),
            Ok(false) => Ok(false),
            Ok(true) => spec_eval_and(fs.skip(1), binding, v),
        }
    }
}

/// A disjunction short-circuits left to right.
pub open spec fn spec_eval_or(ts: Seq<AndExpr>, binding: Seq<char>, v: Value) -> Result<
    bool,
    RuntimeError,
>
    decreases ts.len(),
{
    if ts.len() == 0 {
        Ok(false)
    } else {
        match spec_eval_and(ts[0].factors@, binding, v) {
            Err(e) => Err(e),
            Ok(true) => Ok(true),
            Ok(false) => spec_eval_or(ts.skip(1), binding, v),
        }
    }
}

/// What a whole predicate yields on the record bound to `binding`.
pub open spec fn spec_eval_pred(p: OrExpr, binding: Seq<char>, v: Value) -> Result<
    bool,
    RuntimeError,
> {
    spec_eval_or(p.terms@, binding, v)
}

// ---------------------------------------------------------------------
// Evaluation
// ---------------------------------------------------------------------

/// A resolved operand, borrowed where possible: a reference into the
/// record, one byte lifted to a number, or a literal.
enum Resolved<'a> {
    Ref(&'a Value),
    Byte(Num),
    Lit(&'a LitVal),
}

/// Looks a field up in a record's field list.
fn field_of<'a>(fields: &'a Vec<(String, Value)>, name: &str) -> (r: Option<&'a Value>)
    ensures
        match r {
            Some(v) => lookup_field(fields@, name@) == Some(*v),
            None => lookup_field(fields@, name@) is None,
        },
{
    let mut i: usize = 0;
    assert(fields@.skip(0) =~= fields@);
    while i < fields.len()
        invariant
            i <= fields@.len(),
            lookup_field(fields@, name@) == lookup_field(fields@.skip(i as int), name@),
        decreases fields@.len() - i,
    {
        assert(fields@.skip(i as int)[0] == fields@[i as int]);
        if str_eq(fields[i].0.as_str(), name) {
            return Some(&fields[i].1);
        }
        assert(fields@.skip(i as int).skip(1) =~= fields@.skip(i + 1));
        i += 1;
    }
    None
}

/// Resolves one operand against the bound record.
#[verifier::loop_isolation(false)]
fn resolve_operand<'a>(o: &'a Operand, binding: &str, v: &'a Value) -> (r: Result<
    Resolved<'a>,
    RuntimeError,
>)
    ensures
        match r {
            Ok(Resolved::Ref(rv)) => spec_operand(*o, binding@, *v) == Ok::<
                EvalSide,
                RuntimeError,
            >(EvalSide::V(*rv)),
            Ok(Resolved::Byte(n)) => spec_operand(*o, binding@, *v) == Ok::<
                EvalSide,
                RuntimeError,
            >(EvalSide::V(Value::Num(n))),
            Ok(Resolved::Lit(l)) => spec_operand(*o, binding@, *v) == Ok::<
                EvalSide,
                RuntimeError,
            >(EvalSide::L(*l)),
            Err(e) => spec_operand(*o, binding@, *v) == Err::<EvalSide, RuntimeError>(e),
        },
{
    match o {
        Operand::Lit(l) => Ok(Resolved::Lit(l)),
        Operand::Path(p) => {
            if !str_eq(p.base.as_str(), binding) {
                return Err(RuntimeError::UnknownBinding);
            }
            let mut cur: &Value = v;
            let mut k: usize = 0;
            assert(p.segs@.skip(0) =~= p.segs@);
            while k < p.segs.len()
                invariant
                    k <= p.segs@.len(),
                    spec_resolve_from(*v, p.segs@) == spec_resolve_from(
                        *cur,
                        p.segs@.skip(k as int),
                    ),
                decreases p.segs@.len() - k,
            {
                proof {
                    assert(p.segs@.skip(k as int)[0] == p.segs@[k as int]);
                    assert(p.segs@.skip(k as int).skip(1) =~= p.segs@.skip(k as int + 1));
                }
                match &p.segs[k] {
                    PathSeg::Field(f) => {
                        match cur {
                            Value::Record(fields) => {
                                match field_of(fields, f.as_str()) {
                                    Some(v2) => {
                                        cur = v2;
                                    },
                                    None => {
                                        return Err(RuntimeError::UnknownField);
                                    },
                                }
                            },
                            _ => {
                                return Err(RuntimeError::TypeMismatch);
                            },
                        }
                    },
                    PathSeg::Index(i) => {
                        match cur {
                            Value::Bytes(b) => {
                                if *i < b.len() as u64 {
                                    let byte = b[*i as usize];
                                    proof {
                                        assert(p.segs@[k as int] == PathSeg::Index(*i));
                                        assert(*cur == Value::Bytes(*b));
                                        assert(spec_resolve_from(*cur, p.segs@.skip(k as int))
                                            == spec_resolve_from(
                                            Value::Num(Num { mant: b@[*i as int] as i64, scale: 0 }),
                                            p.segs@.skip(k as int).skip(1),
                                        ));
                                        assert(byte == b@[*i as int]);
                                    }
                                    if k + 1 == p.segs.len() {
                                        proof {
                                            assert(p.segs@.skip(k as int + 1)
                                                =~= Seq::<PathSeg>::empty());
                                        }
                                        return Ok(
                                            Resolved::Byte(Num { mant: byte as i64, scale: 0 }),
                                        );
                                    }
                                    // A byte is a number; any further step on it
                                    // is a type mismatch, as the semantics says.
                                    proof {
                                        assert(p.segs@.skip(k as int + 1).len() > 0);
                                    }
                                    return Err(RuntimeError::TypeMismatch);
                                } else {
                                    return Err(RuntimeError::IndexOutOfBounds);
                                }
                            },
                            _ => {
                                return Err(RuntimeError::TypeMismatch);
                            },
                        }
                    },
                }
                k += 1;
            }
            proof {
                assert(p.segs@.skip(p.segs@.len() as int) =~= Seq::<PathSeg>::empty());
            }
            Ok(Resolved::Ref(cur))
        },
    }
}

/// Compares two byte sequences for equality.
fn bytes_eq(a: &Vec<u8>, b: &Vec<u8>) -> (r: bool)
    ensures
        r == (a@ == b@),
{
    if a.len() != b.len() {
        assert(a@ != b@);
        return false;
    }
    let mut i: usize = 0;
    while i < a.len()
        invariant
            i <= a@.len() == b@.len(),
            forall|j: int| 0 <= j < i ==> a@[j] == b@[j],
        decreases a@.len() - i,
    {
        if a[i] != b[i] {
            return false;
        }
        i += 1;
    }
    proof {
        assert(a@ =~= b@);
    }
    true
}

/// Compares two byte-sequence literals for equality.
fn ints_eq(a: &Vec<i64>, b: &Vec<i64>) -> (r: bool)
    ensures
        r == (a@ == b@),
{
    if a.len() != b.len() {
        assert(a@ != b@);
        return false;
    }
    let mut i: usize = 0;
    while i < a.len()
        invariant
            i <= a@.len() == b@.len(),
            forall|j: int| 0 <= j < i ==> a@[j] == b@[j],
        decreases a@.len() - i,
    {
        if a[i] != b[i] {
            return false;
        }
        i += 1;
    }
    proof {
        assert(a@ =~= b@);
    }
    true
}

/// Element-wise comparison of a byte sequence against a bracketed
/// literal.
fn bytes_match_lit(b: &Vec<u8>, l: &Vec<i64>) -> (r: bool)
    ensures
        r == spec_bytes_match(b@, l@),
{
    if b.len() != l.len() {
        return false;
    }
    let mut i: usize = 0;
    while i < b.len()
        invariant
            i <= b@.len() == l@.len(),
            forall|j: int| 0 <= j < i ==> b@[j] as int == #[trigger] l@[j],
        decreases b@.len() - i,
    {
        if (b[i] as i64) != l[i] {
            return false;
        }
        i += 1;
    }
    true
}

/// Answers `==`/`!=` from an equality; ordering operators mismatch.
fn cmp_eq_only(eq: bool, op: CmpOp) -> (r: Result<bool, RuntimeError>)
    ensures
        r == spec_cmp_eq_only(eq, op),
{
    match op {
        CmpOp::Eq => Ok(eq),
        CmpOp::Ne => Ok(!eq),
        _ => Err(RuntimeError::TypeMismatch),
    }
}

/// Compares two numbers under an operator, checking well-formedness.
fn cmp_nums(a: Num, b: Num, op: CmpOp) -> (r: Result<bool, RuntimeError>)
    ensures
        r == spec_cmp_nums(a, b, op),
{
    if a.scale > crate::num::MAX_SCALE || b.scale > crate::num::MAX_SCALE {
        return Err(RuntimeError::NumericOverflow);
    }
    let ord = num_cmp(a, b);
    let x = match op {
        CmpOp::Eq => matches!(ord, NumOrd::Eq),
        CmpOp::Ne => !matches!(ord, NumOrd::Eq),
        CmpOp::Gt => matches!(ord, NumOrd::Gt),
        CmpOp::Lt => matches!(ord, NumOrd::Lt),
        CmpOp::Ge => matches!(ord, NumOrd::Gt) || matches!(ord, NumOrd::Eq),
        CmpOp::Le => matches!(ord, NumOrd::Lt) || matches!(ord, NumOrd::Eq),
    };
    Ok(x)
}

/// Extracts the number a resolved side carries, if any.
fn side_num(s: &Resolved<'_>) -> (r: Option<Num>)
    ensures
        match r {
            Some(n) => (side_view(*s) matches EvalSide::V(Value::Num(m)) && m == n) || (side_view(
                *s,
            ) matches EvalSide::L(LitVal::Num(m)) && m == n),
            None => !(side_view(*s) matches EvalSide::V(Value::Num(_))) && !(side_view(*s)
                matches EvalSide::L(LitVal::Num(_))),
        },
{
    match s {
        Resolved::Ref(Value::Num(n)) => Some(*n),
        Resolved::Byte(n) => Some(*n),
        Resolved::Lit(LitVal::Num(n)) => Some(*n),
        _ => None,
    }
}

/// The side a resolved operand denotes.
spec fn side_view(s: Resolved<'_>) -> EvalSide {
    match s {
        Resolved::Ref(v) => EvalSide::V(*v),
        Resolved::Byte(n) => EvalSide::V(Value::Num(n)),
        Resolved::Lit(l) => EvalSide::L(*l),
    }
}

/// Compares two resolved sides under an operator.
fn cmp_sides(a: &Resolved<'_>, op: CmpOp, b: &Resolved<'_>) -> (r: Result<bool, RuntimeError>)
    ensures
        r == spec_cmp_sides(side_view(*a), op, side_view(*b)),
{
    match (side_num(a), side_num(b)) {
        (Some(x), Some(y)) => {
            return cmp_nums(x, y, op);
        },
        _ => {},
    }
    match (a, b) {
        (Resolved::Ref(Value::Str(x)), Resolved::Ref(Value::Str(y))) => cmp_eq_only(
            str_eq(x.as_str(), y.as_str()),
            op,
        ),
        (Resolved::Ref(Value::Str(x)), Resolved::Lit(LitVal::Str(y))) => cmp_eq_only(
            str_eq(x.as_str(), y.as_str()),
            op,
        ),
        (Resolved::Lit(LitVal::Str(x)), Resolved::Ref(Value::Str(y))) => cmp_eq_only(
            str_eq(x.as_str(), y.as_str()),
            op,
        ),
        (Resolved::Lit(LitVal::Str(x)), Resolved::Lit(LitVal::Str(y))) => cmp_eq_only(
            str_eq(x.as_str(), y.as_str()),
            op,
        ),
        (Resolved::Ref(Value::Bool(x)), Resolved::Ref(Value::Bool(y))) => cmp_eq_only(*x == *y, op),
        (Resolved::Ref(Value::Bool(x)), Resolved::Lit(LitVal::Bool(y))) => cmp_eq_only(
            *x == *y,
            op,
        ),
        (Resolved::Lit(LitVal::Bool(x)), Resolved::Ref(Value::Bool(y))) => cmp_eq_only(
            *x == *y,
            op,
        ),
        (Resolved::Lit(LitVal::Bool(x)), Resolved::Lit(LitVal::Bool(y))) => cmp_eq_only(
            *x == *y,
            op,
        ),
        (Resolved::Ref(Value::Bytes(x)), Resolved::Ref(Value::Bytes(y))) => cmp_eq_only(
            bytes_eq(x, y),
            op,
        ),
        (Resolved::Ref(Value::Bytes(x)), Resolved::Lit(LitVal::ByteSeq(y))) => cmp_eq_only(
            bytes_match_lit(x, y),
            op,
        ),
        (Resolved::Lit(LitVal::ByteSeq(x)), Resolved::Ref(Value::Bytes(y))) => cmp_eq_only(
            bytes_match_lit(y, x),
            op,
        ),
        (Resolved::Lit(LitVal::ByteSeq(x)), Resolved::Lit(LitVal::ByteSeq(y))) => cmp_eq_only(
            ints_eq(x, y),
            op,
        ),
        _ => Err(RuntimeError::TypeMismatch),
    }
}

/// Evaluates one comparison against the bound record.
fn eval_cmp(c: &CmpExpr, binding: &str, v: &Value) -> (r: Result<bool, RuntimeError>)
    ensures
        r == spec_eval_cmp(*c, binding@, *v),
{
    let ls = match resolve_operand(&c.lhs, binding, v) {
        Ok(s) => s,
        Err(e) => {
            return Err(e);
        },
    };
    match &c.rhs {
        None => {
            match &ls {
                Resolved::Ref(Value::Bool(b)) => Ok(*b),
                Resolved::Lit(LitVal::Bool(b)) => Ok(*b),
                _ => Err(RuntimeError::TypeMismatch),
            }
        },
        Some((op, ro)) => {
            let rs = match resolve_operand(ro, binding, v) {
                Ok(s) => s,
                Err(e) => {
                    return Err(e);
                },
            };
            cmp_sides(&ls, *op, &rs)
        },
    }
}

/// Evaluates a whole compiled predicate against the record bound to
/// `binding`, short-circuiting `&&` and `||` left to right.
#[verifier::loop_isolation(false)]
pub fn eval_pred(p: &OrExpr, binding: &str, v: &Value) -> (r: Result<bool, RuntimeError>)
    ensures
        r == spec_eval_pred(*p, binding@, *v),
{
    let mut t: usize = 0;
    assert(p.terms@.skip(0) =~= p.terms@);
    while t < p.terms.len()
        invariant
            t <= p.terms@.len(),
            spec_eval_or(p.terms@, binding@, *v) == spec_eval_or(
                p.terms@.skip(t as int),
                binding@,
                *v,
            ),
        decreases p.terms@.len() - t,
    {
        proof {
            assert(p.terms@.skip(t as int)[0] == p.terms@[t as int]);
            assert(p.terms@.skip(t as int).skip(1) =~= p.terms@.skip(t as int + 1));
        }
        let term = &p.terms[t];
        let mut f: usize = 0;
        let mut all = true;
        assert(term.factors@.skip(0) =~= term.factors@);
        while f < term.factors.len() && all
            invariant
                f <= term.factors@.len(),
                all ==> spec_eval_and(term.factors@, binding@, *v) == spec_eval_and(
                    term.factors@.skip(f as int),
                    binding@,
                    *v,
                ),
                !all ==> spec_eval_and(term.factors@, binding@, *v) == Ok::<bool, RuntimeError>(
                    false,
                ),
            decreases term.factors@.len() - f,
        {
            proof {
                assert(term.factors@.skip(f as int)[0] == term.factors@[f as int]);
                assert(term.factors@.skip(f as int).skip(1) =~= term.factors@.skip(f as int + 1));
            }
            match eval_cmp(&term.factors[f], binding, v) {
                Ok(true) => (),
                Ok(false) => {
                    all = false;
                },
                Err(e) => {
                    return Err(e);
                },
            }
            f += 1;
        }
        if all {
            return Ok(true);
        }
        t += 1;
    }
    Ok(false)
}

} // verus!
