//! Parser for the `signals` block: families of signal definitions, each
//! with a `derive from` reference and a raw `when` predicate.

use vstd::prelude::*;

use crate::error::CompileError;
use crate::error::CompileErrorKind;
use crate::strutil::str_eq;
use crate::token::Delim;
use crate::token::Tok;
use crate::token::TokenTree;

verus! {

/// The `signals` block: its families in declaration order.
pub struct SignalsBlock {
    pub families: Vec<SignalFamily>,
}

/// One `family <name> { ... }` with its signals in declaration order.
pub struct SignalFamily {
    pub name: String,
    pub signals: Vec<SignalDef>,
}

/// One `signal <name> { ... }` definition.
pub struct SignalDef {
    pub name: String,
    pub body: SignalBody,
}

/// A signal body: its derivation reference and the raw `when` tokens.
pub struct SignalBody {
    pub derive_from: DeriveFrom,
    pub when: Vec<TokenTree>,
}

/// A `derive from operation.<op>.<step>` reference.
pub struct DeriveFrom {
    pub operation: String,
    pub step: String,
}

/// The shape of one parsed signal: its name, its derivation pair, and
/// its raw `when` tokens.
pub open spec fn sig_shape_view(sig: SignalDef) -> (
    Seq<char>,
    (Seq<char>, Seq<char>),
    Seq<TokenTree>,
) {
    (
        sig.name@,
        (sig.body.derive_from.operation@, sig.body.derive_from.step@),
        sig.body.when@,
    )
}

/// The signal definitions a family body denotes, scanned front to back.
pub open spec fn sp_sig_defs(ts: Seq<TokenTree>) -> Option<
    Seq<(Seq<char>, (Seq<char>, Seq<char>), Seq<TokenTree>)>,
>
    decreases ts.len(),
{
    if ts.len() == 0 {
        Some(Seq::empty())
    } else if ts.len() >= 3 && tree_is_kw(ts[0], "signal"@) && tree_is_ident(ts[1])
        && tree_is_brace(ts[2]) {
        match sp_sig_body(None, None, tree_brace_content(ts[2])@) {
            Some((d, w)) => match sp_sig_defs(ts.skip(3)) {
                Some(rest) => Some(seq![(tree_ident(ts[1]), d, w)] + rest),
                None => None,
            },
            None => None,
        }
    } else {
        None
    }
}

/// The families a `signals` block body denotes, scanned front to back.
pub open spec fn sp_families(ts: Seq<TokenTree>) -> Option<
    Seq<(Seq<char>, Seq<(Seq<char>, (Seq<char>, Seq<char>), Seq<TokenTree>)>)>,
>
    decreases ts.len(),
{
    if ts.len() == 0 {
        Some(Seq::empty())
    } else if ts.len() >= 3 && tree_is_kw(ts[0], "family"@) && tree_is_ident(ts[1])
        && tree_is_brace(ts[2]) {
        match sp_sig_defs(tree_brace_content(ts[2])@) {
            Some(sigs) => match sp_families(ts.skip(3)) {
                Some(rest) => Some(seq![(tree_ident(ts[1]), sigs)] + rest),
                None => None,
            },
            None => None,
        }
    } else {
        None
    }
}

/// The shapes a family list denotes.
pub open spec fn families_view(fams: Seq<SignalFamily>) -> Seq<
    (Seq<char>, Seq<(Seq<char>, (Seq<char>, Seq<char>), Seq<TokenTree>)>),
> {
    fams.map_values(
        |f: SignalFamily|
            (f.name@, f.signals@.map_values(|sig: SignalDef| sig_shape_view(sig))),
    )
}

impl SignalsBlock {
    /// Parses the contents of `signals { ... }`.
    #[verifier::loop_isolation(false)]
    pub fn parse(trees: Vec<TokenTree>) -> (r: Result<SignalsBlock, CompileError>)
        ensures
            r is Ok <==> sp_families(trees@) is Some,
            r matches Ok(b) ==> sp_families(trees@) == Some(families_view(b.families@)),
            r matches Err(e) ==> e.kind == CompileErrorKind::Parse,
    {
        let ghost whole = trees@;
        let mut trees = trees;
        let mut families: Vec<SignalFamily> = Vec::new();
        proof {
            assert(families_view(families@) =~= Seq::<(
                Seq<char>,
                Seq<(Seq<char>, (Seq<char>, Seq<char>), Seq<TokenTree>)>,
            )>::empty());
            assert(crate::validate::operations::opt_concat(
                families_view(families@),
                sp_families(whole),
            ) == sp_families(whole)) by {
                match sp_families(whole) {
                    Some(r2) => {
                        assert(families_view(families@) + r2 =~= r2);
                    },
                    None => {},
                }
            }
        }
        while trees.len() > 0
            invariant
                sp_families(whole) == crate::validate::operations::opt_concat(
                    families_view(families@),
                    sp_families(trees@),
                ),
            decreases trees@.len(),
        {
            let ghost pre = trees@;
            let ghost faccv = families_view(families@);
            proof {
                if pre.len() >= 1 {
                    assert(forall|m: int| 0 <= m < pre.len() - 1 ==> pre.skip(1)[m] == pre[m + 1]);
                }
                if pre.len() >= 2 {
                    assert(pre.skip(1).skip(1) =~= pre.skip(2));
                }
                if pre.len() >= 3 {
                    assert(pre.skip(2).skip(1) =~= pre.skip(3));
                }
            }
            match trees.remove(0) {
                TokenTree::Leaf(Tok::Ident(kw)) => {
                    if !str_eq(kw.as_str(), "family") {
                        return Err(
                            CompileError::new(
                                CompileErrorKind::Parse,
                                kw.as_str(),
                                "expected `family <name> { ... }`",
                            ),
                        );
                    }
                },
                _ => {
                    return Err(
                        CompileError::new(
                            CompileErrorKind::Parse,
                            "",
                            "expected `family <name> { ... }`",
                        ),
                    );
                },
            }
            if trees.len() == 0 {
                return Err(
                    CompileError::new(CompileErrorKind::Parse, "family", "expected family name"),
                );
            }
            let name = match trees.remove(0) {
                TokenTree::Leaf(Tok::Ident(s)) => s,
                _ => {
                    return Err(
                        CompileError::new(
                            CompileErrorKind::Parse,
                            "family",
                            "expected family name",
                        ),
                    );
                },
            };
            if trees.len() == 0 {
                return Err(
                    CompileError::new(
                        CompileErrorKind::Parse,
                        name.as_str(),
                        "expected `{ ... }` after family name",
                    ),
                );
            }
            let mut family_content = match trees.remove(0) {
                TokenTree::Group(Delim::Brace, content) => content,
                _ => {
                    return Err(
                        CompileError::new(
                            CompileErrorKind::Parse,
                            name.as_str(),
                            "expected `{ ... }` after family name",
                        ),
                    );
                },
            };
            let ghost fcwhole = family_content@;
            let mut signals: Vec<SignalDef> = Vec::new();
            proof {
                assert(fcwhole == tree_brace_content(pre[2])@);
                assert(signals@.map_values(|g: SignalDef| sig_shape_view(g)) =~= Seq::<(
                    Seq<char>,
                    (Seq<char>, Seq<char>),
                    Seq<TokenTree>,
                )>::empty());
                assert(crate::validate::operations::opt_concat(
                    signals@.map_values(|g: SignalDef| sig_shape_view(g)),
                    sp_sig_defs(fcwhole),
                ) == sp_sig_defs(fcwhole)) by {
                    match sp_sig_defs(fcwhole) {
                        Some(r2) => {
                            assert(signals@.map_values(|g: SignalDef| sig_shape_view(g)) + r2
                                =~= r2);
                        },
                        None => {},
                    }
                }
            }
            while family_content.len() > 0
                invariant
                    sp_sig_defs(fcwhole) == crate::validate::operations::opt_concat(
                        signals@.map_values(|g: SignalDef| sig_shape_view(g)),
                        sp_sig_defs(family_content@),
                    ),
                decreases family_content@.len(),
            {
                let ghost spre = family_content@;
                let ghost saccv = signals@.map_values(|g: SignalDef| sig_shape_view(g));
                match SignalDef::parse(&mut family_content) {
                    Ok(sig) => {
                        proof {
                            match sp_sig_defs(spre.skip(3)) {
                                Some(rest) => {
                                    assert(saccv + (seq![sig_shape_view(sig)] + rest) =~= saccv.push(
                                        sig_shape_view(sig),
                                    ) + rest);
                                },
                                None => {},
                            }
                        }
                        signals.push(sig);
                        proof {
                            assert(signals@.map_values(|g: SignalDef| sig_shape_view(g))
                                =~= saccv.push(sig_shape_view(sig)));
                        }
                    },
                    Err(e) => {
                        return Err(e);
                    },
                }
            }
            proof {
                assert(sp_sig_defs(family_content@) == Some(Seq::<(
                    Seq<char>,
                    (Seq<char>, Seq<char>),
                    Seq<TokenTree>,
                )>::empty()));
                match sp_sig_defs(fcwhole) {
                    Some(full) => {
                        assert(full =~= signals@.map_values(|g: SignalDef| sig_shape_view(g)));
                    },
                    None => {},
                }
                match sp_families(pre.skip(3)) {
                    Some(rest) => {
                        assert(faccv + (seq![
                            (tree_ident(pre[1]), sp_sig_defs(fcwhole)->0),
                        ] + rest) =~= faccv.push((tree_ident(pre[1]), sp_sig_defs(fcwhole)->0))
                            + rest);
                    },
                    None => {},
                }
            }
            families.push(SignalFamily { name, signals });
            proof {
                assert(families_view(families@) =~= faccv.push(
                    (tree_ident(pre[1]), sp_sig_defs(fcwhole)->0),
                ));
            }
        }
        proof {
            match sp_families(whole) {
                Some(full) => {
                    assert(full =~= families_view(families@));
                },
                None => {},
            }
        }
        Ok(SignalsBlock { families })
    }
}

impl SignalDef {
    /// Parses one `signal <name> { ... }` from the front of `trees`.
    pub fn parse(trees: &mut Vec<TokenTree>) -> (r: Result<SignalDef, CompileError>)
        requires
            old(trees)@.len() > 0,
        ensures
            r is Ok <==> old(trees)@.len() >= 3 && tree_is_kw(old(trees)@[0], "signal"@)
                && tree_is_ident(old(trees)@[1]) && tree_is_brace(old(trees)@[2]) && sp_sig_body(
                None,
                None,
                tree_brace_content(old(trees)@[2])@,
            ) is Some,
            r matches Ok(sig) ==> {
                &&& sig.name@ == tree_ident(old(trees)@[1])
                &&& sp_sig_body(None, None, tree_brace_content(old(trees)@[2])@) == Some(
                    (
                        (sig.body.derive_from.operation@, sig.body.derive_from.step@),
                        sig.body.when@,
                    ),
                )
                &&& final(trees)@ == old(trees)@.skip(3)
            },
            r is Ok ==> final(trees)@.len() < old(trees)@.len(),
            r matches Err(e) ==> e.kind == CompileErrorKind::Parse,
    {
        let ghost t0 = trees@;
        proof {
            if t0.len() >= 1 {
                assert(forall|m: int| 0 <= m < t0.len() - 1 ==> t0.skip(1)[m] == t0[m + 1]);
            }
            if t0.len() >= 2 {
                assert(forall|m: int| 0 <= m < t0.len() - 2 ==> t0.skip(2)[m] == t0[m + 2]);
                assert(t0.skip(1).skip(1) =~= t0.skip(2));
            }
            if t0.len() >= 3 {
                assert(t0.skip(2).skip(1) =~= t0.skip(3));
            }
        }
        match trees.remove(0) {
            TokenTree::Leaf(Tok::Ident(kw)) => {
                if !str_eq(kw.as_str(), "signal") {
                    return Err(
                        CompileError::new(
                            CompileErrorKind::Parse,
                            kw.as_str(),
                            "expected `signal <name> { ... }`",
                        ),
                    );
                }
            },
            _ => {
                return Err(
                    CompileError::new(
                        CompileErrorKind::Parse,
                        "",
                        "expected `signal <name> { ... }`",
                    ),
                );
            },
        }
        if trees.len() == 0 {
            return Err(
                CompileError::new(CompileErrorKind::Parse, "signal", "expected signal name"),
            );
        }
        let name = match trees.remove(0) {
            TokenTree::Leaf(Tok::Ident(s)) => s,
            _ => {
                return Err(
                    CompileError::new(CompileErrorKind::Parse, "signal", "expected signal name"),
                );
            },
        };
        if trees.len() == 0 {
            return Err(
                CompileError::new(
                    CompileErrorKind::Parse,
                    name.as_str(),
                    "expected `{ ... }` after signal name",
                ),
            );
        }
        let content = match trees.remove(0) {
            TokenTree::Group(Delim::Brace, content) => content,
            _ => {
                return Err(
                    CompileError::new(
                        CompileErrorKind::Parse,
                        name.as_str(),
                        "expected `{ ... }` after signal name",
                    ),
                );
            },
        };
        let body = match SignalBody::parse(content) {
            Ok(b) => b,
            Err(e) => {
                return Err(e);
            },
        };
        Ok(SignalDef { name, body })
    }
}

/// Scans a signal body with the pieces collected so far: exactly one
/// `derive from` reference and one trailing `when` that takes the rest,
/// in that accumulation. Yields the derivation's (operation, step) and
/// the raw `when` tokens, or nothing when the body is malformed.
pub open spec fn sp_sig_body(
    df: Option<(Seq<char>, Seq<char>)>,
    w: Option<Seq<TokenTree>>,
    ts: Seq<TokenTree>,
) -> Option<((Seq<char>, Seq<char>), Seq<TokenTree>)>
    decreases ts.len(),
{
    if ts.len() == 0 {
        match (df, w) {
            (Some(d), Some(ww)) => Some((d, ww)),
            _ => None,
        }
    } else if tree_is_kw(ts[0], "derive"@) {
        if df is Some {
            None
        } else if derive_shape(ts.skip(1)) {
            sp_sig_body(
                Some((tree_ident(ts.skip(1)[3]), tree_ident(ts.skip(1)[5]))),
                w,
                ts.skip(7),
            )
        } else {
            None
        }
    } else if tree_is_kw(ts[0], "when"@) {
        if w is Some {
            None
        } else {
            sp_sig_body(df, Some(ts.skip(1)), Seq::empty())
        }
    } else {
        None
    }
}

/// The derivation pair an optional parsed reference denotes.
pub open spec fn df_view(df: Option<DeriveFrom>) -> Option<(Seq<char>, Seq<char>)> {
    match df {
        Some(d) => Some((d.operation@, d.step@)),
        None => None,
    }
}

/// The token view an optional `when` remainder denotes.
pub open spec fn when_view(w: Option<Vec<TokenTree>>) -> Option<Seq<TokenTree>> {
    match w {
        Some(v) => Some(v@),
        None => None,
    }
}

impl SignalBody {
    /// Parses a signal body: exactly one `derive from operation.<op>.<step>`
    /// and one trailing `when <predicate>` that takes the rest of the body.
    #[verifier::loop_isolation(false)]
    pub fn parse(content: Vec<TokenTree>) -> (r: Result<SignalBody, CompileError>)
        ensures
            r is Ok <==> sp_sig_body(None, None, content@) is Some,
            r matches Ok(b) ==> sp_sig_body(None, None, content@) == Some(
                ((b.derive_from.operation@, b.derive_from.step@), b.when@),
            ),
            r matches Err(e) ==> e.kind == CompileErrorKind::Parse,
    {
        let ghost whole = content@;
        let mut content = content;
        let mut derive_from: Option<DeriveFrom> = None;
        let mut when: Option<Vec<TokenTree>> = None;
        while content.len() > 0
            invariant
                sp_sig_body(None, None, whole) == sp_sig_body(
                    df_view(derive_from),
                    when_view(when),
                    content@,
                ),
            decreases content@.len(),
        {
            let ghost pre = content@;
            proof {
                assert(forall|m: int| 0 <= m < pre.len() - 1 ==> pre.skip(1)[m] == pre[m + 1]);
            }
            match content.remove(0) {
                TokenTree::Leaf(Tok::Ident(kw)) => {
                    proof {
                        assert(content@ =~= pre.skip(1));
                    }
                    if str_eq(kw.as_str(), "derive") {
                        if derive_from.is_some() {
                            return Err(
                                CompileError::new(
                                    CompileErrorKind::Parse,
                                    "derive",
                                    "duplicate `derive from`",
                                ),
                            );
                        }
                        proof {
                            if pre.skip(1).len() >= 6 {
                                assert(pre.skip(1).skip(6) =~= pre.skip(7));
                            }
                        }
                        match DeriveFrom::parse(&mut content) {
                            Ok(df) => {
                                derive_from = Some(df);
                            },
                            Err(e) => {
                                return Err(e);
                            },
                        }
                    } else if str_eq(kw.as_str(), "when") {
                        if when.is_some() {
                            return Err(
                                CompileError::new(
                                    CompileErrorKind::Parse,
                                    "when",
                                    "duplicate `when` clause",
                                ),
                            );
                        }
                        let mut rest: Vec<TokenTree> = Vec::new();
                        rest.append(&mut content);
                        when = Some(rest);
                        proof {
                            assert(content@ =~= Seq::<TokenTree>::empty());
                        }
                    } else {
                        return Err(
                            CompileError::new(
                                CompileErrorKind::Parse,
                                kw.as_str(),
                                "unexpected token in signal body",
                            ),
                        );
                    }
                },
                _ => {
                    return Err(
                        CompileError::new(
                            CompileErrorKind::Parse,
                            "",
                            "unexpected token in signal body",
                        ),
                    );
                },
            }
        }
        let derive_from = match derive_from {
            Some(df) => df,
            None => {
                return Err(
                    CompileError::new(
                        CompileErrorKind::Parse,
                        "",
                        "signal must declare `derive from`",
                    ),
                );
            },
        };
        let when = match when {
            Some(w) => w,
            None => {
                return Err(
                    CompileError::new(CompileErrorKind::Parse, "", "signal must declare `when`"),
                );
            },
        };
        Ok(SignalBody { derive_from, when })
    }
}

/// The six-token shape of a `from operation.<op>.<step>` reference.
pub open spec fn derive_shape(ts: Seq<TokenTree>) -> bool {
    &&& ts.len() >= 6
    &&& tree_is_kw(ts[0], "from"@)
    &&& tree_is_kw(ts[1], "operation"@)
    &&& tree_is_punct(ts[2], '.')
    &&& tree_is_ident(ts[3])
    &&& tree_is_punct(ts[4], '.')
    &&& tree_is_ident(ts[5])
}

impl DeriveFrom {
    /// Parses `from operation.<op>.<step>` from the front of `trees`.
    pub fn parse(trees: &mut Vec<TokenTree>) -> (r: Result<DeriveFrom, CompileError>)
        ensures
            r is Ok <==> derive_shape(old(trees)@),
            r matches Ok(df) ==> df.operation@ == tree_ident(old(trees)@[3]) && df.step@
                == tree_ident(old(trees)@[5]) && final(trees)@ == old(trees)@.skip(6),
            r is Ok ==> final(trees)@.len() < old(trees)@.len(),
            r matches Err(e) ==> e.kind == CompileErrorKind::Parse,
    {
        let ghost t0 = trees@;
        proof {
            if t0.len() >= 1 {
                assert(t0.skip(1).len() == t0.len() - 1);
                assert(forall|m: int| 0 <= m < t0.len() - 1 ==> t0.skip(1)[m] == t0[m + 1]);
            }
            if t0.len() >= 2 {
                assert(forall|m: int| 0 <= m < t0.len() - 2 ==> t0.skip(2)[m] == t0[m + 2]);
                assert(t0.skip(1).skip(1) =~= t0.skip(2));
            }
            if t0.len() >= 3 {
                assert(forall|m: int| 0 <= m < t0.len() - 3 ==> t0.skip(3)[m] == t0[m + 3]);
                assert(t0.skip(2).skip(1) =~= t0.skip(3));
            }
            if t0.len() >= 4 {
                assert(forall|m: int| 0 <= m < t0.len() - 4 ==> t0.skip(4)[m] == t0[m + 4]);
                assert(t0.skip(3).skip(1) =~= t0.skip(4));
            }
            if t0.len() >= 5 {
                assert(forall|m: int| 0 <= m < t0.len() - 5 ==> t0.skip(5)[m] == t0[m + 5]);
                assert(t0.skip(4).skip(1) =~= t0.skip(5));
            }
            if t0.len() >= 6 {
                assert(t0.skip(5).skip(1) =~= t0.skip(6));
            }
        }
        match expect_kw(trees, "from", "expected `from operation.<op>.<step>`") {
            Ok(()) => (),
            Err(e) => {
                return Err(e);
            },
        }
        match expect_kw(trees, "operation", "expected `operation`") {
            Ok(()) => (),
            Err(e) => {
                return Err(e);
            },
        }
        match expect_punct(trees, '.', "expected `.` after `operation`") {
            Ok(()) => (),
            Err(e) => {
                return Err(e);
            },
        }
        let operation = match expect_ident(trees, "expected operation name") {
            Ok(s) => s,
            Err(e) => {
                return Err(e);
            },
        };
        match expect_punct(trees, '.', "expected `.` after operation name") {
            Ok(()) => (),
            Err(e) => {
                return Err(e);
            },
        }
        let step = match expect_ident(trees, "expected step name") {
            Ok(s) => s,
            Err(e) => {
                return Err(e);
            },
        };
        Ok(DeriveFrom { operation, step })
    }
}

/// Whether a tree is the given keyword identifier leaf.
pub open spec fn tree_is_kw(t: TokenTree, kw: Seq<char>) -> bool {
    t matches TokenTree::Leaf(Tok::Ident(s)) && s@ == kw
}

/// Whether a tree is any identifier leaf.
pub open spec fn tree_is_ident(t: TokenTree) -> bool {
    t matches TokenTree::Leaf(Tok::Ident(_))
}

/// The text of an identifier leaf.
pub open spec fn tree_ident(t: TokenTree) -> Seq<char>
    recommends
        tree_is_ident(t),
{
    t->Leaf_0->Ident_0@
}

/// Whether a tree is the given punctuation leaf.
pub open spec fn tree_is_punct(t: TokenTree, c: char) -> bool {
    t matches TokenTree::Leaf(Tok::Punct(p)) && p == c
}

/// Whether a tree is a braced group.
pub open spec fn tree_is_brace(t: TokenTree) -> bool {
    t matches TokenTree::Group(Delim::Brace, _)
}

/// The contents of a braced group.
pub open spec fn tree_brace_content(t: TokenTree) -> Vec<TokenTree>
    recommends
        tree_is_brace(t),
{
    t->Group_1
}

/// Consumes one leaf that must be the given keyword.
pub fn expect_kw(trees: &mut Vec<TokenTree>, kw: &str, msg: &str) -> (r: Result<(), CompileError>)
    ensures
        r is Ok <==> old(trees)@.len() > 0 && tree_is_kw(old(trees)@[0], kw@),
        r is Ok ==> final(trees)@ == old(trees)@.skip(1),
        r is Ok ==> final(trees)@.len() < old(trees)@.len(),
        r matches Err(e) ==> e.kind == CompileErrorKind::Parse,
{
    if trees.len() == 0 {
        return Err(CompileError::new(CompileErrorKind::Parse, kw, msg));
    }
    match trees.remove(0) {
        TokenTree::Leaf(Tok::Ident(s)) => {
            if str_eq(s.as_str(), kw) {
                Ok(())
            } else {
                Err(CompileError::new(CompileErrorKind::Parse, s.as_str(), msg))
            }
        },
        _ => Err(CompileError::new(CompileErrorKind::Parse, "", msg)),
    }
}

/// Consumes one leaf that must be the given punctuation character.
pub fn expect_punct(trees: &mut Vec<TokenTree>, c: char, msg: &str) -> (r: Result<
    (),
    CompileError,
>)
    ensures
        r is Ok <==> old(trees)@.len() > 0 && tree_is_punct(old(trees)@[0], c),
        r is Ok ==> final(trees)@ == old(trees)@.skip(1),
        r is Ok ==> final(trees)@.len() < old(trees)@.len(),
        r matches Err(e) ==> e.kind == CompileErrorKind::Parse,
{
    if trees.len() == 0 {
        return Err(CompileError::new(CompileErrorKind::Parse, "", msg));
    }
    match trees.remove(0) {
        TokenTree::Leaf(Tok::Punct(p)) => {
            if p == c {
                Ok(())
            } else {
                Err(CompileError::new(CompileErrorKind::Parse, "", msg))
            }
        },
        _ => Err(CompileError::new(CompileErrorKind::Parse, "", msg)),
    }
}

/// Consumes one leaf that must be an identifier, returning its text.
pub fn expect_ident(trees: &mut Vec<TokenTree>, msg: &str) -> (r: Result<String, CompileError>)
    ensures
        r is Ok <==> old(trees)@.len() > 0 && tree_is_ident(old(trees)@[0]),
        r matches Ok(name) ==> name@ == tree_ident(old(trees)@[0]) && final(trees)@ == old(
            trees,
        )@.skip(1) && final(trees)@.len() < old(trees)@.len(),
        r matches Err(e) ==> e.kind == CompileErrorKind::Parse,
{
    if trees.len() == 0 {
        return Err(CompileError::new(CompileErrorKind::Parse, "", msg));
    }
    match trees.remove(0) {
        TokenTree::Leaf(Tok::Ident(s)) => Ok(s),
        _ => Err(CompileError::new(CompileErrorKind::Parse, "", msg)),
    }
}

} // verus!
