//! Token model: a pipeline definition is lexed into a nested,
//! brace-delimited token tree; `flatten` turns a tree into the linear
//! leaf sequence that the positional scanners work on.

use vstd::prelude::*;
use vstd::string::StrSliceExecFns;
use vstd::string::StringExecFns;

use crate::error::CompileError;
use crate::error::CompileErrorKind;

verus! {

/// A leaf token of the DSL.
#[derive(Debug)]
pub enum Tok {
    /// An identifier or keyword.
    Ident(String),
    /// A numeric literal, kept as written.
    NumLit(String),
    /// A string literal's inner text, without the surrounding quotes.
    StrLit(String),
    /// A single punctuation character.
    Punct(char),
}

/// The delimiter of a token group.
#[derive(Clone, Copy, Debug, PartialEq, Eq, Structural)]
pub enum Delim {
    Brace,
    Bracket,
    Paren,
}

/// A nested token tree: a leaf token or a delimited group of subtrees.
#[derive(Debug)]
pub enum TokenTree {
    Leaf(Tok),
    Group(Delim, Vec<TokenTree>),
}

impl Clone for Tok {
    fn clone(&self) -> (r: Self)
        ensures
            r == *self,
    {
        match self {
            Tok::Ident(s) => Tok::Ident(s.clone()),
            Tok::NumLit(s) => Tok::NumLit(s.clone()),
            Tok::StrLit(s) => Tok::StrLit(s.clone()),
            Tok::Punct(c) => Tok::Punct(*c),
        }
    }
}


/// The leaf sequence of one token tree, in order, grouping removed.
pub open spec fn spec_flatten_tree(t: TokenTree) -> Seq<Tok>
    decreases t,
{
    match t {
        TokenTree::Leaf(tok) => seq![tok],
        TokenTree::Group(_, ts) => spec_flatten_trees(ts@),
    }
}

/// The leaf sequence of a forest of token trees, in order.
pub open spec fn spec_flatten_trees(ts: Seq<TokenTree>) -> Seq<Tok>
    decreases ts,
{
    if ts.len() == 0 {
        Seq::empty()
    } else {
        spec_flatten_tree(ts[0]) + spec_flatten_trees(ts.skip(1))
    }
}

pub proof fn lemma_flatten_trees_snoc(ts: Seq<TokenTree>, t: TokenTree)
    ensures
        spec_flatten_trees(ts.push(t)) == spec_flatten_trees(ts) + spec_flatten_tree(t),
    decreases ts,
{
    if ts.len() == 0 {
        assert(ts.push(t)[0] == t);
        assert(ts.push(t).skip(1) =~= Seq::<TokenTree>::empty());
        assert(spec_flatten_trees(ts.push(t).skip(1)) =~= Seq::<Tok>::empty());
        assert(spec_flatten_trees(ts.push(t)) == spec_flatten_tree(ts.push(t)[0])
            + spec_flatten_trees(ts.push(t).skip(1)));
        assert(spec_flatten_tree(t) + Seq::<Tok>::empty() =~= spec_flatten_tree(t));
        assert(spec_flatten_trees(ts) + spec_flatten_tree(t) =~= spec_flatten_tree(t));
    } else {
        assert(ts.push(t)[0] == ts[0]);
        assert(ts.push(t).skip(1) =~= ts.skip(1).push(t));
        lemma_flatten_trees_snoc(ts.skip(1), t);
        assert(spec_flatten_trees(ts.push(t)) =~= spec_flatten_trees(ts) + spec_flatten_tree(t));
    }
}

/// Appends the leaves of one tree to `out`.
pub fn flatten_tree(t: &TokenTree, out: &mut Vec<Tok>)
    ensures
        final(out)@ == old(out)@ + spec_flatten_tree(*t),
    decreases *t,
{
    match t {
        TokenTree::Leaf(tok) => {
            out.push(tok.clone());
            proof {
                assert(final(out)@ =~= old(out)@ + spec_flatten_tree(*t));
            }
        },
        TokenTree::Group(_, ts) => {
            flatten(ts, out);
        },
    }
}

/// Recursively flattens a forest of token trees into one linear leaf
/// sequence, appended to `out`: grouping removed, order preserved.
pub fn flatten(ts: &Vec<TokenTree>, out: &mut Vec<Tok>)
    ensures
        final(out)@ == old(out)@ + spec_flatten_trees(ts@),
    decreases ts@,
{
    let mut i: usize = 0;
    while i < ts.len()
        invariant
            i <= ts@.len(),
            out@ == old(out)@ + spec_flatten_trees(ts@.take(i as int)),
        decreases ts@.len() - i,
    {
        proof {
            assert(decreases_to!(ts@ => ts@[i as int]));
            lemma_flatten_trees_snoc(ts@.take(i as int), ts@[i as int]);
            assert(ts@.take(i as int).push(ts@[i as int]) =~= ts@.take(i as int + 1));
        }
        flatten_tree(&ts[i], out);
        i += 1;
    }
    proof {
        assert(ts@.take(ts@.len() as int) =~= ts@);
    }
}

/// Convenience wrapper: the flat leaf sequence of a forest.
pub fn flatten_to_vec(ts: &Vec<TokenTree>) -> (r: Vec<Tok>)
    ensures
        r@ == spec_flatten_trees(ts@),
{
    let mut out: Vec<Tok> = Vec::new();
    flatten(ts, &mut out);
    out
}

/// The surface form of a leaf token, exactly as written in the source:
/// a string literal keeps its quote characters.
pub open spec fn tok_surface(t: Tok) -> Seq<char> {
    match t {
        Tok::Ident(s) => s@,
        Tok::NumLit(s) => s@,
        Tok::StrLit(s) => seq!['"'] + s@ + seq!['"'],
        Tok::Punct(c) => seq![c],
    }
}

/// Renders a leaf token back to its surface form.
pub fn tok_surface_string(t: &Tok) -> (r: String)
    ensures
        r@ == tok_surface(*t),
{
    match t {
        Tok::Ident(s) => s.clone(),
        Tok::NumLit(s) => s.clone(),
        Tok::StrLit(s) => {
            let mut out = String::new();
            crate::strutil::push_char(&mut out, '"');
            let out2 = out.concat(s.as_str());
            let mut out3 = out2;
            crate::strutil::push_char(&mut out3, '"');
            proof {
                assert(out3@ =~= seq!['"'] + s@ + seq!['"']);
            }
            out3
        },
        Tok::Punct(c) => {
            let mut out = String::new();
            crate::strutil::push_char(&mut out, *c);
            proof {
                assert(out@ =~= seq![*c]);
            }
            out
        },
    }
}

pub open spec fn is_ident_start(c: char) -> bool {
    ('a' as u32 <= c as u32 <= 'z' as u32) || ('A' as u32 <= c as u32 <= 'Z' as u32) || c == '_'
}

pub open spec fn is_ident_char(c: char) -> bool {
    is_ident_start(c) || ('0' as u32 <= c as u32 <= '9' as u32)
}

/// Characters a numeric literal token may continue with once it has
/// started with a digit: alphanumerics (hex digits, the `x` marker) and
/// the decimal point.
pub open spec fn is_num_char(c: char) -> bool {
    is_ident_char(c) || c == '.'
}

fn ident_start(c: char) -> (r: bool)
    ensures
        r == is_ident_start(c),
{
    let u = c as u32;
    (u >= 'a' as u32 && u <= 'z' as u32) || (u >= 'A' as u32 && u <= 'Z' as u32) || c == '_'
}

fn ident_char(c: char) -> (r: bool)
    ensures
        r == is_ident_char(c),
{
    let u = c as u32;
    ident_start(c) || (u >= '0' as u32 && u <= '9' as u32)
}

fn num_char(c: char) -> (r: bool)
    ensures
        r == is_num_char(c),
{
    ident_char(c) || c == '.'
}

/// Skips whitespace, line comments and (non-nested) block comments.
/// Returns an error only for an unterminated block comment.
#[verifier::loop_isolation(false)]
fn skip_trivia(s: &str, pos: &mut usize) -> (r: Result<(), CompileError>)
    requires
        *old(pos) <= s@.len(),
    ensures
        *old(pos) <= *final(pos) <= s@.len(),
{
    let n = s.unicode_len();
    let mut i: usize = *pos;
    loop
        invariant
            *old(pos) <= i <= n == s@.len(),
        decreases n - i,
    {
        if i >= n {
            break ;
        }
        let c = s.get_char(i);
        if c == ' ' || c == '\t' || c == '\n' || c == '\r' {
            i += 1;
        } else if c == '/' && n - i > 1 && s.get_char(i + 1) == '/' {
            i += 2;
            let ghost i0 = i as int;
            while i < n && s.get_char(i) != '\n'
                invariant
                    i0 <= i <= n,
                decreases n - i,
            {
                i += 1;
            }
        } else if c == '/' && n - i > 1 && s.get_char(i + 1) == '*' {
            i += 2;
            let ghost i0 = i as int;
            let mut closed = false;
            while n - i > 1 && !closed
                invariant
                    i0 <= i <= n,
                decreases n - i,
            {
                if s.get_char(i) == '*' && s.get_char(i + 1) == '/' {
                    i += 2;
                    closed = true;
                } else {
                    i += 1;
                }
            }
            if !closed {
                *pos = n;
                return Err(
                    CompileError::new(CompileErrorKind::Parse, "/*", "unterminated block comment"),
                );
            }
        } else {
            break ;
        }
    }
    *pos = i;
    Ok(())
}

/// Lexes the subtrees of one group, up to (and consuming) the closing
/// delimiter `close`, or to the end of input when `close` is `None`.
#[verifier::loop_isolation(false)]
fn lex_trees(s: &str, pos: &mut usize, close: Option<char>) -> (r: Result<
    Vec<TokenTree>,
    CompileError,
>)
    requires
        *old(pos) <= s@.len(),
    ensures
        *old(pos) <= *final(pos) <= s@.len(),
        r is Ok && close is Some ==> *final(pos) > *old(pos),
    decreases s@.len() - *old(pos), 0nat,
{
    let n = s.unicode_len();
    let mut trees: Vec<TokenTree> = Vec::new();
    loop
        invariant
            *old(pos) <= *pos <= n == s@.len(),
        decreases n - *pos,
    {
        if let Err(e) = skip_trivia(s, pos) {
            return Err(e);
        }
        if *pos >= n {
            return match close {
                None => Ok(trees),
                Some(_) => Err(
                    CompileError::new(
                        CompileErrorKind::Parse,
                        "",
                        "unexpected end of input inside a delimited group",
                    ),
                ),
            };
        }
        let c = s.get_char(*pos);
        match close {
            Some(cl) => {
                if c == cl {
                    *pos = *pos + 1;
                    return Ok(trees);
                }
            },
            None => {},
        }
        if c == '}' || c == ']' || c == ')' {
            return Err(
                CompileError::new(CompileErrorKind::Parse, "", "unbalanced closing delimiter"),
            );
        }
        if c == '{' || c == '[' || c == '(' {
            let (delim, cl) = if c == '{' {
                (Delim::Brace, '}')
            } else if c == '[' {
                (Delim::Bracket, ']')
            } else {
                (Delim::Paren, ')')
            };
            *pos = *pos + 1;
            let inner = match lex_trees(s, pos, Some(cl)) {
                Ok(v) => v,
                Err(e) => {
                    return Err(e);
                },
            };
            trees.push(TokenTree::Group(delim, inner));
        } else if ident_start(c) {
            let start = *pos;
            let mut i = *pos + 1;
            while i < n && ident_char(s.get_char(i))
                invariant
                    start < i <= n,
                decreases n - i,
            {
                i += 1;
            }
            let text = s.substring_char(start, i);
            trees.push(TokenTree::Leaf(Tok::Ident(String::from_str(text))));
            *pos = i;
        } else if c as u32 >= '0' as u32 && c as u32 <= '9' as u32 {
            let start = *pos;
            let mut i = *pos + 1;
            while i < n && num_char(s.get_char(i))
                invariant
                    start < i <= n,
                decreases n - i,
            {
                i += 1;
            }
            let text = s.substring_char(start, i);
            trees.push(TokenTree::Leaf(Tok::NumLit(String::from_str(text))));
            *pos = i;
        } else if c == '"' {
            let start = *pos + 1;
            let mut i = start;
            while i < n && s.get_char(i) != '"'
                invariant
                    start <= i <= n,
                decreases n - i,
            {
                i += 1;
            }
            if i >= n {
                return Err(
                    CompileError::new(CompileErrorKind::Parse, "\"", "unterminated string literal"),
                );
            }
            let text = s.substring_char(start, i);
            trees.push(TokenTree::Leaf(Tok::StrLit(String::from_str(text))));
            *pos = i + 1;
        } else {
            trees.push(TokenTree::Leaf(Tok::Punct(c)));
            *pos = *pos + 1;
        }
    }
}

/// Lexes a whole pipeline definition into a forest of token trees.
pub fn lex(s: &str) -> (r: Result<Vec<TokenTree>, CompileError>)
{
    let mut pos: usize = 0;
    proof {
        assert(s@.len() >= 0);
    }
    lex_trees(s, &mut pos, None)
}

} // verus!
