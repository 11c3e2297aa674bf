use vstd::prelude::*;

use crate::ast::{
    LuaClosure, LuaClosureV, LuaMethod, LuaMethodType, LuaMethodTypeV, LuaMethodV, MethodMacroArg,
    MethodMacroArgV, Test, TestV, TypePath, TypePathV, UserdataBlock, UserdataBlockV,
};
use crate::error::{syntax_err, Error, ErrorV, SyntaxError, SyntaxKind};
use crate::token::{copy_range, is_closer, is_opener, str_eq, Token, TokenV};

verus! {

// ---------------------------------------------------------------------
// The grammar, as specification functions.
//
// Each `spec_parse_*` function consumes tokens from `pos` and returns
// the parsed node together with the position after it, or the syntax
// error that a single-pass, peek-one recursive descent reports.
// ---------------------------------------------------------------------

/// Is the token at `pos` the identifier `kw`?
pub open spec fn keyword_at(ts: Seq<TokenV>, pos: int, kw: Seq<char>) -> bool {
    &&& 0 <= pos < ts.len()
    &&& ts[pos] matches TokenV::Ident(s) && s == kw
}

/// Segments after the first: a run of `:: ident` pairs.
pub open spec fn spec_parse_path_rest(ts: Seq<TokenV>, pos: int) -> Result<
    (Seq<Seq<char>>, int),
    ErrorV,
>
    decreases ts.len() - pos,
{
    if 0 <= pos < ts.len() && ts[pos] is PathSep {
        if pos + 1 < ts.len() && ts[pos + 1] is Ident {
            match spec_parse_path_rest(ts, pos + 2) {
                Ok((segs, p)) => Ok((seq![ts[pos + 1]->Ident_0] + segs, p)),
                Err(e) => Err(e),
            }
        } else {
            Err(syntax_err(pos + 1, SyntaxKind::ExpectedIdent))
        }
    } else {
        Ok((Seq::empty(), pos))
    }
}

/// A type path: `ident (:: ident)*`.
pub open spec fn spec_parse_type_path(ts: Seq<TokenV>, pos: int) -> Result<
    (TypePathV, int),
    ErrorV,
> {
    if 0 <= pos < ts.len() && ts[pos] is Ident {
        match spec_parse_path_rest(ts, pos + 1) {
            Ok((segs, p)) => Ok(
                (TypePathV { segments: seq![ts[pos]->Ident_0] + segs }, p),
            ),
            Err(e) => Err(e),
        }
    } else {
        Err(syntax_err(pos, SyntaxKind::ExpectedIdent))
    }
}

/// One template argument: `ident = type_path`.
pub open spec fn spec_parse_macro_arg(ts: Seq<TokenV>, pos: int) -> Result<
    (MethodMacroArgV, int),
    ErrorV,
> {
    if 0 <= pos < ts.len() && ts[pos] is Ident {
        if pos + 1 < ts.len() && ts[pos + 1] is Equals {
            match spec_parse_type_path(ts, pos + 2) {
                Ok((path, p)) => Ok(
                    (MethodMacroArgV { ident: ts[pos]->Ident_0, replacement: path }, p),
                ),
                Err(e) => Err(e),
            }
        } else {
            Err(syntax_err(pos + 1, SyntaxKind::ExpectedEquals))
        }
    } else {
        Err(syntax_err(pos, SyntaxKind::ExpectedIdent))
    }
}

/// A comma-separated argument list, consumed through its closing `)`.
/// A trailing comma is accepted; the list may be empty.
pub open spec fn spec_parse_macro_args(ts: Seq<TokenV>, pos: int) -> Result<
    (Seq<MethodMacroArgV>, int),
    ErrorV,
>
    decreases ts.len() - pos,
{
    if 0 <= pos < ts.len() && ts[pos] is CloseParen {
        Ok((Seq::empty(), pos + 1))
    } else {
        match spec_parse_macro_arg(ts, pos) {
            Ok((arg, p)) => {
                if pos < p <= ts.len() {
                    if p < ts.len() && ts[p] is Comma {
                        match spec_parse_macro_args(ts, p + 1) {
                            Ok((rest, p2)) => Ok((seq![arg] + rest, p2)),
                            Err(e) => Err(e),
                        }
                    } else if p < ts.len() && ts[p] is CloseParen {
                        Ok((seq![arg], p + 1))
                    } else {
                        Err(syntax_err(p, SyntaxKind::ExpectedCommaOrCloseParen))
                    }
                } else {
                    Err(syntax_err(p, SyntaxKind::ExpectedCommaOrCloseParen))
                }
            },
            Err(e) => Err(e),
        }
    }
}

/// The position of the closer that ends the group entered at `pos` with
/// `depth` groups still open, skipping over nested groups.
pub open spec fn spec_group_end(ts: Seq<TokenV>, pos: int, depth: int) -> Option<int>
    decreases ts.len() - pos,
{
    if pos < 0 || pos >= ts.len() {
        None
    } else if is_closer(ts[pos]) {
        if depth == 0 {
            Some(pos)
        } else {
            spec_group_end(ts, pos + 1, depth - 1)
        }
    } else if is_opener(ts[pos]) {
        spec_group_end(ts, pos + 1, depth + 1)
    } else {
        spec_group_end(ts, pos + 1, depth)
    }
}

/// The position where an undelimited closure expression starting at
/// `pos` ends: the first `;`, `=>` or closing delimiter at depth zero,
/// or the end of the input.
pub open spec fn spec_pure_end(ts: Seq<TokenV>, pos: int, depth: int) -> Option<int>
    decreases ts.len() - pos,
{
    if pos < 0 {
        None
    } else if pos >= ts.len() {
        if depth == 0 {
            Some(pos)
        } else {
            None
        }
    } else if is_closer(ts[pos]) {
        if depth == 0 {
            Some(pos)
        } else {
            spec_pure_end(ts, pos + 1, depth - 1)
        }
    } else if (ts[pos] is Semi || ts[pos] is Arrow) && depth == 0 {
        Some(pos)
    } else if is_opener(ts[pos]) {
        spec_pure_end(ts, pos + 1, depth + 1)
    } else {
        spec_pure_end(ts, pos + 1, depth)
    }
}

/// The method kind: optional `static`, `mut`, `fn` keywords in that
/// order, then the discriminator: a parenthesized meta-operator path or
/// a string literal.
pub open spec fn spec_parse_method_type(ts: Seq<TokenV>, pos: int) -> Result<
    (LuaMethodTypeV, int),
    ErrorV,
> {
    let is_static = keyword_at(ts, pos, "static"@);
    let p1 = if is_static {
        pos + 1
    } else {
        pos
    };
    let is_mut = keyword_at(ts, p1, "mut"@);
    let p2 = if is_mut {
        p1 + 1
    } else {
        p1
    };
    let is_function = keyword_at(ts, p2, "fn"@);
    let p3 = if is_function {
        p2 + 1
    } else {
        p2
    };
    if 0 <= p3 < ts.len() && ts[p3] is OpenParen {
        match spec_parse_type_path(ts, p3 + 1) {
            Ok((path, p4)) => {
                if 0 <= p4 < ts.len() && ts[p4] is CloseParen {
                    Ok(
                        (
                            LuaMethodTypeV {
                                is_mut,
                                is_static,
                                is_meta: true,
                                is_function,
                                meta_method: Some(path),
                                method_name: None,
                            },
                            p4 + 1,
                        ),
                    )
                } else {
                    Err(syntax_err(p4, SyntaxKind::ExpectedCloseParen))
                }
            },
            Err(e) => Err(e),
        }
    } else if 0 <= p3 < ts.len() && ts[p3] is StrLit {
        Ok(
            (
                LuaMethodTypeV {
                    is_mut,
                    is_static,
                    is_meta: false,
                    is_function,
                    meta_method: None,
                    method_name: Some(ts[p3]->StrLit_0),
                },
                p3 + 1,
            ),
        )
    } else {
        Err(syntax_err(p3, SyntaxKind::ExpectedDiscriminator))
    }
}

/// A closure: `( args ) => { expr }` for a template, `=> expr` otherwise.
pub open spec fn spec_parse_closure(ts: Seq<TokenV>, pos: int) -> Result<
    (LuaClosureV, int),
    ErrorV,
> {
    if 0 <= pos < ts.len() && ts[pos] is OpenParen {
        match spec_parse_macro_args(ts, pos + 1) {
            Ok((args, p1)) => {
                if 0 <= p1 < ts.len() && ts[p1] is Arrow {
                    if p1 + 1 < ts.len() && ts[p1 + 1] is OpenBrace {
                        match spec_group_end(ts, p1 + 2, 0) {
                            Some(end) => {
                                if ts[end] is CloseBrace {
                                    Ok(
                                        (
                                            LuaClosureV::MetaClosure {
                                                args,
                                                expr: ts.subrange(p1 + 2, end),
                                            },
                                            end + 1,
                                        ),
                                    )
                                } else {
                                    Err(syntax_err(end, SyntaxKind::ExpectedCloseBrace))
                                }
                            },
                            None => Err(
                                syntax_err(ts.len() as int, SyntaxKind::MissingCloseDelimiter),
                            ),
                        }
                    } else {
                        Err(syntax_err(p1 + 1, SyntaxKind::ExpectedOpenBrace))
                    }
                } else {
                    Err(syntax_err(p1, SyntaxKind::ExpectedArrow))
                }
            },
            Err(e) => Err(e),
        }
    } else if 0 <= pos < ts.len() && ts[pos] is Arrow {
        match spec_pure_end(ts, pos + 1, 0) {
            Some(end) => {
                if end > pos + 1 {
                    Ok((LuaClosureV::PureClosure { expr: ts.subrange(pos + 1, end) }, end))
                } else {
                    Err(syntax_err(pos + 1, SyntaxKind::ExpectedExpression))
                }
            },
            None => Err(syntax_err(ts.len() as int, SyntaxKind::MissingCloseDelimiter)),
        }
    } else {
        Err(syntax_err(pos, SyntaxKind::ExpectedArrow))
    }
}

/// A test body: `{ expr }`.  The arrow that introduces it belongs to the
/// method entry, which parses a test without looking at the closure kind.
pub open spec fn spec_parse_test(ts: Seq<TokenV>, pos: int) -> Result<(TestV, int), ErrorV> {
    if 0 <= pos < ts.len() && ts[pos] is OpenBrace {
        match spec_group_end(ts, pos + 1, 0) {
            Some(end) => {
                if ts[end] is CloseBrace {
                    Ok((TestV { ts: ts.subrange(pos + 1, end) }, end + 1))
                } else {
                    Err(syntax_err(end, SyntaxKind::ExpectedCloseBrace))
                }
            },
            None => Err(syntax_err(ts.len() as int, SyntaxKind::MissingCloseDelimiter)),
        }
    } else {
        Err(syntax_err(pos, SyntaxKind::ExpectedOpenBrace))
    }
}

/// The leading run of documentation comments.
pub open spec fn spec_parse_docstrings(ts: Seq<TokenV>, pos: int) -> (Seq<Seq<char>>, int)
    decreases ts.len() - pos,
{
    if 0 <= pos < ts.len() && ts[pos] is DocString {
        let (rest, p) = spec_parse_docstrings(ts, pos + 1);
        (seq![ts[pos]->DocString_0] + rest, p)
    } else {
        (Seq::empty(), pos)
    }
}

/// One method entry: `docstring* method_type closure (=> { expr })?`.
pub open spec fn spec_parse_method(ts: Seq<TokenV>, pos: int) -> Result<(LuaMethodV, int), ErrorV> {
    let (docs, p0) = spec_parse_docstrings(ts, pos);
    match spec_parse_method_type(ts, p0) {
        Ok((mt, p1)) => match spec_parse_closure(ts, p1) {
            Ok((cl, p2)) => {
                if 0 <= p2 < ts.len() && ts[p2] is Arrow {
                    match spec_parse_test(ts, p2 + 1) {
                        Ok((t, p3)) => Ok(
                            (
                                LuaMethodV {
                                    docstring: docs,
                                    method_type: mt,
                                    closure: cl,
                                    test: Some(t),
                                },
                                p3,
                            ),
                        ),
                        Err(e) => Err(e),
                    }
                } else {
                    Ok(
                        (
                            LuaMethodV {
                                docstring: docs,
                                method_type: mt,
                                closure: cl,
                                test: None,
                            },
                            p2,
                        ),
                    )
                }
            },
            Err(e) => Err(e),
        },
        Err(e) => Err(e),
    }
}

/// The entries of a block, separated by `;` with an optional trailing
/// `;`, consumed through the closing `}`.
pub open spec fn spec_parse_methods(ts: Seq<TokenV>, pos: int) -> Result<
    (Seq<LuaMethodV>, int),
    ErrorV,
>
    decreases ts.len() - pos,
{
    if 0 <= pos < ts.len() && ts[pos] is CloseBrace {
        Ok((Seq::empty(), pos + 1))
    } else {
        match spec_parse_method(ts, pos) {
            Ok((m, p)) => {
                if pos < p <= ts.len() {
                    if p < ts.len() && ts[p] is Semi {
                        match spec_parse_methods(ts, p + 1) {
                            Ok((rest, p2)) => Ok((seq![m] + rest, p2)),
                            Err(e) => Err(e),
                        }
                    } else if p < ts.len() && ts[p] is CloseBrace {
                        Ok((seq![m], p + 1))
                    } else {
                        Err(syntax_err(p, SyntaxKind::ExpectedSemiOrCloseBrace))
                    }
                } else {
                    Err(syntax_err(p, SyntaxKind::ExpectedSemiOrCloseBrace))
                }
            },
            Err(e) => Err(e),
        }
    }
}

/// A whole invocation: `impl { method ( ; method )* ;? }`, with nothing
/// after the closing brace.
pub open spec fn spec_parse_block(ts: Seq<TokenV>) -> Result<UserdataBlockV, ErrorV> {
    if keyword_at(ts, 0, "impl"@) {
        if 1 < ts.len() && ts[1] is OpenBrace {
            match spec_parse_methods(ts, 2) {
                Ok((ms, p)) => {
                    if p == ts.len() {
                        Ok(UserdataBlockV { functions: ms })
                    } else {
                        Err(syntax_err(p, SyntaxKind::UnexpectedToken))
                    }
                },
                Err(e) => Err(e),
            }
        } else {
            Err(syntax_err(1, SyntaxKind::ExpectedOpenBrace))
        }
    } else {
        Err(syntax_err(0, SyntaxKind::ExpectedImpl))
    }
}

// ---------------------------------------------------------------------
// Positions only move forward and stay inside the input.
// ---------------------------------------------------------------------

pub proof fn lemma_path_rest_pos(ts: Seq<TokenV>, pos: int)
    requires
        0 <= pos,
    ensures
        spec_parse_path_rest(ts, pos) matches Ok((segs, p)) ==> pos <= p,
        pos <= ts.len() ==> (spec_parse_path_rest(ts, pos) matches Ok((segs, p)) ==> p <= ts.len()),
    decreases ts.len() - pos,
{
    if 0 <= pos < ts.len() && ts[pos] is PathSep {
        if pos + 1 < ts.len() && ts[pos + 1] is Ident {
            lemma_path_rest_pos(ts, pos + 2);
        }
    }
}

pub proof fn lemma_type_path_pos(ts: Seq<TokenV>, pos: int)
    requires
        0 <= pos,
    ensures
        spec_parse_type_path(ts, pos) matches Ok((path, p)) ==> pos < p <= ts.len(),
{
    if 0 <= pos < ts.len() && ts[pos] is Ident {
        lemma_path_rest_pos(ts, pos + 1);
    }
}

pub proof fn lemma_macro_arg_pos(ts: Seq<TokenV>, pos: int)
    requires
        0 <= pos,
    ensures
        spec_parse_macro_arg(ts, pos) matches Ok((arg, p)) ==> pos < p <= ts.len(),
{
    lemma_type_path_pos(ts, pos + 2);
}

pub proof fn lemma_macro_args_pos(ts: Seq<TokenV>, pos: int)
    requires
        0 <= pos,
    ensures
        spec_parse_macro_args(ts, pos) matches Ok((args, p)) ==> pos < p <= ts.len(),
    decreases ts.len() - pos,
{
    if 0 <= pos < ts.len() && ts[pos] is CloseParen {
    } else {
        lemma_macro_arg_pos(ts, pos);
        match spec_parse_macro_arg(ts, pos) {
            Ok((arg, p)) => {
                if pos < p <= ts.len() && p < ts.len() && ts[p] is Comma {
                    lemma_macro_args_pos(ts, p + 1);
                }
            },
            _ => {},
        }
    }
}

pub proof fn lemma_group_end_pos(ts: Seq<TokenV>, pos: int, depth: int)
    requires
        0 <= pos,
    ensures
        spec_group_end(ts, pos, depth) matches Some(end) ==> pos <= end < ts.len(),
    decreases ts.len() - pos,
{
    if 0 <= pos < ts.len() {
        lemma_group_end_pos(ts, pos + 1, depth - 1);
        lemma_group_end_pos(ts, pos + 1, depth + 1);
        lemma_group_end_pos(ts, pos + 1, depth);
    }
}

pub proof fn lemma_pure_end_pos(ts: Seq<TokenV>, pos: int, depth: int)
    requires
        0 <= pos,
    ensures
        spec_pure_end(ts, pos, depth) matches Some(end) ==> pos <= end,
        pos <= ts.len() ==> (spec_pure_end(ts, pos, depth) matches Some(end) ==> end <= ts.len()),
    decreases ts.len() - pos,
{
    if 0 <= pos < ts.len() {
        lemma_pure_end_pos(ts, pos + 1, depth - 1);
        lemma_pure_end_pos(ts, pos + 1, depth + 1);
        lemma_pure_end_pos(ts, pos + 1, depth);
    }
}

pub proof fn lemma_method_type_pos(ts: Seq<TokenV>, pos: int)
    requires
        0 <= pos,
    ensures
        spec_parse_method_type(ts, pos) matches Ok((mt, p)) ==> pos < p <= ts.len(),
{
    let p3 = if keyword_at(ts, pos, "static"@) {
        pos + 1
    } else {
        pos
    };
    let p3b = if keyword_at(ts, p3, "mut"@) {
        p3 + 1
    } else {
        p3
    };
    let p3c = if keyword_at(ts, p3b, "fn"@) {
        p3b + 1
    } else {
        p3b
    };
    lemma_type_path_pos(ts, p3c + 1);
}

pub proof fn lemma_closure_pos(ts: Seq<TokenV>, pos: int)
    requires
        0 <= pos,
    ensures
        spec_parse_closure(ts, pos) matches Ok((cl, p)) ==> pos < p <= ts.len(),
{
    if 0 <= pos < ts.len() && ts[pos] is OpenParen {
        lemma_macro_args_pos(ts, pos + 1);
        match spec_parse_macro_args(ts, pos + 1) {
            Ok((args, p1)) => {
                lemma_group_end_pos(ts, p1 + 2, 0);
            },
            _ => {},
        }
    } else if 0 <= pos < ts.len() && ts[pos] is Arrow {
        lemma_pure_end_pos(ts, pos + 1, 0);
    }
}

pub proof fn lemma_test_pos(ts: Seq<TokenV>, pos: int)
    requires
        0 <= pos,
    ensures
        spec_parse_test(ts, pos) matches Ok((t, p)) ==> pos < p <= ts.len(),
{
    lemma_group_end_pos(ts, pos + 1, 0);
}

pub proof fn lemma_docstrings_pos(ts: Seq<TokenV>, pos: int)
    requires
        0 <= pos,
    ensures
        pos <= spec_parse_docstrings(ts, pos).1,
        pos <= ts.len() ==> spec_parse_docstrings(ts, pos).1 <= ts.len(),
    decreases ts.len() - pos,
{
    if 0 <= pos < ts.len() && ts[pos] is DocString {
        lemma_docstrings_pos(ts, pos + 1);
    }
}

pub proof fn lemma_method_pos(ts: Seq<TokenV>, pos: int)
    requires
        0 <= pos,
    ensures
        spec_parse_method(ts, pos) matches Ok((m, p)) ==> pos < p <= ts.len(),
{
    lemma_docstrings_pos(ts, pos);
    let p0 = spec_parse_docstrings(ts, pos).1;
    lemma_method_type_pos(ts, p0);
    match spec_parse_method_type(ts, p0) {
        Ok((mt, p1)) => {
            lemma_closure_pos(ts, p1);
            match spec_parse_closure(ts, p1) {
                Ok((cl, p2)) => {
                    if 0 <= p2 {
                        lemma_test_pos(ts, p2 + 1);
                    }
                },
                _ => {},
            }
        },
        _ => {},
    }
}

pub proof fn lemma_methods_pos(ts: Seq<TokenV>, pos: int)
    requires
        0 <= pos,
    ensures
        spec_parse_methods(ts, pos) matches Ok((ms, p)) ==> pos < p <= ts.len(),
    decreases ts.len() - pos,
{
    if 0 <= pos < ts.len() && ts[pos] is CloseBrace {
    } else {
        lemma_method_pos(ts, pos);
        match spec_parse_method(ts, pos) {
            Ok((m, p)) => {
                if pos < p <= ts.len() && p < ts.len() && ts[p] is Semi {
                    lemma_methods_pos(ts, p + 1);
                }
            },
            _ => {},
        }
    }
}

// ---------------------------------------------------------------------
// The executable parser.  Each function returns exactly what its
// specification function says, errors included.
// ---------------------------------------------------------------------

/// Relates an executable parse result to its specification.
pub open spec fn result_matches<T: DeepView>(
    r: Result<(T, usize), Error>,
    s: Result<(T::V, int), ErrorV>,
) -> bool {
    match r {
        Ok((v, p)) => s matches Ok(sv) && v.deep_view() == sv.0 && p as int == sv.1,
        Err(e) => s matches Err(se) && e.deep_view() == se,
    }
}

/// The token at `pos`, if the input is that long.
fn peek(input: &Vec<Token>, pos: usize) -> (r: Option<&Token>)
    ensures
        match r {
            Some(t) => pos < input.len() && *t == input@[pos as int],
            None => pos >= input.len(),
        },
{
    if pos < input.len() {
        Some(&input[pos])
    } else {
        None
    }
}

/// Is the token at `pos` the keyword `kw`?
fn peek_keyword(input: &Vec<Token>, pos: usize, kw: &str) -> (r: bool)
    ensures
        r == keyword_at(input.deep_view(), pos as int, kw@),
{
    match peek(input, pos) {
        Some(Token::Ident(s)) => str_eq(s.as_str(), kw),
        _ => false,
    }
}

fn parse_path_rest(input: &Vec<Token>, pos: usize) -> (r: Result<(Vec<String>, usize), Error>)
    ensures
        result_matches(r, spec_parse_path_rest(input.deep_view(), pos as int)),
    decreases input.len() - pos,
{
    let ghost ts = input.deep_view();
    match peek(input, pos) {
        Some(Token::PathSep) => {
            match peek(input, pos + 1) {
                Some(Token::Ident(s)) => {
                    let seg = s.clone();
                    match parse_path_rest(input, pos + 2) {
                        Ok((rest, p)) => {
                            let mut segs: Vec<String> = Vec::new();
                            segs.push(seg);
                            let mut rest = rest;
                            let ghost rest_v = rest.deep_view();
                            segs.append(&mut rest);
                            proof {
                                assert(segs.deep_view() =~= seq![ts[pos + 1]->Ident_0] + rest_v);
                            }
                            Ok((segs, p))
                        },
                        Err(e) => Err(e),
                    }
                },
                _ => Err(
                    Error::Syntax(SyntaxError { pos: pos + 1, kind: SyntaxKind::ExpectedIdent }),
                ),
            }
        },
        _ => {
            let empty: Vec<String> = Vec::new();
            assert(empty.deep_view() =~= Seq::<Seq<char>>::empty());
            Ok((empty, pos))
        },
    }
}

impl TypePath {
    /// Parses a type path at `pos`.
    pub fn parse(input: &Vec<Token>, pos: usize) -> (r: Result<(TypePath, usize), Error>)
        ensures
            result_matches(r, spec_parse_type_path(input.deep_view(), pos as int)),
    {
        let ghost ts = input.deep_view();
        match peek(input, pos) {
            Some(Token::Ident(s)) => {
                let first = s.clone();
                match parse_path_rest(input, pos + 1) {
                    Ok((rest, p)) => {
                        let mut segments: Vec<String> = Vec::new();
                        segments.push(first);
                        let mut rest = rest;
                        let ghost rest_v = rest.deep_view();
                        segments.append(&mut rest);
                        proof {
                            assert(segments.deep_view() =~= seq![ts[pos as int]->Ident_0]
                                + rest_v);
                        }
                        Ok((TypePath { segments }, p))
                    },
                    Err(e) => Err(e),
                }
            },
            _ => Err(Error::Syntax(SyntaxError { pos, kind: SyntaxKind::ExpectedIdent })),
        }
    }
}

impl MethodMacroArg {
    /// Parses one template argument, `ident = type_path`, at `pos`.
    pub fn parse(input: &Vec<Token>, pos: usize) -> (r: Result<(MethodMacroArg, usize), Error>)
        ensures
            result_matches(r, spec_parse_macro_arg(input.deep_view(), pos as int)),
    {
        let ghost ts = input.deep_view();
        match peek(input, pos) {
            Some(Token::Ident(s)) => {
                let ident = s.clone();
                match peek(input, pos + 1) {
                    Some(Token::Equals) => {
                        match TypePath::parse(input, pos + 2) {
                            Ok((path, p)) => Ok((MethodMacroArg { ident, replacement: path }, p)),
                            Err(e) => Err(e),
                        }
                    },
                    _ => Err(
                        Error::Syntax(
                            SyntaxError { pos: pos + 1, kind: SyntaxKind::ExpectedEquals },
                        ),
                    ),
                }
            },
            _ => Err(Error::Syntax(SyntaxError { pos, kind: SyntaxKind::ExpectedIdent })),
        }
    }
}

fn parse_macro_args(input: &Vec<Token>, pos: usize) -> (r: Result<
    (Vec<MethodMacroArg>, usize),
    Error,
>)
    ensures
        result_matches(r, spec_parse_macro_args(input.deep_view(), pos as int)),
    decreases input.len() - pos,
{
    let ghost ts = input.deep_view();
    match peek(input, pos) {
        Some(Token::CloseParen) => {
            let empty: Vec<MethodMacroArg> = Vec::new();
            assert(empty.deep_view() =~= Seq::<MethodMacroArgV>::empty());
            Ok((empty, pos + 1))
        },
        _ => {
            match MethodMacroArg::parse(input, pos) {
                Ok((arg, p)) => {
                    proof {
                        lemma_macro_arg_pos(ts, pos as int);
                    }
                    match peek(input, p) {
                        Some(Token::Comma) => {
                            match parse_macro_args(input, p + 1) {
                                Ok((rest, p2)) => {
                                    let ghost arg_v = arg.deep_view();
                                    let mut args: Vec<MethodMacroArg> = Vec::new();
                                    args.push(arg);
                                    let mut rest = rest;
                                    let ghost rest_v = rest.deep_view();
                                    args.append(&mut rest);
                                    proof {
                                        assert(args.deep_view() =~= seq![arg_v] + rest_v);
                                    }
                                    Ok((args, p2))
                                },
                                Err(e) => Err(e),
                            }
                        },
                        Some(Token::CloseParen) => {
                            let ghost arg_v = arg.deep_view();
                            let mut args: Vec<MethodMacroArg> = Vec::new();
                            args.push(arg);
                            proof {
                                assert(args.deep_view() =~= seq![arg_v]);
                            }
                            Ok((args, p + 1))
                        },
                        _ => Err(
                            Error::Syntax(
                                SyntaxError { pos: p, kind: SyntaxKind::ExpectedCommaOrCloseParen },
                            ),
                        ),
                    }
                },
                Err(e) => Err(e),
            }
        },
    }
}

fn group_end(input: &Vec<Token>, pos: usize, depth: usize) -> (r: Option<usize>)
    requires
        depth <= pos,
    ensures
        match r {
            Some(end) => spec_group_end(input.deep_view(), pos as int, depth as int) == Some(
                end as int,
            ) && pos <= end < input.len(),
            None => spec_group_end(input.deep_view(), pos as int, depth as int) is None,
        },
    decreases input.len() - pos,
{
    let ghost ts = input.deep_view();
    proof {
        lemma_group_end_pos(ts, pos as int, depth as int);
    }
    match peek(input, pos) {
        None => None,
        Some(t) => {
            match t {
                Token::CloseParen | Token::CloseBrace | Token::CloseBracket => {
                    if depth == 0 {
                        Some(pos)
                    } else {
                        group_end(input, pos + 1, depth - 1)
                    }
                },
                Token::OpenParen | Token::OpenBrace | Token::OpenBracket => {
                    group_end(input, pos + 1, depth + 1)
                },
                _ => group_end(input, pos + 1, depth),
            }
        },
    }
}

fn pure_end(input: &Vec<Token>, pos: usize, depth: usize) -> (r: Option<usize>)
    requires
        depth <= pos,
        pos <= input.len(),
    ensures
        match r {
            Some(end) => spec_pure_end(input.deep_view(), pos as int, depth as int) == Some(
                end as int,
            ) && pos <= end <= input.len(),
            None => spec_pure_end(input.deep_view(), pos as int, depth as int) is None,
        },
    decreases input.len() - pos,
{
    let ghost ts = input.deep_view();
    proof {
        lemma_pure_end_pos(ts, pos as int, depth as int);
    }
    match peek(input, pos) {
        None => {
            if depth == 0 {
                Some(pos)
            } else {
                None
            }
        },
        Some(t) => {
            match t {
                Token::CloseParen | Token::CloseBrace | Token::CloseBracket => {
                    if depth == 0 {
                        Some(pos)
                    } else {
                        pure_end(input, pos + 1, depth - 1)
                    }
                },
                Token::Semi | Token::Arrow => {
                    if depth == 0 {
                        Some(pos)
                    } else {
                        pure_end(input, pos + 1, depth)
                    }
                },
                Token::OpenParen | Token::OpenBrace | Token::OpenBracket => {
                    pure_end(input, pos + 1, depth + 1)
                },
                _ => pure_end(input, pos + 1, depth),
            }
        },
    }
}

impl LuaMethodType {
    /// Parses the keyword flags and the discriminator at `pos`.
    pub fn parse(input: &Vec<Token>, pos: usize) -> (r: Result<(LuaMethodType, usize), Error>)
        ensures
            result_matches(r, spec_parse_method_type(input.deep_view(), pos as int)),
    {
        let ghost ts = input.deep_view();
        let n = input.len();
        proof {
            assert(ts.len() == input@.len());
        }
        let is_static = peek_keyword(input, pos, "static");
        let p1 = if is_static {
            pos + 1
        } else {
            pos
        };
        let is_mut = peek_keyword(input, p1, "mut");
        let p2 = if is_mut {
            p1 + 1
        } else {
            p1
        };
        let is_function = peek_keyword(input, p2, "fn");
        let p3 = if is_function {
            p2 + 1
        } else {
            p2
        };
        match peek(input, p3) {
            Some(Token::OpenParen) => {
                match TypePath::parse(input, p3 + 1) {
                    Ok((path, p4)) => {
                        match peek(input, p4) {
                            Some(Token::CloseParen) => Ok(
                                (
                                    LuaMethodType {
                                        is_mut,
                                        is_static,
                                        is_meta: true,
                                        is_function,
                                        meta_method: Some(path),
                                        method_name: None,
                                    },
                                    p4 + 1,
                                ),
                            ),
                            _ => Err(
                                Error::Syntax(
                                    SyntaxError { pos: p4, kind: SyntaxKind::ExpectedCloseParen },
                                ),
                            ),
                        }
                    },
                    Err(e) => Err(e),
                }
            },
            Some(Token::StrLit(s)) => Ok(
                (
                    LuaMethodType {
                        is_mut,
                        is_static,
                        is_meta: false,
                        is_function,
                        meta_method: None,
                        method_name: Some(s.clone()),
                    },
                    p3 + 1,
                ),
            ),
            _ => Err(Error::Syntax(SyntaxError { pos: p3, kind: SyntaxKind::ExpectedDiscriminator })),
        }
    }
}

impl LuaClosure {
    /// Parses a closure at `pos`: a template closure when it starts with
    /// `(`, an opaque lambda after `=>` otherwise.
    pub fn parse(input: &Vec<Token>, pos: usize) -> (r: Result<(LuaClosure, usize), Error>)
        ensures
            result_matches(r, spec_parse_closure(input.deep_view(), pos as int)),
    {
        let ghost ts = input.deep_view();
        match peek(input, pos) {
            Some(Token::OpenParen) => {
                match parse_macro_args(input, pos + 1) {
                    Ok((args, p1)) => {
                        proof {
                            lemma_macro_args_pos(ts, pos + 1);
                        }
                        match peek(input, p1) {
                            Some(Token::Arrow) => {
                                match peek(input, p1 + 1) {
                                    Some(Token::OpenBrace) => {
                                        match group_end(input, p1 + 2, 0) {
                                            Some(end) => {
                                                match peek(input, end) {
                                                    Some(Token::CloseBrace) => {
                                                        let expr = copy_range(input, p1 + 2, end);
                                                        Ok(
                                                            (
                                                                LuaClosure::MetaClosure {
                                                                    args,
                                                                    expr,
                                                                },
                                                                end + 1,
                                                            ),
                                                        )
                                                    },
                                                    _ => Err(
                                                        Error::Syntax(
                                                            SyntaxError {
                                                                pos: end,
                                                                kind: SyntaxKind::ExpectedCloseBrace,
                                                            },
                                                        ),
                                                    ),
                                                }
                                            },
                                            None => Err(
                                                Error::Syntax(
                                                    SyntaxError {
                                                        pos: input.len(),
                                                        kind: SyntaxKind::MissingCloseDelimiter,
                                                    },
                                                ),
                                            ),
                                        }
                                    },
                                    _ => Err(
                                        Error::Syntax(
                                            SyntaxError {
                                                pos: p1 + 1,
                                                kind: SyntaxKind::ExpectedOpenBrace,
                                            },
                                        ),
                                    ),
                                }
                            },
                            _ => Err(
                                Error::Syntax(
                                    SyntaxError { pos: p1, kind: SyntaxKind::ExpectedArrow },
                                ),
                            ),
                        }
                    },
                    Err(e) => Err(e),
                }
            },
            Some(Token::Arrow) => {
                match pure_end(input, pos + 1, 0) {
                    Some(end) => {
                        if end > pos + 1 {
                            let expr = copy_range(input, pos + 1, end);
                            Ok((LuaClosure::PureClosure { expr }, end))
                        } else {
                            Err(
                                Error::Syntax(
                                    SyntaxError {
                                        pos: pos + 1,
                                        kind: SyntaxKind::ExpectedExpression,
                                    },
                                ),
                            )
                        }
                    },
                    None => Err(
                        Error::Syntax(
                            SyntaxError { pos: input.len(), kind: SyntaxKind::MissingCloseDelimiter },
                        ),
                    ),
                }
            },
            _ => Err(Error::Syntax(SyntaxError { pos, kind: SyntaxKind::ExpectedArrow })),
        }
    }
}

impl Test {
    /// Parses a brace-delimited test body at `pos`.
    pub fn parse(input: &Vec<Token>, pos: usize) -> (r: Result<(Test, usize), Error>)
        ensures
            result_matches(r, spec_parse_test(input.deep_view(), pos as int)),
    {
        let ghost ts = input.deep_view();
        match peek(input, pos) {
            Some(Token::OpenBrace) => {
                match group_end(input, pos + 1, 0) {
                    Some(end) => {
                        match peek(input, end) {
                            Some(Token::CloseBrace) => {
                                let body = copy_range(input, pos + 1, end);
                                Ok((Test { ts: body }, end + 1))
                            },
                            _ => Err(
                                Error::Syntax(
                                    SyntaxError { pos: end, kind: SyntaxKind::ExpectedCloseBrace },
                                ),
                            ),
                        }
                    },
                    None => Err(
                        Error::Syntax(
                            SyntaxError { pos: input.len(), kind: SyntaxKind::MissingCloseDelimiter },
                        ),
                    ),
                }
            },
            _ => Err(Error::Syntax(SyntaxError { pos, kind: SyntaxKind::ExpectedOpenBrace })),
        }
    }
}

fn parse_docstrings(input: &Vec<Token>, pos: usize) -> (r: (Vec<String>, usize))
    ensures
        r.0.deep_view() == spec_parse_docstrings(input.deep_view(), pos as int).0,
        r.1 as int == spec_parse_docstrings(input.deep_view(), pos as int).1,
    decreases input.len() - pos,
{
    let ghost ts = input.deep_view();
    match peek(input, pos) {
        Some(Token::DocString(s)) => {
            let doc = s.clone();
            let (rest, p) = parse_docstrings(input, pos + 1);
            let mut docs: Vec<String> = Vec::new();
            docs.push(doc);
            let mut rest = rest;
            let ghost rest_v = rest.deep_view();
            docs.append(&mut rest);
            proof {
                assert(docs.deep_view() =~= seq![ts[pos as int]->DocString_0] + rest_v);
            }
            (docs, p)
        },
        _ => (Vec::new(), pos),
    }
}

impl LuaMethod {
    /// Parses one method entry at `pos`: leading documentation, the
    /// method kind, its closure, and an optional trailing test.
    pub fn parse(input: &Vec<Token>, pos: usize) -> (r: Result<(LuaMethod, usize), Error>)
        ensures
            result_matches(r, spec_parse_method(input.deep_view(), pos as int)),
    {
        let ghost ts = input.deep_view();
        let (docstring, p0) = parse_docstrings(input, pos);
        match LuaMethodType::parse(input, p0) {
            Ok((method_type, p1)) => {
                match LuaClosure::parse(input, p1) {
                    Ok((closure, p2)) => {
                        match peek(input, p2) {
                            Some(Token::Arrow) => {
                                match Test::parse(input, p2 + 1) {
                                    Ok((t, p3)) => Ok(
                                        (
                                            LuaMethod {
                                                docstring,
                                                method_type,
                                                closure,
                                                test: Some(t),
                                            },
                                            p3,
                                        ),
                                    ),
                                    Err(e) => Err(e),
                                }
                            },
                            _ => Ok(
                                (LuaMethod { docstring, method_type, closure, test: None }, p2),
                            ),
                        }
                    },
                    Err(e) => Err(e),
                }
            },
            Err(e) => Err(e),
        }
    }
}

fn parse_methods(input: &Vec<Token>, pos: usize) -> (r: Result<(Vec<LuaMethod>, usize), Error>)
    ensures
        result_matches(r, spec_parse_methods(input.deep_view(), pos as int)),
    decreases input.len() - pos,
{
    let ghost ts = input.deep_view();
    match peek(input, pos) {
        Some(Token::CloseBrace) => {
            let empty: Vec<LuaMethod> = Vec::new();
            assert(empty.deep_view() =~= Seq::<LuaMethodV>::empty());
            Ok((empty, pos + 1))
        },
        _ => {
            match LuaMethod::parse(input, pos) {
                Ok((m, p)) => {
                    proof {
                        lemma_method_pos(ts, pos as int);
                    }
                    match peek(input, p) {
                        Some(Token::Semi) => {
                            match parse_methods(input, p + 1) {
                                Ok((rest, p2)) => {
                                    let ghost m_v = m.deep_view();
                                    let mut ms: Vec<LuaMethod> = Vec::new();
                                    ms.push(m);
                                    let mut rest = rest;
                                    let ghost rest_v = rest.deep_view();
                                    ms.append(&mut rest);
                                    proof {
                                        assert(ms.deep_view() =~= seq![m_v] + rest_v);
                                    }
                                    Ok((ms, p2))
                                },
                                Err(e) => Err(e),
                            }
                        },
                        Some(Token::CloseBrace) => {
                            let ghost m_v = m.deep_view();
                            let mut ms: Vec<LuaMethod> = Vec::new();
                            ms.push(m);
                            proof {
                                assert(ms.deep_view() =~= seq![m_v]);
                            }
                            Ok((ms, p + 1))
                        },
                        _ => Err(
                            Error::Syntax(
                                SyntaxError { pos: p, kind: SyntaxKind::ExpectedSemiOrCloseBrace },
                            ),
                        ),
                    }
                },
                Err(e) => Err(e),
            }
        },
    }
}

/// Relates the block-level parse result to its specification.
pub open spec fn block_result_matches(
    r: Result<UserdataBlock, Error>,
    s: Result<UserdataBlockV, ErrorV>,
) -> bool {
    match r {
        Ok(b) => s matches Ok(sb) && b.deep_view() == sb,
        Err(e) => s matches Err(se) && e.deep_view() == se,
    }
}

impl UserdataBlock {
    /// Parses a whole invocation and demands that it consume the entire
    /// input.
    pub fn parse(input: &Vec<Token>) -> (r: Result<UserdataBlock, Error>)
        ensures
            block_result_matches(r, spec_parse_block(input.deep_view())),
    {
        let ghost ts = input.deep_view();
        if peek_keyword(input, 0, "impl") {
            match peek(input, 1) {
                Some(Token::OpenBrace) => {
                    match parse_methods(input, 2) {
                        Ok((functions, p)) => {
                            if p == input.len() {
                                Ok(UserdataBlock { functions })
                            } else {
                                Err(
                                    Error::Syntax(
                                        SyntaxError { pos: p, kind: SyntaxKind::UnexpectedToken },
                                    ),
                                )
                            }
                        },
                        Err(e) => Err(e),
                    }
                },
                _ => Err(
                    Error::Syntax(SyntaxError { pos: 1, kind: SyntaxKind::ExpectedOpenBrace }),
                ),
            }
        } else {
            Err(Error::Syntax(SyntaxError { pos: 0, kind: SyntaxKind::ExpectedImpl }))
        }
    }
}

} // verus!
