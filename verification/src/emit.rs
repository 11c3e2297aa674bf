use vstd::prelude::*;

use crate::ast::{
    LuaClosure, LuaClosureV, LuaMethod, LuaMethodType, LuaMethodTypeV, LuaMethodV, MethodMacroArg,
    MethodMacroArgV, Test, TestV, TypePath, TypePathV, UserdataBlock, UserdataBlockV,
};
use crate::token::{Token, TokenV};

verus! {

// ---------------------------------------------------------------------
// Serialization back to the surface syntax, as specification functions.
// ---------------------------------------------------------------------

/// Path segments after the first: `:: ident` for each.
pub open spec fn spec_path_tail_tokens(segs: Seq<Seq<char>>, i: int) -> Seq<TokenV>
    decreases segs.len() - i,
{
    if 0 <= i < segs.len() {
        seq![TokenV::PathSep, TokenV::Ident(segs[i])] + spec_path_tail_tokens(segs, i + 1)
    } else {
        Seq::empty()
    }
}

pub open spec fn spec_path_tokens(p: TypePathV) -> Seq<TokenV> {
    if p.segments.len() > 0 {
        seq![TokenV::Ident(p.segments[0])] + spec_path_tail_tokens(p.segments, 1)
    } else {
        Seq::empty()
    }
}

pub open spec fn spec_arg_tokens(a: MethodMacroArgV) -> Seq<TokenV> {
    seq![TokenV::Ident(a.ident), TokenV::Equals] + spec_path_tokens(a.replacement)
}

/// The arguments from `i` on, separated by commas.
pub open spec fn spec_args_tokens(args: Seq<MethodMacroArgV>, i: int) -> Seq<TokenV>
    decreases args.len() - i,
{
    if 0 <= i < args.len() {
        if i == args.len() - 1 {
            spec_arg_tokens(args[i])
        } else {
            spec_arg_tokens(args[i]) + seq![TokenV::Comma] + spec_args_tokens(args, i + 1)
        }
    } else {
        Seq::empty()
    }
}

pub open spec fn spec_method_type_tokens(mt: LuaMethodTypeV) -> Seq<TokenV> {
    (if mt.is_static {
        seq![TokenV::Ident("static"@)]
    } else {
        Seq::<TokenV>::empty()
    }) + (if mt.is_mut {
        seq![TokenV::Ident("mut"@)]
    } else {
        Seq::<TokenV>::empty()
    }) + (if mt.is_function {
        seq![TokenV::Ident("fn"@)]
    } else {
        Seq::<TokenV>::empty()
    }) + (if mt.is_meta {
        match mt.meta_method {
            Some(p) => seq![TokenV::OpenParen] + spec_path_tokens(p) + seq![TokenV::CloseParen],
            None => Seq::<TokenV>::empty(),
        }
    } else {
        match mt.method_name {
            Some(n) => seq![TokenV::StrLit(n)],
            None => Seq::<TokenV>::empty(),
        }
    })
}

pub open spec fn spec_closure_tokens(c: LuaClosureV) -> Seq<TokenV> {
    match c {
        LuaClosureV::MetaClosure { args, expr } => seq![TokenV::OpenParen] + spec_args_tokens(
            args,
            0,
        ) + seq![TokenV::CloseParen, TokenV::Arrow, TokenV::OpenBrace] + expr
            + seq![TokenV::CloseBrace],
        LuaClosureV::PureClosure { expr } => seq![TokenV::Arrow] + expr,
    }
}

pub open spec fn spec_test_tokens(t: TestV) -> Seq<TokenV> {
    seq![TokenV::OpenBrace] + t.ts + seq![TokenV::CloseBrace]
}

/// The documentation comments from `i` on.
pub open spec fn spec_docs_tokens(docs: Seq<Seq<char>>, i: int) -> Seq<TokenV>
    decreases docs.len() - i,
{
    if 0 <= i < docs.len() {
        seq![TokenV::DocString(docs[i])] + spec_docs_tokens(docs, i + 1)
    } else {
        Seq::empty()
    }
}

pub open spec fn spec_method_tokens(m: LuaMethodV) -> Seq<TokenV> {
    spec_docs_tokens(m.docstring, 0) + spec_method_type_tokens(m.method_type)
        + spec_closure_tokens(m.closure) + (match m.test {
        Some(t) => seq![TokenV::Arrow] + spec_test_tokens(t),
        None => Seq::<TokenV>::empty(),
    })
}

/// The method entries from `i` on, separated by semicolons.
pub open spec fn spec_methods_tokens(ms: Seq<LuaMethodV>, i: int) -> Seq<TokenV>
    decreases ms.len() - i,
{
    if 0 <= i < ms.len() {
        if i == ms.len() - 1 {
            spec_method_tokens(ms[i])
        } else {
            spec_method_tokens(ms[i]) + seq![TokenV::Semi] + spec_methods_tokens(ms, i + 1)
        }
    } else {
        Seq::empty()
    }
}

pub open spec fn spec_block_tokens(b: UserdataBlockV) -> Seq<TokenV> {
    seq![TokenV::Ident("impl"@), TokenV::OpenBrace] + spec_methods_tokens(b.functions, 0)
        + seq![TokenV::CloseBrace]
}

// ---------------------------------------------------------------------
// The executable serializer.
// ---------------------------------------------------------------------

pub(crate) fn push_tok(tokens: &mut Vec<Token>, t: Token)
    ensures
        final(tokens).deep_view() == old(tokens).deep_view().push(t.deep_view()),
{
    let ghost prev = tokens.deep_view();
    let ghost tv = t.deep_view();
    tokens.push(t);
    proof {
        assert(tokens.deep_view() =~= prev.push(tv));
    }
}

/// Appends a clone of every token of `src`.
pub fn extend_tokens(tokens: &mut Vec<Token>, src: &Vec<Token>)
    ensures
        final(tokens).deep_view() == old(tokens).deep_view() + src.deep_view(),
{
    let ghost start = old(tokens).deep_view();
    let mut i: usize = 0;
    while i < src.len()
        invariant
            i <= src.len(),
            tokens.deep_view() =~= start + src.deep_view().subrange(0, i as int),
        decreases src.len() - i,
    {
        let ghost prev = tokens.deep_view();
        tokens.push(src[i].clone());
        proof {
            assert(tokens.deep_view() =~= prev.push(src.deep_view()[i as int]));
            assert(tokens.deep_view() =~= start + src.deep_view().subrange(0, i + 1));
        }
        i = i + 1;
    }
    proof {
        assert(src.deep_view().subrange(0, src.len() as int) =~= src.deep_view());
    }
}

fn emit_path_tail(segs: &Vec<String>, i: usize, tokens: &mut Vec<Token>)
    ensures
        final(tokens).deep_view() == old(tokens).deep_view() + spec_path_tail_tokens(
            segs.deep_view(),
            i as int,
        ),
    decreases segs.len() - i,
{
    let ghost start = old(tokens).deep_view();
    let ghost sv = segs.deep_view();
    if i < segs.len() {
        push_tok(tokens, Token::PathSep);
        push_tok(tokens, Token::Ident(segs[i].clone()));
        proof {
            assert(tokens.deep_view() =~= start + seq![TokenV::PathSep, TokenV::Ident(sv[i as int])]);
        }
        emit_path_tail(segs, i + 1, tokens);
        proof {
            assert(tokens.deep_view() =~= start + spec_path_tail_tokens(sv, i as int));
        }
    } else {
        proof {
            assert(tokens.deep_view() =~= start + spec_path_tail_tokens(sv, i as int));
        }
    }
}

impl TypePath {
    /// Serializes the path as `ident (:: ident)*`.
    pub fn to_tokens(&self, tokens: &mut Vec<Token>)
        ensures
            final(tokens).deep_view() == old(tokens).deep_view() + spec_path_tokens(self.deep_view()),
    {
        let ghost start = old(tokens).deep_view();
        if self.segments.len() > 0 {
            push_tok(tokens, Token::Ident(self.segments[0].clone()));
            proof {
                assert(tokens.deep_view() =~= start + seq![
                    TokenV::Ident(self.segments.deep_view()[0]),
                ]);
            }
            emit_path_tail(&self.segments, 1, tokens);
            proof {
                assert(tokens.deep_view() =~= start + spec_path_tokens(self.deep_view()));
            }
        } else {
            proof {
                assert(tokens.deep_view() =~= start + spec_path_tokens(self.deep_view()));
            }
        }
    }
}

impl MethodMacroArg {
    /// Serializes the argument as `ident = type_path`.
    pub fn to_tokens(&self, tokens: &mut Vec<Token>)
        ensures
            final(tokens).deep_view() == old(tokens).deep_view() + spec_arg_tokens(self.deep_view()),
    {
        let ghost start = old(tokens).deep_view();
        push_tok(tokens, Token::Ident(self.ident.clone()));
        push_tok(tokens, Token::Equals);
        proof {
            assert(tokens.deep_view() =~= start + seq![
                TokenV::Ident(self.ident.deep_view()),
                TokenV::Equals,
            ]);
        }
        self.replacement.to_tokens(tokens);
        proof {
            assert(tokens.deep_view() =~= start + spec_arg_tokens(self.deep_view()));
        }
    }
}

fn emit_args(args: &Vec<MethodMacroArg>, i: usize, tokens: &mut Vec<Token>)
    ensures
        final(tokens).deep_view() == old(tokens).deep_view() + spec_args_tokens(
            args.deep_view(),
            i as int,
        ),
    decreases args.len() - i,
{
    let ghost start = old(tokens).deep_view();
    let ghost av = args.deep_view();
    if i < args.len() {
        args[i].to_tokens(tokens);
        if i + 1 < args.len() {
            push_tok(tokens, Token::Comma);
            proof {
                assert(tokens.deep_view() =~= start + (spec_arg_tokens(av[i as int]) + seq![
                    TokenV::Comma,
                ]));
            }
            emit_args(args, i + 1, tokens);
            proof {
                assert((spec_arg_tokens(av[i as int]) + seq![TokenV::Comma]) + spec_args_tokens(
                    av,
                    i + 1,
                ) =~= spec_arg_tokens(av[i as int]) + seq![TokenV::Comma] + spec_args_tokens(
                    av,
                    i + 1,
                ));
                assert(tokens.deep_view() =~= start + spec_args_tokens(av, i as int));
            }
        } else {
            proof {
                assert(tokens.deep_view() =~= start + spec_args_tokens(av, i as int));
            }
        }
    } else {
        proof {
            assert(tokens.deep_view() =~= start + spec_args_tokens(av, i as int));
        }
    }
}

impl LuaMethodType {
    /// Serializes the keyword flags and the discriminator.
    pub fn to_tokens(&self, tokens: &mut Vec<Token>)
        ensures
            final(tokens).deep_view() == old(tokens).deep_view() + spec_method_type_tokens(
                self.deep_view(),
            ),
    {
        let ghost start = old(tokens).deep_view();
        if self.is_static {
            push_tok(tokens, Token::Ident("static".to_owned()));
        }
        if self.is_mut {
            push_tok(tokens, Token::Ident("mut".to_owned()));
        }
        if self.is_function {
            push_tok(tokens, Token::Ident("fn".to_owned()));
        }
        let ghost mid = tokens.deep_view();
        if self.is_meta {
            match &self.meta_method {
                Some(p) => {
                    push_tok(tokens, Token::OpenParen);
                    p.to_tokens(tokens);
                    push_tok(tokens, Token::CloseParen);
                    proof {
                        assert(tokens.deep_view() =~= mid + (seq![TokenV::OpenParen]
                            + spec_path_tokens(p.deep_view()) + seq![TokenV::CloseParen]));
                    }
                },
                None => {
                    proof {
                        assert(tokens.deep_view() =~= mid + Seq::<TokenV>::empty());
                    }
                },
            }
        } else {
            match &self.method_name {
                Some(n) => {
                    push_tok(tokens, Token::StrLit(n.clone()));
                    proof {
                        assert(tokens.deep_view() =~= mid + seq![
                            TokenV::StrLit(n.deep_view()),
                        ]);
                    }
                },
                None => {
                    proof {
                        assert(tokens.deep_view() =~= mid + Seq::<TokenV>::empty());
                    }
                },
            }
        }
        proof {
            assert(tokens.deep_view() =~= start + spec_method_type_tokens(self.deep_view()));
        }
    }
}

impl LuaClosure {
    /// Serializes the closure: `( args ) => { expr }` for a template,
    /// `=> expr` otherwise.
    pub fn to_tokens(&self, tokens: &mut Vec<Token>)
        ensures
            final(tokens).deep_view() == old(tokens).deep_view() + spec_closure_tokens(self.deep_view()),
    {
        let ghost start = old(tokens).deep_view();
        match self {
            LuaClosure::MetaClosure { args, expr } => {
                push_tok(tokens, Token::OpenParen);
                emit_args(args, 0, tokens);
                push_tok(tokens, Token::CloseParen);
                push_tok(tokens, Token::Arrow);
                push_tok(tokens, Token::OpenBrace);
                extend_tokens(tokens, expr);
                push_tok(tokens, Token::CloseBrace);
                proof {
                    assert(tokens.deep_view() =~= start + spec_closure_tokens(self.deep_view()));
                }
            },
            LuaClosure::PureClosure { expr } => {
                push_tok(tokens, Token::Arrow);
                extend_tokens(tokens, expr);
                proof {
                    assert(tokens.deep_view() =~= start + spec_closure_tokens(self.deep_view()));
                }
            },
        }
    }
}

impl Test {
    /// Serializes the test body inside its braces.
    pub fn to_tokens(&self, tokens: &mut Vec<Token>)
        ensures
            final(tokens).deep_view() == old(tokens).deep_view() + spec_test_tokens(self.deep_view()),
    {
        let ghost start = old(tokens).deep_view();
        push_tok(tokens, Token::OpenBrace);
        extend_tokens(tokens, &self.ts);
        push_tok(tokens, Token::CloseBrace);
        proof {
            assert(tokens.deep_view() =~= start + spec_test_tokens(self.deep_view()));
        }
    }
}

fn emit_docs(docs: &Vec<String>, i: usize, tokens: &mut Vec<Token>)
    ensures
        final(tokens).deep_view() == old(tokens).deep_view() + spec_docs_tokens(
            docs.deep_view(),
            i as int,
        ),
    decreases docs.len() - i,
{
    let ghost start = old(tokens).deep_view();
    let ghost dv = docs.deep_view();
    if i < docs.len() {
        push_tok(tokens, Token::DocString(docs[i].clone()));
        proof {
            assert(tokens.deep_view() =~= start + seq![TokenV::DocString(dv[i as int])]);
        }
        emit_docs(docs, i + 1, tokens);
        proof {
            assert(tokens.deep_view() =~= start + spec_docs_tokens(dv, i as int));
        }
    } else {
        proof {
            assert(tokens.deep_view() =~= start + spec_docs_tokens(dv, i as int));
        }
    }
}

impl LuaMethod {
    /// Serializes one method entry, its documentation and test included.
    pub fn to_tokens(&self, tokens: &mut Vec<Token>)
        ensures
            final(tokens).deep_view() == old(tokens).deep_view() + spec_method_tokens(self.deep_view()),
    {
        let ghost start = old(tokens).deep_view();
        emit_docs(&self.docstring, 0, tokens);
        self.method_type.to_tokens(tokens);
        self.closure.to_tokens(tokens);
        match &self.test {
            Some(t) => {
                push_tok(tokens, Token::Arrow);
                t.to_tokens(tokens);
            },
            None => {},
        }
        proof {
            assert(tokens.deep_view() =~= start + spec_method_tokens(self.deep_view()));
        }
    }
}

fn emit_methods(ms: &Vec<LuaMethod>, i: usize, tokens: &mut Vec<Token>)
    ensures
        final(tokens).deep_view() == old(tokens).deep_view() + spec_methods_tokens(
            ms.deep_view(),
            i as int,
        ),
    decreases ms.len() - i,
{
    let ghost start = old(tokens).deep_view();
    let ghost mv = ms.deep_view();
    if i < ms.len() {
        ms[i].to_tokens(tokens);
        if i + 1 < ms.len() {
            push_tok(tokens, Token::Semi);
            proof {
                assert(tokens.deep_view() =~= start + (spec_method_tokens(mv[i as int]) + seq![
                    TokenV::Semi,
                ]));
            }
            emit_methods(ms, i + 1, tokens);
            proof {
                assert((spec_method_tokens(mv[i as int]) + seq![TokenV::Semi])
                    + spec_methods_tokens(mv, i + 1) =~= spec_method_tokens(mv[i as int]) + seq![
                    TokenV::Semi,
                ] + spec_methods_tokens(mv, i + 1));
                assert(tokens.deep_view() =~= start + spec_methods_tokens(mv, i as int));
            }
        } else {
            proof {
                assert(tokens.deep_view() =~= start + spec_methods_tokens(mv, i as int));
            }
        }
    } else {
        proof {
            assert(tokens.deep_view() =~= start + spec_methods_tokens(mv, i as int));
        }
    }
}

impl UserdataBlock {
    /// Serializes the whole invocation back to the surface syntax.
    pub fn to_tokens(&self, tokens: &mut Vec<Token>)
        ensures
            final(tokens).deep_view() == old(tokens).deep_view() + spec_block_tokens(self.deep_view()),
    {
        let ghost start = old(tokens).deep_view();
        push_tok(tokens, Token::Ident("impl".to_owned()));
        push_tok(tokens, Token::OpenBrace);
        emit_methods(&self.functions, 0, tokens);
        push_tok(tokens, Token::CloseBrace);
        proof {
            assert(tokens.deep_view() =~= start + spec_block_tokens(self.deep_view()));
        }
    }
}

} // verus!
