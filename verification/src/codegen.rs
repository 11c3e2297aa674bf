use vstd::prelude::*;

use convert_case::{Case, Casing};

use crate::ast::{LuaClosure, LuaMethod, LuaMethodType, LuaMethodTypeV, LuaMethodV};
use crate::emit::{push_tok, spec_path_tokens};
use crate::rebind::{spec_applied_closure, spec_subst, subst_from};
use crate::token::{clone_tokens, Token, TokenV};

verus! {

// ---------------------------------------------------------------------
// The code generator: per method, its documentation calls and exactly
// one registration call, whose name follows a fixed convention.
// ---------------------------------------------------------------------

/// The discriminator an entry binds to: the meta-operator path when the
/// method is part of the metatable, the method-name literal otherwise.
pub open spec fn spec_inner_tokens(mt: LuaMethodTypeV) -> Seq<TokenV> {
    if mt.is_meta {
        match mt.meta_method {
            Some(p) => spec_path_tokens(p),
            None => Seq::empty(),
        }
    } else {
        match mt.method_name {
            Some(n) => seq![TokenV::StrLit(n)],
            None => Seq::empty(),
        }
    }
}

/// The registration-call name: `add`, then `_meta` when the method is a
/// meta method, then `_function` or `_method`, then `_mut` when it takes
/// the receiver mutably.  The `is_static` flag takes no part in it.
pub open spec fn spec_call_name(is_meta: bool, is_function: bool, is_mut: bool) -> Seq<char> {
    "add"@ + (if is_meta {
        "_meta"@
    } else {
        Seq::<char>::empty()
    }) + (if is_function {
        "_function"@
    } else {
        "_method"@
    }) + (if is_mut {
        "_mut"@
    } else {
        Seq::<char>::empty()
    })
}

/// One documentation call: `receiver.document("...");`.
pub open spec fn spec_document_call(receiver: Seq<char>, doc: Seq<char>) -> Seq<TokenV> {
    seq![
        TokenV::Ident(receiver),
        TokenV::Punct('.'),
        TokenV::Ident("document"@),
        TokenV::OpenParen,
        TokenV::StrLit(doc),
        TokenV::CloseParen,
        TokenV::Semi,
    ]
}

/// The documentation calls for the docstrings from `i` on, in order.
pub open spec fn spec_doc_calls(docs: Seq<Seq<char>>, receiver: Seq<char>, i: int) -> Seq<TokenV>
    decreases docs.len() - i,
{
    if 0 <= i < docs.len() {
        spec_document_call(receiver, docs[i]) + spec_doc_calls(docs, receiver, i + 1)
    } else {
        Seq::empty()
    }
}

/// Everything a method generates: its documentation calls, then
/// `receiver.<call name>(<discriminator>, <applied closure>);`.
pub open spec fn spec_call_expr(m: LuaMethodV, receiver: Seq<char>) -> Seq<TokenV> {
    spec_doc_calls(m.docstring, receiver, 0) + seq![
        TokenV::Ident(receiver),
        TokenV::Punct('.'),
        TokenV::Ident(
            spec_call_name(m.method_type.is_meta, m.method_type.is_function, m.method_type.is_mut),
        ),
        TokenV::OpenParen,
    ] + spec_inner_tokens(m.method_type) + seq![TokenV::Comma] + spec_applied_closure(m.closure)
        + seq![TokenV::CloseParen, TokenV::Semi]
}

/// The body of a generated test: for a template closure the test goes
/// through the same substitution as the closure itself; for an opaque
/// closure it is emitted unchanged.
pub open spec fn spec_test_body(m: LuaMethodV) -> Seq<TokenV> {
    match m.test {
        Some(t) => match m.closure {
            crate::ast::LuaClosureV::MetaClosure { args, .. } => spec_subst(t.ts, args, 0),
            crate::ast::LuaClosureV::PureClosure { .. } => t.ts,
        },
        None => Seq::empty(),
    }
}

/// What `Casing::to_case` with `Case::Snake` returns; the conversion
/// depends on the input characters alone.
pub uninterp spec fn snake_of(s: Seq<char>) -> Seq<char>;

/// Relies on convert_case's `Casing::to_case` with `Case::Snake`: a pure
/// function of the input string.
#[verifier::external_body]
fn to_snake_case(s: &str) -> (r: String)
    ensures
        r@ == snake_of(s@),
{
    s.to_case(Case::Snake)
}

impl LuaMethodType {
    /// The discriminator tokens handed to the registration call.
    pub fn get_inner_tokens(&self) -> (r: Vec<Token>)
        ensures
            r.deep_view() == spec_inner_tokens(self.deep_view()),
    {
        let mut r: Vec<Token> = Vec::new();
        assert(r.deep_view() =~= Seq::<TokenV>::empty());
        if self.is_meta {
            match &self.meta_method {
                Some(p) => {
                    p.to_tokens(&mut r);
                },
                None => {},
            }
        } else {
            match &self.method_name {
                Some(n) => {
                    push_tok(&mut r, Token::StrLit(n.clone()));
                    proof {
                        assert(r.deep_view() =~= seq![TokenV::StrLit(n.deep_view())]);
                    }
                },
                None => {},
            }
        }
        r
    }
}

/// Builds the registration-call name for the given flags.
fn call_name(is_meta: bool, is_function: bool, is_mut: bool) -> (r: String)
    ensures
        r@ == spec_call_name(is_meta, is_function, is_mut),
{
    proof {
        reveal_strlit("add");
        reveal_strlit("_meta");
        reveal_strlit("_function");
        reveal_strlit("_method");
        reveal_strlit("_mut");
        reveal_strlit("add_method");
        reveal_strlit("add_method_mut");
        reveal_strlit("add_function");
        reveal_strlit("add_function_mut");
        reveal_strlit("add_meta_method");
        reveal_strlit("add_meta_method_mut");
        reveal_strlit("add_meta_function");
        reveal_strlit("add_meta_function_mut");
    }
    if is_meta {
        if is_function {
            if is_mut {
                let r = "add_meta_function_mut".to_owned();
                proof {
                    assert(r@ =~= spec_call_name(is_meta, is_function, is_mut));
                }
                r
            } else {
                let r = "add_meta_function".to_owned();
                proof {
                    assert(r@ =~= spec_call_name(is_meta, is_function, is_mut));
                }
                r
            }
        } else {
            if is_mut {
                let r = "add_meta_method_mut".to_owned();
                proof {
                    assert(r@ =~= spec_call_name(is_meta, is_function, is_mut));
                }
                r
            } else {
                let r = "add_meta_method".to_owned();
                proof {
                    assert(r@ =~= spec_call_name(is_meta, is_function, is_mut));
                }
                r
            }
        }
    } else {
        if is_function {
            if is_mut {
                let r = "add_function_mut".to_owned();
                proof {
                    assert(r@ =~= spec_call_name(is_meta, is_function, is_mut));
                }
                r
            } else {
                let r = "add_function".to_owned();
                proof {
                    assert(r@ =~= spec_call_name(is_meta, is_function, is_mut));
                }
                r
            }
        } else {
            if is_mut {
                let r = "add_method_mut".to_owned();
                proof {
                    assert(r@ =~= spec_call_name(is_meta, is_function, is_mut));
                }
                r
            } else {
                let r = "add_method".to_owned();
                proof {
                    assert(r@ =~= spec_call_name(is_meta, is_function, is_mut));
                }
                r
            }
        }
    }
}

fn emit_doc_calls(docs: &Vec<String>, receiver: &str, i: usize, out: &mut Vec<Token>)
    ensures
        final(out).deep_view() == old(out).deep_view() + spec_doc_calls(
            docs.deep_view(),
            receiver@,
            i as int,
        ),
    decreases docs.len() - i,
{
    let ghost start = old(out).deep_view();
    let ghost dv = docs.deep_view();
    if i < docs.len() {
        push_tok(out, Token::Ident(receiver.to_owned()));
        push_tok(out, Token::Punct('.'));
        push_tok(out, Token::Ident("document".to_owned()));
        push_tok(out, Token::OpenParen);
        push_tok(out, Token::StrLit(docs[i].clone()));
        push_tok(out, Token::CloseParen);
        push_tok(out, Token::Semi);
        proof {
            assert(out.deep_view() =~= start + spec_document_call(receiver@, dv[i as int]));
        }
        emit_doc_calls(docs, receiver, i + 1, out);
        proof {
            assert(out.deep_view() =~= start + spec_doc_calls(dv, receiver@, i as int));
        }
    } else {
        proof {
            assert(out.deep_view() =~= start + spec_doc_calls(dv, receiver@, i as int));
        }
    }
}

/// A generated standalone test: its collision-avoiding name and its
/// fully resolved body.
#[derive(Debug, PartialEq, Eq)]
pub struct GeneratedTest {
    pub name: String,
    pub body: Vec<Token>,
}

impl LuaMethod {
    /// Emits the method's documentation calls followed by its one
    /// registration call on `receiver`.
    pub fn to_call_expr(&self, receiver: &str) -> (r: Vec<Token>)
        ensures
            r.deep_view() == spec_call_expr(self.deep_view(), receiver@),
    {
        let mut out: Vec<Token> = Vec::new();
        assert(out.deep_view() =~= Seq::<TokenV>::empty());
        emit_doc_calls(&self.docstring, receiver, 0, &mut out);
        push_tok(&mut out, Token::Ident(receiver.to_owned()));
        push_tok(&mut out, Token::Punct('.'));
        push_tok(
            &mut out,
            Token::Ident(
                call_name(
                    self.method_type.is_meta,
                    self.method_type.is_function,
                    self.method_type.is_mut,
                ),
            ),
        );
        push_tok(&mut out, Token::OpenParen);
        let ghost before_inner = out.deep_view();
        let mut inner = self.method_type.get_inner_tokens();
        let ghost inner_v = inner.deep_view();
        out.append(&mut inner);
        proof {
            assert(out.deep_view() =~= before_inner + inner_v);
        }
        push_tok(&mut out, Token::Comma);
        let ghost before_closure = out.deep_view();
        let mut applied = self.closure.to_applied_closure();
        let ghost applied_v = applied.deep_view();
        out.append(&mut applied);
        proof {
            assert(out.deep_view() =~= before_closure + applied_v);
        }
        push_tok(&mut out, Token::CloseParen);
        push_tok(&mut out, Token::Semi);
        proof {
            assert(out.deep_view() =~= spec_call_expr(self.deep_view(), receiver@));
        }
        out
    }

    /// Produces the method's standalone test, when one was written:
    /// the body resolved like the closure itself, tagged with a name
    /// derived by snake-casing the given newtype identifier.
    pub fn gen_tests(&self, newtype_name: &str) -> (r: Option<GeneratedTest>)
        ensures
            match r {
                Some(g) => self.deep_view().test is Some && g.name@ == snake_of(newtype_name@)
                    && g.body.deep_view() == spec_test_body(self.deep_view()),
                None => self.deep_view().test is None,
            },
    {
        match &self.test {
            Some(t) => {
                let name = to_snake_case(newtype_name);
                let body = match &self.closure {
                    LuaClosure::MetaClosure { args, .. } => subst_from(&t.ts, args, 0),
                    LuaClosure::PureClosure { .. } => clone_tokens(&t.ts),
                };
                Some(GeneratedTest { name, body })
            },
            None => None,
        }
    }
}

} // verus!
