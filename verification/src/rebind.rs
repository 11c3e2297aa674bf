use vstd::prelude::*;

use crate::ast::{
    LuaClosure, LuaClosureV, LuaMethod, LuaMethodV, MethodMacroArg, MethodMacroArgV, TypePathV,
};
use crate::emit::spec_path_tokens;
use crate::error::{Error, ErrorV, SemanticError, SemanticErrorV};
use crate::token::{clone_tokens, str_eq, Token, TokenV};

verus! {

// ---------------------------------------------------------------------
// The template-substitution engine: resolving placeholders against the
// declared bindings, and overriding those bindings ("rebinding").
// ---------------------------------------------------------------------

/// The first declared argument at or after `i` whose identifier is `name`.
pub open spec fn spec_find_index(args: Seq<MethodMacroArgV>, name: Seq<char>, i: int) -> Option<
    int,
>
    decreases args.len() - i,
{
    if 0 <= i < args.len() {
        if args[i].ident == name {
            Some(i)
        } else {
            spec_find_index(args, name, i + 1)
        }
    } else {
        None
    }
}

/// The binding of `name` among the declared arguments, if any.
pub open spec fn spec_find_arg(args: Seq<MethodMacroArgV>, name: Seq<char>) -> Option<TypePathV> {
    match spec_find_index(args, name, 0) {
        Some(j) => Some(args[j].replacement),
        None => None,
    }
}

/// What one token becomes under substitution: a placeholder identifier
/// becomes its bound type path; every other token stays itself.
pub open spec fn spec_subst_tok(t: TokenV, args: Seq<MethodMacroArgV>) -> Seq<TokenV> {
    match t {
        TokenV::Ident(n) => match spec_find_arg(args, n) {
            Some(p) => spec_path_tokens(p),
            None => seq![t],
        },
        _ => seq![t],
    }
}

/// The body from token `i` on, with every placeholder replaced by its
/// current binding.  Substitution works token by token, so it can never
/// rewrite part of a longer identifier.
pub open spec fn spec_subst(expr: Seq<TokenV>, args: Seq<MethodMacroArgV>, i: int) -> Seq<TokenV>
    decreases expr.len() - i,
{
    if 0 <= i < expr.len() {
        spec_subst_tok(expr[i], args) + spec_subst(expr, args, i + 1)
    } else {
        Seq::empty()
    }
}

/// The fully applied body of a closure: substituted for a template,
/// unchanged for an opaque lambda.
pub open spec fn spec_applied_closure(c: LuaClosureV) -> Seq<TokenV> {
    match c {
        LuaClosureV::MetaClosure { args, expr } => spec_subst(expr, args, 0),
        LuaClosureV::PureClosure { expr } => expr,
    }
}

/// One override applied: the first declared argument with the same
/// identifier takes the new binding; the rest stay as they are.
pub open spec fn spec_apply_override(
    args: Seq<MethodMacroArgV>,
    ov: MethodMacroArgV,
) -> Seq<MethodMacroArgV> {
    match spec_find_index(args, ov.ident, 0) {
        Some(j) => args.update(j, ov),
        None => args,
    }
}

/// The first `k` overrides applied in order; a later override of the
/// same identifier wins.
pub open spec fn spec_rebind_upto(
    args: Seq<MethodMacroArgV>,
    ovs: Seq<MethodMacroArgV>,
    k: int,
) -> Seq<MethodMacroArgV>
    decreases k,
{
    if k <= 0 {
        args
    } else {
        spec_apply_override(spec_rebind_upto(args, ovs, k - 1), ovs[k - 1])
    }
}

/// The first override at or after `k` that names no declared argument.
pub open spec fn spec_first_unresolved(
    args: Seq<MethodMacroArgV>,
    ovs: Seq<MethodMacroArgV>,
    k: int,
) -> Option<int>
    decreases ovs.len() - k,
{
    if 0 <= k < ovs.len() {
        if spec_find_index(args, ovs[k].ident, 0) is None {
            Some(k)
        } else {
            spec_first_unresolved(args, ovs, k + 1)
        }
    } else {
        None
    }
}

/// What rebinding a method does.  Rebinding an opaque closure always
/// fails; an override that names no declared argument fails, naming that
/// identifier, and leaves the method untouched; otherwise every override
/// lands on its declared argument.
pub open spec fn spec_rebind_result(m: LuaMethodV, ovs: Seq<MethodMacroArgV>) -> Result<
    LuaMethodV,
    ErrorV,
> {
    match m.closure {
        LuaClosureV::PureClosure { .. } => Err(
            ErrorV::Semantic(SemanticErrorV::RebindPureClosure),
        ),
        LuaClosureV::MetaClosure { args, expr } => {
            match spec_first_unresolved(args, ovs, 0) {
                Some(k) => Err(
                    ErrorV::Semantic(SemanticErrorV::UnknownArg { ident: ovs[k].ident }),
                ),
                None => Ok(
                    LuaMethodV {
                        docstring: m.docstring,
                        method_type: m.method_type,
                        closure: LuaClosureV::MetaClosure {
                            args: spec_rebind_upto(args, ovs, ovs.len() as int),
                            expr,
                        },
                        test: m.test,
                    },
                ),
            }
        },
    }
}

// ---------------------------------------------------------------------
// Facts about finding and overriding.
// ---------------------------------------------------------------------

pub proof fn lemma_find_index_props(args: Seq<MethodMacroArgV>, name: Seq<char>, i: int)
    requires
        0 <= i,
    ensures
        spec_find_index(args, name, i) matches Some(j) ==> i <= j < args.len() && args[j].ident
            == name,
    decreases args.len() - i,
{
    if 0 <= i < args.len() && args[i].ident != name {
        lemma_find_index_props(args, name, i + 1);
    }
}

/// Finding depends on the identifiers alone, and an override keeps every
/// identifier in place.
pub proof fn lemma_apply_override_find(
    args: Seq<MethodMacroArgV>,
    ov: MethodMacroArgV,
    name: Seq<char>,
    i: int,
)
    requires
        0 <= i,
    ensures
        spec_find_index(spec_apply_override(args, ov), name, i) == spec_find_index(args, name, i),
    decreases args.len() - i,
{
    lemma_find_index_props(args, ov.ident, 0);
    let args2 = spec_apply_override(args, ov);
    assert(args2.len() == args.len());
    assert(forall|j: int| 0 <= j < args.len() ==> (#[trigger] args2[j]).ident == args[j].ident);
    if 0 <= i < args.len() {
        lemma_apply_override_find(args, ov, name, i + 1);
    }
}

pub proof fn lemma_rebind_upto_find(
    args: Seq<MethodMacroArgV>,
    ovs: Seq<MethodMacroArgV>,
    k: int,
    name: Seq<char>,
)
    ensures
        spec_find_index(spec_rebind_upto(args, ovs, k), name, 0) == spec_find_index(args, name, 0),
    decreases k,
{
    if k > 0 {
        lemma_rebind_upto_find(args, ovs, k - 1, name);
        lemma_apply_override_find(spec_rebind_upto(args, ovs, k - 1), ovs[k - 1], name, 0);
    }
}

pub proof fn lemma_first_unresolved_none(
    args: Seq<MethodMacroArgV>,
    ovs: Seq<MethodMacroArgV>,
    i: int,
)
    requires
        0 <= i <= ovs.len(),
        forall|j: int|
            i <= j < ovs.len() ==> spec_find_index(args, (#[trigger] ovs[j]).ident, 0) is Some,
    ensures
        spec_first_unresolved(args, ovs, i) is None,
    decreases ovs.len() - i,
{
    if i < ovs.len() {
        lemma_first_unresolved_none(args, ovs, i + 1);
    }
}

pub proof fn lemma_first_unresolved_some(
    args: Seq<MethodMacroArgV>,
    ovs: Seq<MethodMacroArgV>,
    i: int,
    k: int,
)
    requires
        0 <= i <= k < ovs.len(),
        forall|j: int|
            i <= j < k ==> spec_find_index(args, (#[trigger] ovs[j]).ident, 0) is Some,
        spec_find_index(args, ovs[k].ident, 0) is None,
    ensures
        spec_first_unresolved(args, ovs, i) == Some(k),
    decreases k - i,
{
    if i < k {
        lemma_first_unresolved_some(args, ovs, i + 1, k);
    }
}

// ---------------------------------------------------------------------
// The executable engine.
// ---------------------------------------------------------------------

fn find_index_from(args: &Vec<MethodMacroArg>, name: &str, i: usize) -> (r: Option<usize>)
    ensures
        match r {
            Some(j) => spec_find_index(args.deep_view(), name@, i as int) == Some(j as int) && j
                < args.len(),
            None => spec_find_index(args.deep_view(), name@, i as int) is None,
        },
    decreases args.len() - i,
{
    proof {
        lemma_find_index_props(args.deep_view(), name@, i as int);
    }
    if i < args.len() {
        if str_eq(args[i].ident.as_str(), name) {
            Some(i)
        } else {
            find_index_from(args, name, i + 1)
        }
    } else {
        None
    }
}

/// Clones a list of template arguments.
fn clone_args(args: &Vec<MethodMacroArg>) -> (r: Vec<MethodMacroArg>)
    ensures
        r.deep_view() == args.deep_view(),
{
    let mut r: Vec<MethodMacroArg> = Vec::new();
    let mut i: usize = 0;
    while i < args.len()
        invariant
            i <= args.len(),
            r.deep_view() =~= args.deep_view().subrange(0, i as int),
        decreases args.len() - i,
    {
        let ghost prev = r.deep_view();
        r.push(args[i].clone());
        proof {
            assert(r.deep_view() =~= prev.push(args.deep_view()[i as int]));
            assert(r.deep_view() =~= args.deep_view().subrange(0, i + 1));
        }
        i = i + 1;
    }
    proof {
        assert(args.deep_view().subrange(0, args.len() as int) =~= args.deep_view());
    }
    r
}

fn subst_token(t: &Token, args: &Vec<MethodMacroArg>) -> (r: Vec<Token>)
    ensures
        r.deep_view() == spec_subst_tok(t.deep_view(), args.deep_view()),
{
    let ghost av = args.deep_view();
    match t {
        Token::Ident(n) => {
            match find_index_from(args, n.as_str(), 0) {
                Some(j) => {
                    proof {
                        lemma_find_index_props(av, n.deep_view(), 0);
                    }
                    let mut v: Vec<Token> = Vec::new();
                    args[j].replacement.to_tokens(&mut v);
                    v
                },
                None => {
                    let mut v: Vec<Token> = Vec::new();
                    v.push(t.clone());
                    proof {
                        assert(v.deep_view() =~= seq![t.deep_view()]);
                    }
                    v
                },
            }
        },
        _ => {
            let mut v: Vec<Token> = Vec::new();
            v.push(t.clone());
            proof {
                assert(v.deep_view() =~= seq![t.deep_view()]);
            }
            v
        },
    }
}

pub(crate) fn subst_from(expr: &Vec<Token>, args: &Vec<MethodMacroArg>, i: usize) -> (r: Vec<Token>)
    ensures
        r.deep_view() == spec_subst(expr.deep_view(), args.deep_view(), i as int),
    decreases expr.len() - i,
{
    if i < expr.len() {
        let mut head = subst_token(&expr[i], args);
        let ghost head_v = head.deep_view();
        let mut tail = subst_from(expr, args, i + 1);
        let ghost tail_v = tail.deep_view();
        head.append(&mut tail);
        proof {
            assert(head.deep_view() =~= head_v + tail_v);
        }
        head
    } else {
        let v: Vec<Token> = Vec::new();
        assert(v.deep_view() =~= Seq::<TokenV>::empty());
        v
    }
}

impl LuaClosure {
    /// The body ready for emission: placeholders resolved against the
    /// current bindings for a template closure, the lambda expression
    /// unchanged for an opaque one.
    pub fn to_applied_closure(&self) -> (r: Vec<Token>)
        ensures
            r.deep_view() == spec_applied_closure(self.deep_view()),
    {
        match self {
            LuaClosure::MetaClosure { args, expr } => subst_from(expr, args, 0),
            LuaClosure::PureClosure { expr } => clone_tokens(expr),
        }
    }
}

impl LuaMethod {
    /// Overrides declared template bindings with `overrides`.
    ///
    /// Every override must name a declared argument of the template
    /// closure; otherwise the call fails with a semantic error naming
    /// the first unmatched identifier and the method is left unchanged.
    /// Rebinding an opaque closure always fails.
    pub fn rebind_macro_args(&mut self, overrides: &Vec<MethodMacroArg>) -> (r: Result<(), Error>)
        ensures
            match r {
                Ok(()) => spec_rebind_result(old(self).deep_view(), overrides.deep_view())
                    == Ok::<LuaMethodV, ErrorV>(final(self).deep_view()),
                Err(e) => spec_rebind_result(old(self).deep_view(), overrides.deep_view())
                    == Err::<LuaMethodV, ErrorV>(e.deep_view()) && final(self).deep_view() == old(
                    self,
                ).deep_view(),
            },
    {
        let ghost ovs = overrides.deep_view();
        let is_template = match &self.closure {
            LuaClosure::MetaClosure { .. } => true,
            LuaClosure::PureClosure { .. } => false,
        };
        if !is_template {
            return Err(Error::Semantic(SemanticError::RebindPureClosure));
        }
        let (args0, expr0) = match &self.closure {
            LuaClosure::MetaClosure { args, expr } => (clone_args(args), clone_tokens(expr)),
            LuaClosure::PureClosure { .. } => (Vec::new(), Vec::new()),
        };
        let ghost av = args0.deep_view();
        let ghost ev = expr0.deep_view();
        proof {
            assert(old(self).deep_view().closure == (LuaClosureV::MetaClosure {
                args: av,
                expr: ev,
            }));
        }

        // Validate every override before touching anything.
        let mut k: usize = 0;
        while k < overrides.len()
            invariant
                k <= overrides.len(),
                av == args0.deep_view(),
                ovs == overrides.deep_view(),
                self.deep_view() == old(self).deep_view(),
                old(self).deep_view().closure == (LuaClosureV::MetaClosure {
                    args: av,
                    expr: ev,
                }),
                forall|j: int|
                    0 <= j < k ==> spec_find_index(av, (#[trigger] ovs[j]).ident, 0) is Some,
            decreases overrides.len() - k,
        {
            match find_index_from(&args0, overrides[k].ident.as_str(), 0) {
                Some(_) => {},
                None => {
                    proof {
                        lemma_first_unresolved_some(av, ovs, 0, k as int);
                        assert(spec_rebind_result(old(self).deep_view(), ovs) == Err::<
                            LuaMethodV,
                            ErrorV,
                        >(
                            ErrorV::Semantic(
                                SemanticErrorV::UnknownArg { ident: ovs[k as int].ident },
                            ),
                        ));
                    }
                    return Err(
                        Error::Semantic(
                            SemanticError::UnknownArg { ident: overrides[k].ident.clone() },
                        ),
                    );
                },
            }
            k = k + 1;
        }
        proof {
            lemma_first_unresolved_none(av, ovs, 0);
        }

        // Apply the overrides in order.
        let mut new_args = args0;
        let mut k2: usize = 0;
        while k2 < overrides.len()
            invariant
                k2 <= overrides.len(),
                ovs == overrides.deep_view(),
                new_args.deep_view() == spec_rebind_upto(av, ovs, k2 as int),
                self.deep_view() == old(self).deep_view(),
                old(self).deep_view().closure == (LuaClosureV::MetaClosure {
                    args: av,
                    expr: ev,
                }),
                ev == expr0.deep_view(),
                forall|j: int|
                    0 <= j < ovs.len() ==> spec_find_index(av, (#[trigger] ovs[j]).ident, 0)
                        is Some,
            decreases overrides.len() - k2,
        {
            let ghost cur = new_args.deep_view();
            proof {
                lemma_rebind_upto_find(av, ovs, k2 as int, ovs[k2 as int].ident);
            }
            match find_index_from(&new_args, overrides[k2].ident.as_str(), 0) {
                Some(j) => {
                    new_args[j] = overrides[k2].clone();
                    proof {
                        assert(new_args.deep_view() =~= cur.update(
                            j as int,
                            ovs[k2 as int],
                        ));
                        assert(new_args.deep_view() == spec_rebind_upto(av, ovs, k2 + 1));
                    }
                },
                None => {
                    proof {
                        assert(false);
                    }
                },
            }
            k2 = k2 + 1;
        }

        proof {
            lemma_first_unresolved_none(av, ovs, 0);
        }
        let ghost before = old(self).deep_view();
        self.closure = LuaClosure::MetaClosure { args: new_args, expr: expr0 };
        proof {
            assert(spec_rebind_result(before, ovs) == Ok::<LuaMethodV, ErrorV>(
                self.deep_view(),
            ));
        }
        Ok(())
    }
}

} // verus!
