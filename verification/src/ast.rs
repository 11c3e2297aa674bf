use vstd::prelude::*;

use crate::token::{balanced, pure_expr_ok, Token, TokenV};

verus! {

/// A type path: one or more identifier segments separated by `::`.
#[derive(Debug, PartialEq, Eq)]
pub struct TypePath {
    pub segments: Vec<String>,
}

pub struct TypePathV {
    pub segments: Seq<Seq<char>>,
}

impl DeepView for TypePath {
    type V = TypePathV;

    open spec fn deep_view(&self) -> TypePathV {
        TypePathV { segments: self.segments.deep_view() }
    }
}

impl Clone for TypePath {
    fn clone(&self) -> (r: Self)
        ensures
            r.deep_view() == self.deep_view(),
    {
        let mut segments: Vec<String> = Vec::new();
        let mut i: usize = 0;
        while i < self.segments.len()
            invariant
                i <= self.segments.len(),
                segments.deep_view() =~= self.segments.deep_view().subrange(0, i as int),
            decreases self.segments.len() - i,
        {
            let ghost prev = segments.deep_view();
            segments.push(self.segments[i].clone());
            proof {
                assert(segments.deep_view() =~= prev.push(self.segments.deep_view()[i as int]));
                assert(prev.push(self.segments.deep_view()[i as int])
                    =~= self.segments.deep_view().subrange(0, i + 1));
            }
            i = i + 1;
        }
        assert(segments.deep_view() =~= self.segments.deep_view());
        TypePath { segments }
    }
}

/// One template argument of a meta closure: a placeholder identifier and
/// the type path currently bound to it.
#[derive(Debug, PartialEq, Eq)]
pub struct MethodMacroArg {
    pub ident: String,
    pub replacement: TypePath,
}

pub struct MethodMacroArgV {
    pub ident: Seq<char>,
    pub replacement: TypePathV,
}

impl DeepView for MethodMacroArg {
    type V = MethodMacroArgV;

    open spec fn deep_view(&self) -> MethodMacroArgV {
        MethodMacroArgV { ident: self.ident.deep_view(), replacement: self.replacement.deep_view() }
    }
}

impl Clone for MethodMacroArg {
    fn clone(&self) -> (r: Self)
        ensures
            r.deep_view() == self.deep_view(),
    {
        MethodMacroArg { ident: self.ident.clone(), replacement: self.replacement.clone() }
    }
}

/// The kind of a method: its flags and its discriminator.
///
/// Exactly one of `meta_method` and `method_name` is set: `meta_method`
/// when `is_meta`, `method_name` otherwise.  `wf` states this invariant;
/// parsing establishes it.
#[derive(Debug, PartialEq, Eq)]
pub struct LuaMethodType {
    /// Does it take the receiver mutably?
    pub is_mut: bool,
    /// Should it be inlined into the global API?
    pub is_static: bool,
    /// Is it part of the metatable?
    pub is_meta: bool,
    /// Is it a function rather than a method?
    pub is_function: bool,
    /// The meta-operator path; present exactly when `is_meta`.
    pub meta_method: Option<TypePath>,
    /// The method-name literal; present exactly when `!is_meta`.
    pub method_name: Option<String>,
}

pub struct LuaMethodTypeV {
    pub is_mut: bool,
    pub is_static: bool,
    pub is_meta: bool,
    pub is_function: bool,
    pub meta_method: Option<TypePathV>,
    pub method_name: Option<Seq<char>>,
}

impl DeepView for LuaMethodType {
    type V = LuaMethodTypeV;

    open spec fn deep_view(&self) -> LuaMethodTypeV {
        LuaMethodTypeV {
            is_mut: self.is_mut,
            is_static: self.is_static,
            is_meta: self.is_meta,
            is_function: self.is_function,
            meta_method: self.meta_method.deep_view(),
            method_name: self.method_name.deep_view(),
        }
    }
}

/// The closure attached to a method entry.
#[derive(Debug, PartialEq, Eq)]
pub enum LuaClosure {
    /// A body template with named, substitutable type placeholders.
    MetaClosure { args: Vec<MethodMacroArg>, expr: Vec<Token> },
    /// An opaque lambda expression, emitted as written.
    PureClosure { expr: Vec<Token> },
}

pub enum LuaClosureV {
    MetaClosure { args: Seq<MethodMacroArgV>, expr: Seq<TokenV> },
    PureClosure { expr: Seq<TokenV> },
}

impl DeepView for LuaClosure {
    type V = LuaClosureV;

    open spec fn deep_view(&self) -> LuaClosureV {
        match self {
            LuaClosure::MetaClosure { args, expr } => LuaClosureV::MetaClosure {
                args: args.deep_view(),
                expr: expr.deep_view(),
            },
            LuaClosure::PureClosure { expr } => LuaClosureV::PureClosure { expr: expr.deep_view() },
        }
    }
}

/// A brace-delimited test expression attached to a method entry.
#[derive(Debug, PartialEq, Eq)]
pub struct Test {
    pub ts: Vec<Token>,
}

pub struct TestV {
    pub ts: Seq<TokenV>,
}

impl DeepView for Test {
    type V = TestV;

    open spec fn deep_view(&self) -> TestV {
        TestV { ts: self.ts.deep_view() }
    }
}

/// One method entry: documentation, kind, closure, and optional test.
#[derive(Debug, PartialEq, Eq)]
pub struct LuaMethod {
    pub docstring: Vec<String>,
    pub method_type: LuaMethodType,
    pub closure: LuaClosure,
    pub test: Option<Test>,
}

pub struct LuaMethodV {
    pub docstring: Seq<Seq<char>>,
    pub method_type: LuaMethodTypeV,
    pub closure: LuaClosureV,
    pub test: Option<TestV>,
}

impl DeepView for LuaMethod {
    type V = LuaMethodV;

    open spec fn deep_view(&self) -> LuaMethodV {
        LuaMethodV {
            docstring: self.docstring.deep_view(),
            method_type: self.method_type.deep_view(),
            closure: self.closure.deep_view(),
            test: self.test.deep_view(),
        }
    }
}

/// A whole invocation: the ordered method entries of one `impl` block.
#[derive(Debug, PartialEq, Eq)]
pub struct UserdataBlock {
    pub functions: Vec<LuaMethod>,
}

pub struct UserdataBlockV {
    pub functions: Seq<LuaMethodV>,
}

impl DeepView for UserdataBlock {
    type V = UserdataBlockV;

    open spec fn deep_view(&self) -> UserdataBlockV {
        UserdataBlockV { functions: self.functions.deep_view() }
    }
}

// Well-formedness: what parsing establishes, and what serialization and
// generation rely on.

impl TypePathV {
    pub open spec fn wf(self) -> bool {
        self.segments.len() > 0
    }
}

impl MethodMacroArgV {
    pub open spec fn wf(self) -> bool {
        self.replacement.wf()
    }
}

impl LuaMethodTypeV {
    /// Exactly one of the meta-operator path and the method-name literal
    /// is present, as the `is_meta` flag says.
    pub open spec fn wf(self) -> bool {
        &&& self.is_meta ==> (self.meta_method matches Some(p) && p.wf() && self.method_name
            is None)
        &&& !self.is_meta ==> (self.method_name is Some && self.meta_method is None)
    }
}

impl LuaClosureV {
    pub open spec fn wf(self) -> bool {
        match self {
            LuaClosureV::MetaClosure { args, expr } => {
                &&& balanced(expr)
                &&& forall|i: int| 0 <= i < args.len() ==> (#[trigger] args[i]).wf()
            },
            LuaClosureV::PureClosure { expr } => pure_expr_ok(expr),
        }
    }
}

impl TestV {
    pub open spec fn wf(self) -> bool {
        balanced(self.ts)
    }
}

impl LuaMethodV {
    pub open spec fn wf(self) -> bool {
        &&& self.method_type.wf()
        &&& self.closure.wf()
        &&& self.test matches Some(t) ==> t.wf()
    }
}

impl UserdataBlockV {
    pub open spec fn wf(self) -> bool {
        forall|i: int| 0 <= i < self.functions.len() ==> (#[trigger] self.functions[i]).wf()
    }
}

} // verus!
