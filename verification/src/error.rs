use vstd::prelude::*;

verus! {

/// What a syntax error expected to find at the offending position.
#[derive(Clone, Copy, PartialEq, Eq, Structural, Debug)]
pub enum SyntaxKind {
    /// The input did not begin with the `impl` keyword.
    ExpectedImpl,
    /// An identifier was expected (a path segment or argument name).
    ExpectedIdent,
    /// A method discriminator was expected: a string literal or a
    /// parenthesized meta-operator path.
    ExpectedDiscriminator,
    /// The arrow `=>` introducing a closure body was expected.
    ExpectedArrow,
    /// An `=` between a template argument and its binding was expected.
    ExpectedEquals,
    /// An opening brace was expected.
    ExpectedOpenBrace,
    /// A closing brace was expected.
    ExpectedCloseBrace,
    /// A closing parenthesis was expected.
    ExpectedCloseParen,
    /// A `,` or closing parenthesis after a template argument was expected.
    ExpectedCommaOrCloseParen,
    /// A `;` or closing brace after a method entry was expected.
    ExpectedSemiOrCloseBrace,
    /// A closure expression was expected and none was found.
    ExpectedExpression,
    /// The input ended inside an unclosed delimiter.
    MissingCloseDelimiter,
    /// Tokens remained after the block was fully parsed.
    UnexpectedToken,
}

/// A malformed token sequence, with the token index where parsing failed.
#[derive(Debug, PartialEq, Eq)]
pub struct SyntaxError {
    pub pos: usize,
    pub kind: SyntaxKind,
}

/// A failure of rebinding, carrying the offending context.
#[derive(Debug, PartialEq, Eq)]
pub enum SemanticError {
    /// A rebinding named an identifier that the closure does not declare.
    UnknownArg { ident: String },
    /// Rebinding was invoked on a closure that is not a template.
    RebindPureClosure,
}

#[derive(Debug, PartialEq, Eq)]
pub enum Error {
    Syntax(SyntaxError),
    Semantic(SemanticError),
}

pub struct SyntaxErrorV {
    pub pos: int,
    pub kind: SyntaxKind,
}

pub enum SemanticErrorV {
    UnknownArg { ident: Seq<char> },
    RebindPureClosure,
}

pub enum ErrorV {
    Syntax(SyntaxErrorV),
    Semantic(SemanticErrorV),
}

impl DeepView for SyntaxError {
    type V = SyntaxErrorV;

    open spec fn deep_view(&self) -> SyntaxErrorV {
        SyntaxErrorV { pos: self.pos as int, kind: self.kind }
    }
}

impl DeepView for SemanticError {
    type V = SemanticErrorV;

    open spec fn deep_view(&self) -> SemanticErrorV {
        match self {
            SemanticError::UnknownArg { ident } => (SemanticErrorV::UnknownArg {
                ident: ident.deep_view(),
            }),
            SemanticError::RebindPureClosure => SemanticErrorV::RebindPureClosure,
        }
    }
}

impl DeepView for Error {
    type V = ErrorV;

    open spec fn deep_view(&self) -> ErrorV {
        match self {
            Error::Syntax(e) => ErrorV::Syntax(e.deep_view()),
            Error::Semantic(e) => ErrorV::Semantic(e.deep_view()),
        }
    }
}

/// Builds the syntax-error value used throughout the parser specification.
pub open spec fn syntax_err(pos: int, kind: SyntaxKind) -> ErrorV {
    ErrorV::Syntax(SyntaxErrorV { pos, kind })
}

impl Error {
    /// A short human-readable description of the failure.
    pub fn message(&self) -> (r: String)
        ensures
            r@.len() > 0,
    {
        let m: &str = match self {
            Error::Syntax(e) => match e.kind {
                SyntaxKind::ExpectedImpl => "expected `impl`",
                SyntaxKind::ExpectedIdent => "expected an identifier",
                SyntaxKind::ExpectedDiscriminator => (
                "expected a method name literal or a parenthesized meta operator"),
                SyntaxKind::ExpectedArrow => "expected `=>`",
                SyntaxKind::ExpectedEquals => "expected `=`",
                SyntaxKind::ExpectedOpenBrace => "expected `{`",
                SyntaxKind::ExpectedCloseBrace => "expected `}`",
                SyntaxKind::ExpectedCloseParen => "expected `)`",
                SyntaxKind::ExpectedCommaOrCloseParen => "expected `,` or `)`",
                SyntaxKind::ExpectedSemiOrCloseBrace => "expected `;` or `}`",
                SyntaxKind::ExpectedExpression => "expected an expression",
                SyntaxKind::MissingCloseDelimiter => "input ended inside an unclosed delimiter",
                SyntaxKind::UnexpectedToken => "unexpected token after the block",
            },
            Error::Semantic(SemanticError::UnknownArg { .. }) => (
            "invalid argument in macro invocation: no corresponding variable"),
            Error::Semantic(SemanticError::RebindPureClosure) => (
            "attempted to invoke macro args on non-meta closure"),
        };
        proof {
            reveal_strlit("expected `impl`");
            reveal_strlit("expected an identifier");
            reveal_strlit("expected a method name literal or a parenthesized meta operator");
            reveal_strlit("expected `=>`");
            reveal_strlit("expected `=`");
            reveal_strlit("expected `{`");
            reveal_strlit("expected `}`");
            reveal_strlit("expected `)`");
            reveal_strlit("expected `,` or `)`");
            reveal_strlit("expected `;` or `}`");
            reveal_strlit("expected an expression");
            reveal_strlit("input ended inside an unclosed delimiter");
            reveal_strlit("unexpected token after the block");
            reveal_strlit("invalid argument in macro invocation: no corresponding variable");
            reveal_strlit("attempted to invoke macro args on non-meta closure");
        }
        m.to_owned()
    }
}

} // verus!
