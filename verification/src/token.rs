use vstd::prelude::*;

verus! {

/// One token of the method-description language.
///
/// The language is brought to the library as a sequence of these plain
/// tokens; a thin adapter outside the library turns a host token stream
/// into them.  Documentation comments arrive already extracted, as
/// `DocString` tokens carrying the comment text.
#[derive(Debug, PartialEq, Eq)]
pub enum Token {
    /// An identifier or keyword (`impl`, `static`, `mut`, `fn`, names).
    Ident(String),
    /// A string literal; the field holds its contents, without quotes.
    StrLit(String),
    /// A documentation comment attached to the method that follows it.
    DocString(String),
    OpenParen,
    CloseParen,
    OpenBrace,
    CloseBrace,
    OpenBracket,
    CloseBracket,
    /// The arrow `=>`.
    Arrow,
    /// A single equals sign `=`.
    Equals,
    Comma,
    Semi,
    /// The path separator `::`.
    PathSep,
    /// Any other punctuation character.
    Punct(char),
}

/// The mathematical value of a token: the same shape, over `Seq<char>`.
pub enum TokenV {
    Ident(Seq<char>),
    StrLit(Seq<char>),
    DocString(Seq<char>),
    OpenParen,
    CloseParen,
    OpenBrace,
    CloseBrace,
    OpenBracket,
    CloseBracket,
    Arrow,
    Equals,
    Comma,
    Semi,
    PathSep,
    Punct(char),
}

impl DeepView for Token {
    type V = TokenV;

    open spec fn deep_view(&self) -> TokenV {
        match self {
            Token::Ident(s) => TokenV::Ident(s.deep_view()),
            Token::StrLit(s) => TokenV::StrLit(s.deep_view()),
            Token::DocString(s) => TokenV::DocString(s.deep_view()),
            Token::OpenParen => TokenV::OpenParen,
            Token::CloseParen => TokenV::CloseParen,
            Token::OpenBrace => TokenV::OpenBrace,
            Token::CloseBrace => TokenV::CloseBrace,
            Token::OpenBracket => TokenV::OpenBracket,
            Token::CloseBracket => TokenV::CloseBracket,
            Token::Arrow => TokenV::Arrow,
            Token::Equals => TokenV::Equals,
            Token::Comma => TokenV::Comma,
            Token::Semi => TokenV::Semi,
            Token::PathSep => TokenV::PathSep,
            Token::Punct(c) => TokenV::Punct(*c),
        }
    }
}

impl Clone for Token {
    fn clone(&self) -> (r: Self)
        ensures
            r == *self,
    {
        match self {
            Token::Ident(s) => Token::Ident(s.clone()),
            Token::StrLit(s) => Token::StrLit(s.clone()),
            Token::DocString(s) => Token::DocString(s.clone()),
            Token::OpenParen => Token::OpenParen,
            Token::CloseParen => Token::CloseParen,
            Token::OpenBrace => Token::OpenBrace,
            Token::CloseBrace => Token::CloseBrace,
            Token::OpenBracket => Token::OpenBracket,
            Token::CloseBracket => Token::CloseBracket,
            Token::Arrow => Token::Arrow,
            Token::Equals => Token::Equals,
            Token::Comma => Token::Comma,
            Token::Semi => Token::Semi,
            Token::PathSep => Token::PathSep,
            Token::Punct(c) => Token::Punct(*c),
        }
    }
}

/// How a token changes the nesting depth of delimiters.
pub open spec fn tok_depth(t: TokenV) -> int {
    match t {
        TokenV::OpenParen => 1,
        TokenV::OpenBrace => 1,
        TokenV::OpenBracket => 1,
        TokenV::CloseParen => -1,
        TokenV::CloseBrace => -1,
        TokenV::CloseBracket => -1,
        _ => 0,
    }
}

pub open spec fn is_opener(t: TokenV) -> bool {
    tok_depth(t) == 1
}

pub open spec fn is_closer(t: TokenV) -> bool {
    tok_depth(t) == -1
}

/// The delimiter depth after reading the first `i` tokens of `s`.
pub open spec fn prefix_depth(s: Seq<TokenV>, i: int) -> int
    decreases i,
{
    if i <= 0 {
        0
    } else {
        prefix_depth(s, i - 1) + tok_depth(s[i - 1])
    }
}

/// A token run whose delimiters nest properly and close completely.
pub open spec fn balanced(s: Seq<TokenV>) -> bool {
    &&& forall|i: int| 0 <= i <= s.len() ==> prefix_depth(s, i) >= 0
    &&& prefix_depth(s, s.len() as int) == 0
}

/// A token run that can stand as an undelimited closure expression:
/// balanced, not empty, and with no terminator (`;` or `=>`) at depth
/// zero, so that a later scan stops exactly where this run ends.
pub open spec fn pure_expr_ok(s: Seq<TokenV>) -> bool {
    &&& balanced(s)
    &&& s.len() > 0
    &&& forall|i: int|
        0 <= i < s.len() && prefix_depth(s, i) == 0 ==> !(s[i] is Semi || s[i] is Arrow)
}

/// Relies on str's `PartialEq`: two string slices are equal exactly when
/// they hold the same characters.
#[verifier::external_body]
pub fn str_eq(a: &str, b: &str) -> (r: bool)
    ensures
        r == (a@ == b@),
{
    a == b
}

/// Clones a range of a token vector.
pub fn copy_range(input: &Vec<Token>, from: usize, to: usize) -> (r: Vec<Token>)
    requires
        from <= to <= input.len(),
    ensures
        r.deep_view() == input.deep_view().subrange(from as int, to as int),
{
    let mut r: Vec<Token> = Vec::new();
    let mut i: usize = from;
    while i < to
        invariant
            from <= i <= to <= input.len(),
            r.deep_view() =~= input.deep_view().subrange(from as int, i as int),
        decreases to - i,
    {
        let ghost prev = r.deep_view();
        r.push(input[i].clone());
        proof {
            assert(r.deep_view() =~= prev.push(input.deep_view()[i as int]));
            assert(prev.push(input.deep_view()[i as int]) =~= input.deep_view().subrange(
                from as int,
                i + 1,
            ));
        }
        i = i + 1;
    }
    assert(r.deep_view() =~= input.deep_view().subrange(from as int, to as int));
    r
}

/// Clones a whole token vector.
pub fn clone_tokens(input: &Vec<Token>) -> (r: Vec<Token>)
    ensures
        r.deep_view() == input.deep_view(),
{
    let r = copy_range(input, 0, input.len());
    assert(input.deep_view().subrange(0, input.len() as int) =~= input.deep_view());
    r
}

} // verus!
