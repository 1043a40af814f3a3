use vstd::prelude::*;
use crate::token::Span;

verus! {

/// What a parser expected to find where it failed.
#[derive(Clone, Copy, Debug, PartialEq, Eq, Structural)]
pub enum Expectation {
    /// An identifier.
    Ident,
    /// A string.
    Str,
    /// A percentage.
    Percent,
    /// A function such as `url(...)`.
    Function,
    /// A function or a url, as in `@document url(...)`.
    FnValue,
    /// `url('https://example.com')` or `'https://example.com'`.
    ImportUrl,
    /// `{`
    LBrace,
    /// `}`
    RBrace,
    /// `)`
    RParen,
    /// `:`
    Colon,
}

/// Why parsing failed.
#[derive(Clone, Copy, Debug, PartialEq, Eq, Structural)]
pub enum ErrorKind {
    /// The input ended where a token was needed.
    Eof,
    /// Something else stood where the parser expected the given thing.
    Expected(Expectation),
    InvalidKeyframeSelector,
    InvalidSupportQuery,
    InvalidMediaQuery,
    /// An unknown at-rule without a block was followed by something other
    /// than `;` or the end of the input.
    UnknownAtRuleNotTerminated,
}

/// A parse error: where and why.
#[derive(Clone, Copy, Debug, PartialEq, Eq, Structural)]
pub struct Error {
    pub span: Span,
    pub kind: ErrorKind,
}

} // verus!
