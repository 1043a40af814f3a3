//! Reading a token stream: the current token, whitespace, spans.
//!
//! Positions are indices into the token stream; a parser that succeeds
//! reports how many tokens it consumed.
use vstd::prelude::*;
use crate::ast::SpecText;
use crate::error::{Error, ErrorKind};
use crate::token::{Span, SpecToken, TokenAndSpan, TokenKind, tokens_view};

verus! {

/// The outcome of a specification parser: the value and the number of tokens
/// it consumed, or the error.
pub type SRes<T> = Result<(T, nat), Error>;

/// The view of the token stream a parser reads.
pub open spec fn tv(input: &Vec<TokenAndSpan>) -> Seq<SpecToken> {
    tokens_view(input@)
}

/// An executable parser's result, started at `pos`, agrees with the
/// specification parser's outcome `s`: the same value (by its view) and the
/// same number of consumed tokens, or the same error.
pub open spec fn agrees<X: View>(res: Result<(X, usize), Error>, pos: usize, s: SRes<X::V>) -> bool {
    match res {
        Ok((x, q)) => pos <= q && s == Ok::<(X::V, nat), Error>((x@, (q - pos) as nat)),
        Err(e) => s == Err::<(X::V, nat), Error>(e),
    }
}

/// The outcome `r` of parsing a list from `i` on, with `items` already parsed
/// from `p0` on put in front of it.
pub open spec fn prepend<T>(items: Seq<T>, p0: int, i: int, r: SRes<Seq<T>>) -> SRes<Seq<T>> {
    match r {
        Ok((xs, m)) => Ok((items + xs, (i + m - p0) as nat)),
        Err(e) => Err(e),
    }
}

/// A successful parse started at `pos` consumed at least one token and ended
/// within the input.
pub open spec fn advances<X>(res: Result<(X, usize), Error>, pos: usize, len: usize) -> bool {
    match res {
        Ok((_, q)) => pos < q <= len,
        Err(_) => true,
    }
}

/// A successful parse started at `pos` ended at or after it, within the
/// input.
pub open spec fn within<X>(res: Result<(X, usize), Error>, pos: usize, len: usize) -> bool {
    match res {
        Ok((_, q)) => pos <= q <= len,
        Err(_) => true,
    }
}

pub open spec fn is_kind(t: Seq<SpecToken>, p: int, k: TokenKind) -> bool {
    0 <= p < t.len() && t[p].kind == k
}

pub open spec fn is_eof(t: Seq<SpecToken>, p: int) -> bool {
    p >= t.len()
}

/// The token at `p` is the identifier `name` (compared exactly).
pub open spec fn is_ident_named(t: Seq<SpecToken>, p: int, name: Seq<char>) -> bool {
    is_kind(t, p, TokenKind::Ident) && t[p].value == name
}

/// The end of the last token consumed before `p` (0 before the first).
pub open spec fn last_pos(t: Seq<SpecToken>, p: int) -> u32 {
    if 0 < p <= t.len() {
        t[p - 1].span.hi
    } else {
        0
    }
}

/// The span of the token at `p`; at the end of the input, the empty span at
/// the end of the last token.
pub open spec fn cur_span(t: Seq<SpecToken>, p: int) -> Span {
    if 0 <= p < t.len() {
        t[p].span
    } else {
        Span { lo: last_pos(t, p), hi: last_pos(t, p) }
    }
}

/// The span between two offsets, whichever comes first.
pub open spec fn span_new(lo: u32, hi: u32) -> Span {
    if lo <= hi {
        Span { lo, hi }
    } else {
        Span { lo: hi, hi: lo }
    }
}

/// The span from `start` to the end of the last token consumed before `p`.
pub open spec fn span_since(t: Seq<SpecToken>, start: u32, p: int) -> Span {
    span_new(start, last_pos(t, p))
}

/// The span that stands for "no place".
pub open spec fn dummy_span() -> Span {
    Span { lo: 0, hi: 0 }
}

/// An error at the token at `p`.
pub open spec fn error_at(t: Seq<SpecToken>, p: int, kind: ErrorKind) -> Error {
    Error { span: cur_span(t, p), kind }
}

/// The number of whitespace tokens from `p` on.
pub open spec fn ws_run(t: Seq<SpecToken>, p: int) -> nat
    decreases t.len() - p,
{
    if is_kind(t, p, TokenKind::WhiteSpace) {
        1 + ws_run(t, p + 1)
    } else {
        0
    }
}

/// The position after the whitespace at `p`.
pub open spec fn skip_ws(t: Seq<SpecToken>, p: int) -> int {
    p + ws_run(t, p)
}

/// The position after the token at `p` if it has kind `k`, else `p`.
pub open spec fn eat(t: Seq<SpecToken>, p: int, k: TokenKind) -> int {
    if is_kind(t, p, k) {
        p + 1
    } else {
        p
    }
}

/// The text of a token, with the given span.
pub open spec fn text_of(tok: SpecToken, span: Span) -> SpecText {
    SpecText { span, value: tok.value, raw: tok.raw }
}

/// The empty text at no place.
pub open spec fn empty_text() -> SpecText {
    SpecText { span: dummy_span(), value: Seq::empty(), raw: Seq::empty() }
}

/// Skipping whitespace never moves back, stops at a token that is not
/// whitespace, and only moves past `p` within the input.
pub proof fn lemma_skip_ws(t: Seq<SpecToken>, p: int)
    ensures
        p <= skip_ws(t, p),
        skip_ws(t, p) > p ==> 0 <= p && skip_ws(t, p) <= t.len(),
        0 <= p <= t.len() ==> skip_ws(t, p) <= t.len(),
        !is_kind(t, skip_ws(t, p), TokenKind::WhiteSpace),
        forall|i: int| p <= i < skip_ws(t, p) ==> #[trigger] is_kind(t, i, TokenKind::WhiteSpace),
    decreases t.len() - p,
{
    if is_kind(t, p, TokenKind::WhiteSpace) {
        lemma_skip_ws(t, p + 1);
    }
}

} // verus!
