//! Executable reading of a token stream; each operation computes its
//! counterpart in [`crate::cursor`].
use vstd::prelude::*;
use crate::ast::Text;
use crate::cursor::{self, tv};
use crate::error::{Error, ErrorKind};
use crate::token::{Span, TokenAndSpan, TokenKind};

verus! {

// ---------------------------------------------------------------------------

/// Whether the token at `pos` has kind `k`.
pub fn kind_is(input: &Vec<TokenAndSpan>, pos: usize, k: TokenKind) -> (r: bool)
    ensures
        r == cursor::is_kind(tv(input), pos as int, k),
{
    pos < input.len() && input[pos].token.kind == k
}

/// Whether the token at `pos` is the identifier `name`.
pub fn ident_is(input: &Vec<TokenAndSpan>, pos: usize, name: &str) -> (r: bool)
    ensures
        r == cursor::is_ident_named(tv(input), pos as int, name@),
{
    pos < input.len() && input[pos].token.kind == TokenKind::Ident && crate::text::text_is(
        &input[pos].token.value,
        name,
    )
}

/// The end of the last token consumed before `pos`.
pub fn last_pos(input: &Vec<TokenAndSpan>, pos: usize) -> (r: u32)
    requires
        pos <= input.len(),
    ensures
        r == cursor::last_pos(tv(input), pos as int),
{
    if pos > 0 {
        input[pos - 1].span.hi
    } else {
        0
    }
}

/// The span of the token at `pos`.
pub fn cur_span(input: &Vec<TokenAndSpan>, pos: usize) -> (r: Span)
    requires
        pos <= input.len(),
    ensures
        r == cursor::cur_span(tv(input), pos as int),
{
    if pos < input.len() {
        input[pos].span
    } else {
        let l = last_pos(input, pos);
        Span { lo: l, hi: l }
    }
}

/// The span between two offsets, whichever comes first.
pub fn span_new(lo: u32, hi: u32) -> (r: Span)
    ensures
        r == cursor::span_new(lo, hi),
{
    if lo <= hi {
        Span { lo, hi }
    } else {
        Span { lo: hi, hi: lo }
    }
}

/// The span from `start` to the end of the last token consumed before `pos`.
pub fn span_since(input: &Vec<TokenAndSpan>, start: u32, pos: usize) -> (r: Span)
    requires
        pos <= input.len(),
    ensures
        r == cursor::span_since(tv(input), start, pos as int),
{
    span_new(start, last_pos(input, pos))
}

/// An error at the token at `pos`.
pub fn error_at(input: &Vec<TokenAndSpan>, pos: usize, kind: ErrorKind) -> (r: Error)
    requires
        pos <= input.len(),
    ensures
        r == cursor::error_at(tv(input), pos as int, kind),
{
    Error { span: cur_span(input, pos), kind }
}

/// The position after the whitespace at `pos`.
pub fn skip_ws(input: &Vec<TokenAndSpan>, pos: usize) -> (r: usize)
    requires
        pos <= input.len(),
    ensures
        r as int == cursor::skip_ws(tv(input), pos as int),
        pos <= r <= input.len(),
{
    let mut i = pos;
    while i < input.len() && input[i].token.kind == TokenKind::WhiteSpace
        invariant
            pos <= i <= input.len(),
            cursor::skip_ws(tv(input), pos as int) == cursor::skip_ws(tv(input), i as int),
        decreases input.len() - i,
    {
        i += 1;
    }
    i
}

/// The position after the token at `pos` if it has kind `k`, else `pos`.
pub fn eat(input: &Vec<TokenAndSpan>, pos: usize, k: TokenKind) -> (r: usize)
    requires
        pos <= input.len(),
    ensures
        r as int == cursor::eat(tv(input), pos as int, k),
        pos <= r <= input.len(),
{
    if kind_is(input, pos, k) {
        pos + 1
    } else {
        pos
    }
}

/// The text of the token at `i`, with the given span.
pub fn text_of(input: &Vec<TokenAndSpan>, i: usize, span: Span) -> (r: Text)
    requires
        i < input.len(),
    ensures
        r@ == cursor::text_of(tv(input)[i as int], span),
{
    Text { span, value: input[i].token.value.clone(), raw: input[i].token.raw.clone() }
}

/// The empty text at no place.
pub fn empty_text() -> (r: Text)
    ensures
        r@ == cursor::empty_text(),
{
    Text { span: Span { lo: 0, hi: 0 }, value: String::new(), raw: String::new() }
}

} // verus!
