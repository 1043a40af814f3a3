//! The smaller pieces an at-rule is made of: identifiers, strings,
//! percentages, functions, `{ ... }` blocks, runs of rule tokens and
//! declarations. Each comes as a specification parser (`spec_parse_*`) and an
//! executable parser (`parse_*`) proved to compute it.
use vstd::prelude::*;
use crate::ast::{
    Declaration, FnValue, Function, Percent, SimpleBlock, SpecDeclaration, SpecFnValue, SpecFunction,
    SpecPercent, SpecText, SpecTokens, SpecUrlValue, Text, Tokens, UrlValue,
};
use crate::cursor::{
    SRes, agrees, advances, cur_span, error_at, is_kind, skip_ws, span_since, text_of, tv,
};
use crate::error::{Error, ErrorKind, Expectation};
use crate::input;
use crate::token::{SpecToken, TokenAndSpan, TokenKind, copy_tokens};

verus! {

// ---------------------------------------------------------------------------
// Scanning runs of tokens
// ---------------------------------------------------------------------------

/// The number of tokens from `q` on before the `)` that closes `depth` open
/// parentheses (a function token opens one), or before the end of the input.
pub open spec fn paren_run(t: Seq<SpecToken>, q: int, depth: nat) -> nat
    decreases t.len() - q,
{
    if q < 0 || q >= t.len() {
        0
    } else if t[q].kind == TokenKind::RParen {
        if depth == 0 {
            0
        } else {
            1 + paren_run(t, q + 1, (depth - 1) as nat)
        }
    } else if t[q].kind == TokenKind::LParen || t[q].kind == TokenKind::Function {
        1 + paren_run(t, q + 1, depth + 1)
    } else {
        1 + paren_run(t, q + 1, depth)
    }
}

/// The number of tokens from `q` on before the `}` that closes `depth` open
/// braces, or before the end of the input.
pub open spec fn brace_run(t: Seq<SpecToken>, q: int, depth: nat) -> nat
    decreases t.len() - q,
{
    if q < 0 || q >= t.len() {
        0
    } else if t[q].kind == TokenKind::RBrace {
        if depth == 0 {
            0
        } else {
            1 + brace_run(t, q + 1, (depth - 1) as nat)
        }
    } else if t[q].kind == TokenKind::LBrace {
        1 + brace_run(t, q + 1, depth + 1)
    } else {
        1 + brace_run(t, q + 1, depth)
    }
}

/// The number of tokens of a declaration value from `q` on: up to a `;`,
/// `}` or `)` outside any parentheses opened within it, or the end.
pub open spec fn value_run(t: Seq<SpecToken>, q: int, depth: nat) -> nat
    decreases t.len() - q,
{
    if q < 0 || q >= t.len() {
        0
    } else if depth == 0 && (t[q].kind == TokenKind::Semi || t[q].kind == TokenKind::RBrace
        || t[q].kind == TokenKind::RParen) {
        0
    } else if t[q].kind == TokenKind::RParen {
        1 + value_run(t, q + 1, (depth - 1) as nat)
    } else if t[q].kind == TokenKind::LParen || t[q].kind == TokenKind::Function {
        1 + value_run(t, q + 1, depth + 1)
    } else {
        1 + value_run(t, q + 1, depth)
    }
}

/// The number of tokens from `q` on before the next `{` or the end.
pub open spec fn prelude_run(t: Seq<SpecToken>, q: int) -> nat
    decreases t.len() - q,
{
    if q < 0 || q >= t.len() || t[q].kind == TokenKind::LBrace {
        0
    } else {
        1 + prelude_run(t, q + 1)
    }
}

/// The number of tokens from `q` on before the next `;` or the end.
pub open spec fn semi_run(t: Seq<SpecToken>, q: int) -> nat
    decreases t.len() - q,
{
    if q < 0 || q >= t.len() || t[q].kind == TokenKind::Semi {
        0
    } else {
        1 + semi_run(t, q + 1)
    }
}

/// The runs that start within the input end within it.
pub proof fn lemma_run_bounds(t: Seq<SpecToken>, q: int, depth: nat)
    requires
        0 <= q <= t.len(),
    ensures
        q + paren_run(t, q, depth) <= t.len(),
        q + brace_run(t, q, depth) <= t.len(),
        q + value_run(t, q, depth) <= t.len(),
        q + semi_run(t, q) <= t.len(),
    decreases t.len() - q,
{
    if q < t.len() {
        lemma_run_bounds(t, q + 1, depth + 1);
        lemma_run_bounds(t, q + 1, depth);
        if depth > 0 {
            lemma_run_bounds(t, q + 1, (depth - 1) as nat);
        }
    }
}

/// A run that starts within the input ends within it.
pub proof fn lemma_prelude_run_bound(t: Seq<SpecToken>, q: int)
    requires
        0 <= q <= t.len(),
    ensures
        q + prelude_run(t, q) <= t.len(),
    decreases t.len() - q,
{
    if q < t.len() && t[q].kind != TokenKind::LBrace {
        lemma_prelude_run_bound(t, q + 1);
    }
}

// ---------------------------------------------------------------------------
// Specification parsers
// ---------------------------------------------------------------------------

/// An identifier.
pub open spec fn spec_parse_id(t: Seq<SpecToken>, p: int) -> SRes<SpecText> {
    if is_kind(t, p, TokenKind::Ident) {
        Ok((text_of(t[p], t[p].span), 1))
    } else {
        Err(error_at(t, p, ErrorKind::Expected(Expectation::Ident)))
    }
}

/// A string.
pub open spec fn spec_parse_str(t: Seq<SpecToken>, p: int) -> SRes<SpecText> {
    if is_kind(t, p, TokenKind::Str) {
        Ok((text_of(t[p], t[p].span), 1))
    } else {
        Err(error_at(t, p, ErrorKind::Expected(Expectation::Str)))
    }
}

/// A percentage.
pub open spec fn spec_parse_percent(t: Seq<SpecToken>, p: int) -> SRes<SpecPercent> {
    if is_kind(t, p, TokenKind::Percent) {
        Ok((SpecPercent { span: t[p].span, value: t[p].value }, 1))
    } else {
        Err(error_at(t, p, ErrorKind::Expected(Expectation::Percent)))
    }
}

/// A function: its name token, the tokens up to the matching `)`, and the `)`.
pub open spec fn spec_parse_function(t: Seq<SpecToken>, p: int) -> SRes<SpecFunction> {
    if !is_kind(t, p, TokenKind::Function) {
        Err(error_at(t, p, ErrorKind::Expected(Expectation::Function)))
    } else {
        let n = paren_run(t, p + 1, 0);
        let close = p + 1 + n;
        if close < t.len() {
            Ok(
                (
                    SpecFunction {
                        span: span_since(t, t[p].span.lo, close + 1),
                        name: text_of(t[p], t[p].span),
                        value: t.subrange(p + 1, close),
                    },
                    n + 2,
                ),
            )
        } else {
            Err(error_at(t, close, ErrorKind::Expected(Expectation::RParen)))
        }
    }
}

/// A url token.
pub open spec fn url_of(tok: SpecToken) -> SpecUrlValue {
    SpecUrlValue { span: tok.span, url: tok.value, raw: tok.raw }
}

/// A document matcher: a url token or a function.
pub open spec fn spec_parse_fn_value(t: Seq<SpecToken>, p: int) -> SRes<SpecFnValue> {
    if is_kind(t, p, TokenKind::Url) {
        Ok((SpecFnValue::Url(url_of(t[p])), 1))
    } else if is_kind(t, p, TokenKind::Function) {
        match spec_parse_function(t, p) {
            Ok((f, n)) => Ok((SpecFnValue::Function(f), n)),
            Err(e) => Err(e),
        }
    } else {
        Err(error_at(t, p, ErrorKind::Expected(Expectation::FnValue)))
    }
}

/// A `{ ... }` block: the tokens up to the matching `}`.
pub open spec fn spec_parse_simple_block(t: Seq<SpecToken>, p: int) -> SRes<SpecTokens> {
    if !is_kind(t, p, TokenKind::LBrace) {
        Err(error_at(t, p, ErrorKind::Expected(Expectation::LBrace)))
    } else {
        let n = brace_run(t, p + 1, 0);
        let close = p + 1 + n;
        if close < t.len() {
            Ok(
                (
                    SpecTokens {
                        span: span_since(t, t[p].span.lo, close + 1),
                        tokens: t.subrange(p + 1, close),
                    },
                    n + 2,
                ),
            )
        } else {
            Err(error_at(t, close, ErrorKind::Expected(Expectation::RBrace)))
        }
    }
}

/// The rules inside a block: every token up to the `}` that closes the block
/// (not consumed), or the end of the input.
pub open spec fn spec_parse_rule_list(t: Seq<SpecToken>, p: int) -> (SpecTokens, nat) {
    let n = brace_run(t, p, 0);
    (SpecTokens { span: span_since(t, cur_span(t, p).lo, p + n), tokens: t.subrange(p, p + n) }, n)
}

/// The value of a declaration, as tokens.
pub open spec fn spec_parse_value_tokens(t: Seq<SpecToken>, p: int) -> (SpecTokens, nat) {
    let n = value_run(t, p, 0);
    (SpecTokens { span: span_since(t, cur_span(t, p).lo, p + n), tokens: t.subrange(p, p + n) }, n)
}

/// `property: value`.
pub open spec fn spec_parse_declaration(t: Seq<SpecToken>, p: int) -> SRes<SpecDeclaration> {
    let start = cur_span(t, p).lo;
    match spec_parse_id(t, p) {
        Err(e) => Err(e),
        Ok((property, n)) => {
            let q = skip_ws(t, p + n);
            if !is_kind(t, q, TokenKind::Colon) {
                Err(error_at(t, q, ErrorKind::Expected(Expectation::Colon)))
            } else {
                let r = skip_ws(t, q + 1);
                let (value, m) = spec_parse_value_tokens(t, r);
                Ok(
                    (
                        SpecDeclaration { span: span_since(t, start, r + m), property, value },
                        (r + m - p) as nat,
                    ),
                )
            }
        },
    }
}

/// The prelude of a margin rule: the token at `p` and every token after it up
/// to the next `{`.
pub open spec fn spec_parse_selectors(t: Seq<SpecToken>, p: int) -> (SpecTokens, nat) {
    let n: nat = if 0 <= p < t.len() {
        1 + prelude_run(t, p + 1)
    } else {
        0
    };
    (SpecTokens { span: span_since(t, cur_span(t, p).lo, p + n), tokens: t.subrange(p, p + n) }, n)
}

// ---------------------------------------------------------------------------
// Executable scanners
// ---------------------------------------------------------------------------

fn paren_close(input: &Vec<TokenAndSpan>, from: usize) -> (r: usize)
    requires
        from <= input.len(),
    ensures
        r == from + paren_run(tv(input), from as int, 0),
        r <= input.len(),
{
    let mut i = from;
    let mut depth: usize = 0;
    while i < input.len()
        invariant
            from <= i <= input.len(),
            depth <= i - from,
            from + paren_run(tv(input), from as int, 0) == i + paren_run(
                tv(input),
                i as int,
                depth as nat,
            ),
        decreases input.len() - i,
    {
        let k = input[i].token.kind;
        if k == TokenKind::RParen {
            if depth == 0 {
                return i;
            }
            depth -= 1;
        } else if k == TokenKind::LParen || k == TokenKind::Function {
            depth += 1;
        }
        i += 1;
    }
    i
}

fn brace_close(input: &Vec<TokenAndSpan>, from: usize) -> (r: usize)
    requires
        from <= input.len(),
    ensures
        r == from + brace_run(tv(input), from as int, 0),
        r <= input.len(),
{
    let mut i = from;
    let mut depth: usize = 0;
    while i < input.len()
        invariant
            from <= i <= input.len(),
            depth <= i - from,
            from + brace_run(tv(input), from as int, 0) == i + brace_run(
                tv(input),
                i as int,
                depth as nat,
            ),
        decreases input.len() - i,
    {
        let k = input[i].token.kind;
        if k == TokenKind::RBrace {
            if depth == 0 {
                return i;
            }
            depth -= 1;
        } else if k == TokenKind::LBrace {
            depth += 1;
        }
        i += 1;
    }
    i
}

fn value_end(input: &Vec<TokenAndSpan>, from: usize) -> (r: usize)
    requires
        from <= input.len(),
    ensures
        r == from + value_run(tv(input), from as int, 0),
        r <= input.len(),
{
    let mut i = from;
    let mut depth: usize = 0;
    while i < input.len()
        invariant
            from <= i <= input.len(),
            depth <= i - from,
            from + value_run(tv(input), from as int, 0) == i + value_run(
                tv(input),
                i as int,
                depth as nat,
            ),
        decreases input.len() - i,
    {
        let k = input[i].token.kind;
        if depth == 0 && (k == TokenKind::Semi || k == TokenKind::RBrace || k
            == TokenKind::RParen) {
            return i;
        }
        if k == TokenKind::RParen {
            depth -= 1;
        } else if k == TokenKind::LParen || k == TokenKind::Function {
            depth += 1;
        }
        i += 1;
    }
    i
}

/// The position of the next `{` from `from` on, or the end.
pub fn prelude_end(input: &Vec<TokenAndSpan>, from: usize) -> (r: usize)
    requires
        from <= input.len(),
    ensures
        r == from + prelude_run(tv(input), from as int),
        r <= input.len(),
{
    let mut i = from;
    while i < input.len() && input[i].token.kind != TokenKind::LBrace
        invariant
            from <= i <= input.len(),
            from + prelude_run(tv(input), from as int) == i + prelude_run(tv(input), i as int),
        decreases input.len() - i,
    {
        i += 1;
    }
    i
}

/// The position of the next `;` from `from` on, or the end.
pub fn semi_end(input: &Vec<TokenAndSpan>, from: usize) -> (r: usize)
    requires
        from <= input.len(),
    ensures
        r == from + semi_run(tv(input), from as int),
        r <= input.len(),
{
    let mut i = from;
    while i < input.len() && input[i].token.kind != TokenKind::Semi
        invariant
            from <= i <= input.len(),
            from + semi_run(tv(input), from as int) == i + semi_run(tv(input), i as int),
        decreases input.len() - i,
    {
        i += 1;
    }
    i
}

/// The block counting from a `{` at `from` (exclusive) to its matching `}`.
pub fn matching_brace(input: &Vec<TokenAndSpan>, from: usize) -> (r: usize)
    requires
        from <= input.len(),
    ensures
        r == from + brace_run(tv(input), from as int, 0),
        r <= input.len(),
{
    brace_close(input, from)
}

// ---------------------------------------------------------------------------
// Executable parsers
// ---------------------------------------------------------------------------

/// An identifier.
pub fn parse_id(input: &Vec<TokenAndSpan>, pos: usize) -> (res: Result<(Text, usize), Error>)
    requires
        pos <= input.len(),
    ensures
        agrees(res, pos, spec_parse_id(tv(input), pos as int)),
        advances(res, pos, input.len()),
{
    if input::kind_is(input, pos, TokenKind::Ident) {
        Ok((input::text_of(input, pos, input[pos].span), pos + 1))
    } else {
        Err(input::error_at(input, pos, ErrorKind::Expected(Expectation::Ident)))
    }
}

/// A string.
pub fn parse_str(input: &Vec<TokenAndSpan>, pos: usize) -> (res: Result<(Text, usize), Error>)
    requires
        pos <= input.len(),
    ensures
        agrees(res, pos, spec_parse_str(tv(input), pos as int)),
        advances(res, pos, input.len()),
{
    if input::kind_is(input, pos, TokenKind::Str) {
        Ok((input::text_of(input, pos, input[pos].span), pos + 1))
    } else {
        Err(input::error_at(input, pos, ErrorKind::Expected(Expectation::Str)))
    }
}

/// A percentage.
pub fn parse_percent(input: &Vec<TokenAndSpan>, pos: usize) -> (res: Result<(Percent, usize), Error>)
    requires
        pos <= input.len(),
    ensures
        agrees(res, pos, spec_parse_percent(tv(input), pos as int)),
        advances(res, pos, input.len()),
{
    if input::kind_is(input, pos, TokenKind::Percent) {
        Ok((Percent { span: input[pos].span, value: input[pos].token.value.clone() }, pos + 1))
    } else {
        Err(input::error_at(input, pos, ErrorKind::Expected(Expectation::Percent)))
    }
}

/// A url token at `pos`.
pub fn url_value_at(input: &Vec<TokenAndSpan>, pos: usize) -> (r: UrlValue)
    requires
        pos < input.len(),
    ensures
        r@ == url_of(tv(input)[pos as int]),
{
    UrlValue {
        span: input[pos].span,
        url: input[pos].token.value.clone(),
        raw: input[pos].token.raw.clone(),
    }
}

/// A function.
pub fn parse_function(input: &Vec<TokenAndSpan>, pos: usize) -> (res: Result<(Function, usize), Error>)
    requires
        pos <= input.len(),
    ensures
        agrees(res, pos, spec_parse_function(tv(input), pos as int)),
        advances(res, pos, input.len()),
{
    if !input::kind_is(input, pos, TokenKind::Function) {
        return Err(input::error_at(input, pos, ErrorKind::Expected(Expectation::Function)));
    }
    let close = paren_close(input, pos + 1);
    if close < input.len() {
        let name = input::text_of(input, pos, input[pos].span);
        let value = copy_tokens(input, pos + 1, close);
        let span = input::span_since(input, input[pos].span.lo, close + 1);
        Ok((Function { span, name, value }, close + 1))
    } else {
        Err(input::error_at(input, close, ErrorKind::Expected(Expectation::RParen)))
    }
}

/// A document matcher: a url token or a function.
pub fn parse_fn_value(input: &Vec<TokenAndSpan>, pos: usize) -> (res: Result<(FnValue, usize), Error>)
    requires
        pos <= input.len(),
    ensures
        agrees(res, pos, spec_parse_fn_value(tv(input), pos as int)),
        advances(res, pos, input.len()),
{
    if input::kind_is(input, pos, TokenKind::Url) {
        Ok((FnValue::Url(url_value_at(input, pos)), pos + 1))
    } else if input::kind_is(input, pos, TokenKind::Function) {
        match parse_function(input, pos) {
            Ok((f, q)) => Ok((FnValue::Function(f), q)),
            Err(e) => Err(e),
        }
    } else {
        Err(input::error_at(input, pos, ErrorKind::Expected(Expectation::FnValue)))
    }
}

/// A `{ ... }` block.
pub fn parse_simple_block(input: &Vec<TokenAndSpan>, pos: usize) -> (res: Result<
    (SimpleBlock, usize),
    Error,
>)
    requires
        pos <= input.len(),
    ensures
        agrees(res, pos, spec_parse_simple_block(tv(input), pos as int)),
        advances(res, pos, input.len()),
{
    if !input::kind_is(input, pos, TokenKind::LBrace) {
        return Err(input::error_at(input, pos, ErrorKind::Expected(Expectation::LBrace)));
    }
    let close = brace_close(input, pos + 1);
    if close < input.len() {
        let tokens = copy_tokens(input, pos + 1, close);
        let span = input::span_since(input, input[pos].span.lo, close + 1);
        Ok((Tokens { span, tokens }, close + 1))
    } else {
        Err(input::error_at(input, close, ErrorKind::Expected(Expectation::RBrace)))
    }
}

/// The tokens `input[from..to]` with the span from the token at `from` to the
/// last of them.
fn token_run(input: &Vec<TokenAndSpan>, from: usize, to: usize) -> (r: Tokens)
    requires
        from <= to <= input.len(),
    ensures
        r@ == (SpecTokens {
            span: span_since(tv(input), cur_span(tv(input), from as int).lo, to as int),
            tokens: tv(input).subrange(from as int, to as int),
        }),
{
    let start = input::cur_span(input, from).lo;
    let tokens = copy_tokens(input, from, to);
    Tokens { span: input::span_since(input, start, to), tokens }
}

/// The rules inside a block, up to the `}` that closes it.
pub fn parse_rule_list(input: &Vec<TokenAndSpan>, pos: usize) -> (res: (Tokens, usize))
    requires
        pos <= input.len(),
    ensures
        pos <= res.1 <= input.len(),
        spec_parse_rule_list(tv(input), pos as int) == (res.0@, (res.1 - pos) as nat),
{
    let end = brace_close(input, pos);
    (token_run(input, pos, end), end)
}

/// The value of a declaration.
pub fn parse_value_tokens(input: &Vec<TokenAndSpan>, pos: usize) -> (res: (Tokens, usize))
    requires
        pos <= input.len(),
    ensures
        pos <= res.1 <= input.len(),
        spec_parse_value_tokens(tv(input), pos as int) == (res.0@, (res.1 - pos) as nat),
{
    let end = value_end(input, pos);
    (token_run(input, pos, end), end)
}

/// `property: value`.
pub fn parse_declaration(input: &Vec<TokenAndSpan>, pos: usize) -> (res: Result<
    (Declaration, usize),
    Error,
>)
    requires
        pos <= input.len(),
    ensures
        agrees(res, pos, spec_parse_declaration(tv(input), pos as int)),
        advances(res, pos, input.len()),
{
    let start = input::cur_span(input, pos).lo;
    let (property, p1) = match parse_id(input, pos) {
        Ok(x) => x,
        Err(e) => return Err(e),
    };
    let q = input::skip_ws(input, p1);
    if !input::kind_is(input, q, TokenKind::Colon) {
        return Err(input::error_at(input, q, ErrorKind::Expected(Expectation::Colon)));
    }
    let r = input::skip_ws(input, q + 1);
    let (value, end) = parse_value_tokens(input, r);
    let span = input::span_since(input, start, end);
    Ok((Declaration { span, property, value }, end))
}

/// The prelude of a margin rule: the token at `pos` and every token after it
/// up to the next `{`.
pub fn parse_selectors(input: &Vec<TokenAndSpan>, pos: usize) -> (res: (Tokens, usize))
    requires
        pos <= input.len(),
    ensures
        pos <= res.1 <= input.len(),
        pos < input.len() ==> pos < res.1,
        spec_parse_selectors(tv(input), pos as int) == (res.0@, (res.1 - pos) as nat),
{
    let end = if pos < input.len() {
        prelude_end(input, pos + 1)
    } else {
        pos
    };
    (token_run(input, pos, end), end)
}

} // verus!
