//! Media queries and `@supports` conditions.
use vstd::prelude::*;
use crate::ast::{
    Declaration, MediaQuery, SpecDeclaration, SpecMediaQuery, SpecSupportQuery, SupportQuery,
    media_queries_view,
};
use crate::component::{
    parse_declaration, parse_id, parse_value_tokens, spec_parse_declaration,
    spec_parse_value_tokens,
};
use crate::cursor::{
    SRes, advances, agrees, cur_span, error_at, is_ident_named, is_kind, lemma_skip_ws, prepend, skip_ws,
    span_new, span_since, text_of, tv,
};
use crate::error::{Error, ErrorKind, Expectation};
use crate::input;
use crate::token::{Span, SpecToken, TokenAndSpan, TokenKind};

verus! {

/// The span of a media query.
pub open spec fn media_query_span(q: SpecMediaQuery) -> Span {
    match q {
        SpecMediaQuery::Text(t) => t.span,
        SpecMediaQuery::And { span, .. } => span,
        SpecMediaQuery::Or { span, .. } => span,
        SpecMediaQuery::Not { span, .. } => span,
        SpecMediaQuery::Only { span, .. } => span,
        SpecMediaQuery::Declaration(d) => d.span,
        SpecMediaQuery::Comma { span, .. } => span,
    }
}

/// The first part of a media query at `p` (whitespace already skipped):
/// `not q`, `only q`, a media type, `(feature: value)`, `(feature)` or
/// `(q)`.
pub open spec fn spec_parse_media_query_base(t: Seq<SpecToken>, p: int, no_comma: bool) -> SRes<
    SpecMediaQuery,
>
    decreases t.len() - p, 0int,
{
    let start = cur_span(t, p).lo;
    if is_ident_named(t, p, "not"@) {
        match spec_parse_media_query(t, p + 1, no_comma) {
            Ok((q, n)) => Ok(
                (
                    SpecMediaQuery::Not { span: span_since(t, start, p + 1 + n), query: Box::new(q) },
                    n + 1,
                ),
            ),
            Err(e) => Err(e),
        }
    } else if is_ident_named(t, p, "only"@) {
        match spec_parse_media_query(t, p + 1, no_comma) {
            Ok((q, n)) => Ok(
                (
                    SpecMediaQuery::Only { span: span_since(t, start, p + 1 + n), query: Box::new(q) },
                    n + 1,
                ),
            ),
            Err(e) => Err(e),
        }
    } else if is_kind(t, p, TokenKind::Ident) {
        Ok((SpecMediaQuery::Text(text_of(t[p], t[p].span)), 1))
    } else if is_kind(t, p, TokenKind::LParen) {
        let q = p + 1;
        if is_kind(t, q, TokenKind::Ident) {
            let id = text_of(t[q], t[q].span);
            let q2 = skip_ws(t, q + 1);
            if is_kind(t, q2, TokenKind::Colon) {
                let q3 = skip_ws(t, q2 + 1);
                let (value, m) = spec_parse_value_tokens(t, q3);
                let q4 = q3 + m;
                if is_kind(t, q4, TokenKind::RParen) {
                    Ok(
                        (
                            SpecMediaQuery::Declaration(
                                SpecDeclaration {
                                    span: span_since(t, t[q].span.lo, q4 + 1),
                                    property: id,
                                    value,
                                },
                            ),
                            (q4 + 1 - p) as nat,
                        ),
                    )
                } else {
                    Err(error_at(t, q4, ErrorKind::Expected(Expectation::RParen)))
                }
            } else if is_kind(t, q2, TokenKind::RParen) {
                Ok((SpecMediaQuery::Text(id), (q2 + 1 - p) as nat))
            } else {
                Err(error_at(t, q2, ErrorKind::Expected(Expectation::RParen)))
            }
        } else {
            match spec_parse_media_query(t, q, no_comma) {
                Err(e) => Err(e),
                Ok((inner, n)) => if is_kind(t, q + n, TokenKind::RParen) {
                    Ok((inner, n + 2))
                } else {
                    Err(error_at(t, q + n, ErrorKind::Expected(Expectation::RParen)))
                },
            }
        }
    } else {
        Err(error_at(t, p, ErrorKind::InvalidMediaQuery))
    }
}

/// A media query: a first part, then `and q`, `or q`, or (unless
/// `no_comma`) `, q, q, ...` whose queries allow no comma.
pub open spec fn spec_parse_media_query(t: Seq<SpecToken>, p: int, no_comma: bool) -> SRes<
    SpecMediaQuery,
>
    decreases t.len() - p, 1int,
{
    proof {
        lemma_skip_ws(t, p);
    }
    let p1 = skip_ws(t, p);
    let start = cur_span(t, p1).lo;
    match spec_parse_media_query_base(t, p1, no_comma) {
        Err(e) => Err(e),
        Ok((base, n)) => {
            let s = skip_ws(t, p1 + n);
            if is_ident_named(t, s, "and"@) {
                match spec_parse_media_query(t, s + 1, no_comma) {
                    Ok((right, m)) => Ok(
                        (
                            SpecMediaQuery::And {
                                span: span_new(start, media_query_span(right).hi),
                                left: Box::new(base),
                                right: Box::new(right),
                            },
                            (s + 1 + m - p) as nat,
                        ),
                    ),
                    Err(e) => Err(e),
                }
            } else if is_ident_named(t, s, "or"@) {
                match spec_parse_media_query(t, s + 1, no_comma) {
                    Ok((right, m)) => Ok(
                        (
                            SpecMediaQuery::Or {
                                span: span_new(start, media_query_span(right).hi),
                                left: Box::new(base),
                                right: Box::new(right),
                            },
                            (s + 1 + m - p) as nat,
                        ),
                    ),
                    Err(e) => Err(e),
                }
            } else if !no_comma && is_kind(t, s, TokenKind::Comma) {
                match spec_parse_media_query_list(t, s + 1) {
                    Ok((rest, m)) => Ok(
                        (
                            SpecMediaQuery::Comma {
                                span: span_since(t, start, s + 1 + m),
                                queries: seq![base] + rest,
                            },
                            (s + 1 + m - p) as nat,
                        ),
                    ),
                    Err(e) => Err(e),
                }
            } else {
                Ok((base, (s - p) as nat))
            }
        },
    }
}

/// The queries after the first comma of a comma-separated media query list:
/// `q, q, ...`, each parsed without commas.
pub open spec fn spec_parse_media_query_list(t: Seq<SpecToken>, p: int) -> SRes<
    Seq<SpecMediaQuery>,
>
    decreases t.len() - p, 2int,
{
    proof {
        lemma_skip_ws(t, p);
    }
    let q = skip_ws(t, p);
    match spec_parse_media_query(t, q, true) {
        Err(e) => Err(e),
        Ok((x, n)) => {
            let r = skip_ws(t, q + n);
            if is_kind(t, r, TokenKind::Comma) {
                match spec_parse_media_query_list(t, r + 1) {
                    Ok((xs, m)) => Ok((seq![x] + xs, (r + 1 + m - p) as nat)),
                    Err(e) => Err(e),
                }
            } else {
                Ok((seq![x], (r - p) as nat))
            }
        },
    }
}

/// A `@supports` condition: `not c`, or `(c)` / `(property: value)`
/// optionally followed by `and c` or `or c`.
pub open spec fn spec_parse_support_query(t: Seq<SpecToken>, p: int) -> SRes<SpecSupportQuery>
    decreases t.len() - p, 0int,
{
    let p1 = skip_ws(t, p);
    let start = cur_span(t, p1).lo;
    if is_ident_named(t, p1, "not"@) {
        match spec_parse_support_query(t, p1 + 1) {
            Ok((q, n)) => Ok(
                (
                    SpecSupportQuery::Not {
                        span: span_since(t, start, p1 + 1 + n),
                        query: Box::new(q),
                    },
                    (p1 + 1 + n - p) as nat,
                ),
            ),
            Err(e) => Err(e),
        }
    } else if is_kind(t, p1, TokenKind::LParen) {
        let q = skip_ws(t, p1 + 1);
        proof {
            lemma_skip_ws(t, p1 + 1);
        }
        match spec_parse_support_in_parens(t, q, start) {
            Err(e) => Err(e),
            Ok((x, n)) => {
                let r = q + n;
                if !is_kind(t, r, TokenKind::RParen) {
                    Err(error_at(t, r, ErrorKind::Expected(Expectation::RParen)))
                } else {
                    let s = skip_ws(t, r + 1);
                    if is_ident_named(t, s, "and"@) {
                        match spec_parse_support_query(t, s + 1) {
                            Ok((right, m)) => Ok(
                                (
                                    SpecSupportQuery::And {
                                        span: span_since(t, start, s + 1 + m),
                                        left: Box::new(x),
                                        right: Box::new(right),
                                    },
                                    (s + 1 + m - p) as nat,
                                ),
                            ),
                            Err(e) => Err(e),
                        }
                    } else if is_ident_named(t, s, "or"@) {
                        match spec_parse_support_query(t, s + 1) {
                            Ok((right, m)) => Ok(
                                (
                                    SpecSupportQuery::Or {
                                        span: span_since(t, start, s + 1 + m),
                                        left: Box::new(x),
                                        right: Box::new(right),
                                    },
                                    (s + 1 + m - p) as nat,
                                ),
                            ),
                            Err(e) => Err(e),
                        }
                    } else {
                        Ok((x, (s - p) as nat))
                    }
                }
            },
        }
    } else {
        Err(error_at(t, p1, ErrorKind::InvalidSupportQuery))
    }
}

/// What stands inside the parentheses of a `@supports` condition, at `q`: a
/// nested condition (kept as `Paren`, its span starting at `start`) or a
/// declaration.
pub open spec fn spec_parse_support_in_parens(t: Seq<SpecToken>, q: int, start: u32) -> SRes<
    SpecSupportQuery,
>
    decreases t.len() - q, 1int,
{
    if is_kind(t, q, TokenKind::LParen) {
        match spec_parse_support_query(t, q) {
            Ok((x, n)) => Ok(
                (SpecSupportQuery::Paren { span: span_since(t, start, q + n), query: Box::new(x) }, n),
            ),
            Err(e) => Err(e),
        }
    } else {
        match spec_parse_declaration(t, q) {
            Ok((d, n)) => Ok((SpecSupportQuery::Declaration(d), n)),
            Err(e) => Err(e),
        }
    }
}

} // verus!

verus! {

/// Viewing a list of media queries extended by one extends its view.
pub proof fn lemma_media_queries_view_push(s: Seq<MediaQuery>, q: MediaQuery)
    ensures
        media_queries_view(s.push(q)) == media_queries_view(s).push(q@),
{
    assert(s.push(q).drop_last() =~= s);
}

/// The span of a media query.
pub fn span_of_media_query(q: &MediaQuery) -> (r: Span)
    ensures
        r == media_query_span(q@),
{
    match q {
        MediaQuery::Text(t) => t.span,
        MediaQuery::And { span, .. } => *span,
        MediaQuery::Or { span, .. } => *span,
        MediaQuery::Not { span, .. } => *span,
        MediaQuery::Only { span, .. } => *span,
        MediaQuery::Declaration(d) => d.span,
        MediaQuery::Comma { span, .. } => *span,
    }
}

fn parse_media_query_base(input: &Vec<TokenAndSpan>, pos: usize, no_comma: bool) -> (res: Result<
    (MediaQuery, usize),
    Error,
>)
    requires
        pos <= input.len(),
    ensures
        agrees(res, pos, spec_parse_media_query_base(tv(input), pos as int, no_comma)),
        advances(res, pos, input.len()),
    decreases input.len() - pos, 0int,
{
    let start = input::cur_span(input, pos).lo;
    if input::ident_is(input, pos, "not") {
        match parse_media_query(input, pos + 1, no_comma) {
            Ok((q, e)) => Ok(
                (MediaQuery::Not { span: input::span_since(input, start, e), query: Box::new(q) }, e),
            ),
            Err(er) => Err(er),
        }
    } else if input::ident_is(input, pos, "only") {
        match parse_media_query(input, pos + 1, no_comma) {
            Ok((q, e)) => Ok(
                (MediaQuery::Only { span: input::span_since(input, start, e), query: Box::new(q) }, e),
            ),
            Err(er) => Err(er),
        }
    } else if input::kind_is(input, pos, TokenKind::Ident) {
        match parse_id(input, pos) {
            Ok((id, e)) => Ok((MediaQuery::Text(id), e)),
            Err(er) => Err(er),
        }
    } else if input::kind_is(input, pos, TokenKind::LParen) {
        let q = pos + 1;
        if input::kind_is(input, q, TokenKind::Ident) {
            let id = input::text_of(input, q, input[q].span);
            let feature_start = input[q].span.lo;
            let q2 = input::skip_ws(input, q + 1);
            if input::kind_is(input, q2, TokenKind::Colon) {
                let q3 = input::skip_ws(input, q2 + 1);
                let (value, q4) = parse_value_tokens(input, q3);
                if input::kind_is(input, q4, TokenKind::RParen) {
                    let span = input::span_since(input, feature_start, q4 + 1);
                    Ok(
                        (
                            MediaQuery::Declaration(Declaration { span, property: id, value }),
                            q4 + 1,
                        ),
                    )
                } else {
                    Err(input::error_at(input, q4, ErrorKind::Expected(Expectation::RParen)))
                }
            } else if input::kind_is(input, q2, TokenKind::RParen) {
                Ok((MediaQuery::Text(id), q2 + 1))
            } else {
                Err(input::error_at(input, q2, ErrorKind::Expected(Expectation::RParen)))
            }
        } else {
            match parse_media_query(input, q, no_comma) {
                Err(er) => Err(er),
                Ok((inner, e)) => if input::kind_is(input, e, TokenKind::RParen) {
                    Ok((inner, e + 1))
                } else {
                    Err(input::error_at(input, e, ErrorKind::Expected(Expectation::RParen)))
                },
            }
        }
    } else {
        Err(input::error_at(input, pos, ErrorKind::InvalidMediaQuery))
    }
}

/// Parses a media query at `pos`; with `no_comma` a `,` ends it instead of
/// starting a comma-separated list.
pub fn parse_media_query(input: &Vec<TokenAndSpan>, pos: usize, no_comma: bool) -> (res: Result<
    (MediaQuery, usize),
    Error,
>)
    requires
        pos <= input.len(),
    ensures
        agrees(res, pos, spec_parse_media_query(tv(input), pos as int, no_comma)),
        advances(res, pos, input.len()),
    decreases input.len() - pos, 1int,
{
    let p1 = input::skip_ws(input, pos);
    let start = input::cur_span(input, p1).lo;
    let (base, b) = match parse_media_query_base(input, p1, no_comma) {
        Ok(x) => x,
        Err(e) => return Err(e),
    };
    let s = input::skip_ws(input, b);
    if input::ident_is(input, s, "and") {
        match parse_media_query(input, s + 1, no_comma) {
            Ok((right, e)) => {
                let span = input::span_new(start, span_of_media_query(&right).hi);
                Ok((MediaQuery::And { span, left: Box::new(base), right: Box::new(right) }, e))
            },
            Err(er) => Err(er),
        }
    } else if input::ident_is(input, s, "or") {
        match parse_media_query(input, s + 1, no_comma) {
            Ok((right, e)) => {
                let span = input::span_new(start, span_of_media_query(&right).hi);
                Ok((MediaQuery::Or { span, left: Box::new(base), right: Box::new(right) }, e))
            },
            Err(er) => Err(er),
        }
    } else if !no_comma && input::kind_is(input, s, TokenKind::Comma) {
        match parse_media_query_list(input, s + 1, base) {
            Ok((queries, e)) => Ok(
                (MediaQuery::Comma { span: input::span_since(input, start, e), queries }, e),
            ),
            Err(er) => Err(er),
        }
    } else {
        Ok((base, s))
    }
}

/// Parses the queries after the first comma of a media query list; the
/// result starts with `first`, the query before the comma.
fn parse_media_query_list(input: &Vec<TokenAndSpan>, pos: usize, first: MediaQuery) -> (res: Result<
    (Vec<MediaQuery>, usize),
    Error,
>)
    requires
        pos <= input.len(),
    ensures
        match res {
            Ok((v, q)) => pos < q <= input.len() && prepend(
                seq![first@],
                pos as int,
                pos as int,
                spec_parse_media_query_list(tv(input), pos as int),
            ) == Ok::<(Seq<SpecMediaQuery>, nat), Error>(
                (media_queries_view(v@), (q - pos) as nat),
            ),
            Err(e) => spec_parse_media_query_list(tv(input), pos as int) == Err::<
                (Seq<SpecMediaQuery>, nat),
                Error,
            >(e),
        },
    decreases input.len() - pos, 2int,
{
    let ghost t = tv(input);
    let ghost first_view = first@;
    let mut items: Vec<MediaQuery> = Vec::new();
    proof {
        assert(media_queries_view(items@) =~= Seq::<SpecMediaQuery>::empty());
        lemma_media_queries_view_push(items@, first);
    }
    items.push(first);
    assert(media_queries_view(items@) =~= seq![first_view]);
    let mut i = pos;
    loop
        invariant
            pos <= i <= input.len(),
            t == tv(input),
            first_view == first@,
            prepend(seq![first_view], pos as int, pos as int, spec_parse_media_query_list(t, pos as int))
                == prepend(media_queries_view(items@), pos as int, i as int, spec_parse_media_query_list(t, i as int)),
        decreases input.len() - i,
    {
        let q = input::skip_ws(input, i);
        let (x, q2) = match parse_media_query(input, q, true) {
            Ok(r) => r,
            Err(e) => return Err(e),
        };
        let ghost before = items@;
        let ghost xv = x@;
        items.push(x);
        proof {
            lemma_media_queries_view_push(before, x);
        }
        let r = input::skip_ws(input, q2);
        if input::kind_is(input, r, TokenKind::Comma) {
            proof {
                match spec_parse_media_query_list(t, r + 1) {
                    Ok((xs, m)) => {
                        assert(media_queries_view(before) + (seq![xv] + xs) =~= media_queries_view(
                            items@,
                        ) + xs);
                    },
                    Err(_) => {},
                }
            }
            i = r + 1;
        } else {
            proof {
                assert(media_queries_view(before) + seq![xv] =~= media_queries_view(items@));
            }
            return Ok((items, r));
        }
    }
}

/// Parses a `@supports` condition at `pos`.
pub fn parse_support_query(input: &Vec<TokenAndSpan>, pos: usize) -> (res: Result<
    (SupportQuery, usize),
    Error,
>)
    requires
        pos <= input.len(),
    ensures
        agrees(res, pos, spec_parse_support_query(tv(input), pos as int)),
        advances(res, pos, input.len()),
    decreases input.len() - pos, 0int,
{
    let p1 = input::skip_ws(input, pos);
    let start = input::cur_span(input, p1).lo;
    if input::ident_is(input, p1, "not") {
        match parse_support_query(input, p1 + 1) {
            Ok((q, e)) => Ok(
                (SupportQuery::Not { span: input::span_since(input, start, e), query: Box::new(q) }, e),
            ),
            Err(er) => Err(er),
        }
    } else if input::kind_is(input, p1, TokenKind::LParen) {
        let q = input::skip_ws(input, p1 + 1);
        let (x, r) = match parse_support_in_parens(input, q, start) {
            Ok(v) => v,
            Err(er) => return Err(er),
        };
        if !input::kind_is(input, r, TokenKind::RParen) {
            return Err(input::error_at(input, r, ErrorKind::Expected(Expectation::RParen)));
        }
        let s = input::skip_ws(input, r + 1);
        if input::ident_is(input, s, "and") {
            match parse_support_query(input, s + 1) {
                Ok((right, e)) => Ok(
                    (
                        SupportQuery::And {
                            span: input::span_since(input, start, e),
                            left: Box::new(x),
                            right: Box::new(right),
                        },
                        e,
                    ),
                ),
                Err(er) => Err(er),
            }
        } else if input::ident_is(input, s, "or") {
            match parse_support_query(input, s + 1) {
                Ok((right, e)) => Ok(
                    (
                        SupportQuery::Or {
                            span: input::span_since(input, start, e),
                            left: Box::new(x),
                            right: Box::new(right),
                        },
                        e,
                    ),
                ),
                Err(er) => Err(er),
            }
        } else {
            Ok((x, s))
        }
    } else {
        Err(input::error_at(input, p1, ErrorKind::InvalidSupportQuery))
    }
}

fn parse_support_in_parens(input: &Vec<TokenAndSpan>, q: usize, start: u32) -> (res: Result<
    (SupportQuery, usize),
    Error,
>)
    requires
        q <= input.len(),
    ensures
        agrees(res, q, spec_parse_support_in_parens(tv(input), q as int, start)),
        advances(res, q, input.len()),
    decreases input.len() - q, 1int,
{
    if input::kind_is(input, q, TokenKind::LParen) {
        match parse_support_query(input, q) {
            Ok((x, e)) => Ok(
                (SupportQuery::Paren { span: input::span_since(input, start, e), query: Box::new(x) }, e),
            ),
            Err(er) => Err(er),
        }
    } else {
        match parse_declaration(input, q) {
            Ok((d, e)) => Ok((SupportQuery::Declaration(d), e)),
            Err(er) => Err(er),
        }
    }
}

} // verus!
