//! `@page` rules: selectors, the page block, and nested margin rules.
use vstd::prelude::*;
use crate::ast::{
    Declaration, NestedPageRule, PageRule, PageRuleBlock, PageRuleBlockItem, PageSelector,
    SpecNestedPageRule, SpecPageRule, SpecPageRuleBlock, SpecPageRuleBlockItem, SpecPageSelector,
    SpecText, Text, page_items_view, page_selectors_view,
};
use crate::component::{
    lemma_prelude_run_bound, parse_declaration, parse_id, parse_selectors, spec_parse_declaration,
    spec_parse_id, spec_parse_selectors,
};
use crate::cursor::{
    SRes, advances, agrees, cur_span, eat, error_at, is_eof, is_kind, lemma_skip_ws, prepend, within,
    skip_ws, span_since, text_of, tv,
};
use crate::error::{Error, ErrorKind, Expectation};
use crate::input;
use crate::token::{SpecToken, TokenAndSpan, TokenKind};

verus! {

// ---------------------------------------------------------------------------
// Specification
// ---------------------------------------------------------------------------

/// A page selector: an optional name, then an optional `:pseudo`.
pub open spec fn spec_parse_page_selector(t: Seq<SpecToken>, p: int) -> SRes<SpecPageSelector> {
    let q = skip_ws(t, p);
    let start = cur_span(t, q).lo;
    let ident: Option<SpecText> = if is_kind(t, q, TokenKind::Ident) {
        Some(text_of(t[q], t[q].span))
    } else {
        None
    };
    let q1 = if is_kind(t, q, TokenKind::Ident) {
        q + 1
    } else {
        q
    };
    if is_kind(t, q1, TokenKind::Colon) {
        match spec_parse_id(t, q1 + 1) {
            Err(e) => Err(e),
            Ok((pseudo, n)) => Ok(
                (
                    SpecPageSelector {
                        span: span_since(t, start, q1 + 1 + n),
                        ident,
                        pseudo: Some(pseudo),
                    },
                    (q1 + 1 + n - p) as nat,
                ),
            ),
        }
    } else {
        Ok((SpecPageSelector { span: span_since(t, start, q1), ident, pseudo: None }, (q1 - p) as nat))
    }
}

/// The selectors of a page rule, separated by commas, up to its `{`.
pub open spec fn spec_parse_page_selector_list(t: Seq<SpecToken>, p: int) -> SRes<
    Seq<SpecPageSelector>,
>
    decreases t.len() - p,
{
    let q = skip_ws(t, p);
    if is_kind(t, q, TokenKind::LBrace) {
        Ok((seq![], (q - p) as nat))
    } else {
        match spec_parse_page_selector(t, q) {
            Err(e) => Err(e),
            Ok((s, n)) => {
                let r = skip_ws(t, q + n);
                if is_kind(t, r, TokenKind::Comma) {
                    match spec_parse_page_selector_list(t, r + 1) {
                        Ok((xs, m)) => Ok((seq![s] + xs, (r + 1 + m - p) as nat)),
                        Err(e) => Err(e),
                    }
                } else {
                    Ok((seq![s], (r - p) as nat))
                }
            },
        }
    }
}

/// `selectors { items }` (the `@page` keyword already read).
pub open spec fn spec_parse_page_rule(t: Seq<SpecToken>, p: int) -> SRes<SpecPageRule> {
    let start = cur_span(t, p).lo;
    match spec_parse_page_selector_list(t, p) {
        Err(e) => Err(e),
        Ok((prelude, n)) => match spec_parse_page_rule_block(t, p + n) {
            Err(e) => Err(e),
            Ok((block, m)) => Ok(
                (SpecPageRule { span: span_since(t, start, p + n + m), prelude, block }, n + m),
            ),
        },
    }
}

/// `{ items }` of a page rule.
pub open spec fn spec_parse_page_rule_block(t: Seq<SpecToken>, p: int) -> SRes<SpecPageRuleBlock>
    decreases t.len() - p, 3int,
{
    let start = cur_span(t, p).lo;
    if !is_kind(t, p, TokenKind::LBrace) {
        Err(error_at(t, p, ErrorKind::Expected(Expectation::LBrace)))
    } else {
        let q = skip_ws(t, p + 1);
        if is_kind(t, q, TokenKind::RBrace) {
            Ok((SpecPageRuleBlock { span: span_since(t, start, q + 1), items: seq![] }, (q + 1 - p) as nat))
        } else {
            proof {
                lemma_skip_ws(t, p + 1);
            }
            match spec_parse_page_items(t, q) {
                Err(e) => Err(e),
                Ok((items, n)) => if is_kind(t, q + n, TokenKind::RBrace) {
                    Ok(
                        (
                            SpecPageRuleBlock { span: span_since(t, start, q + n + 1), items },
                            (q + n + 1 - p) as nat,
                        ),
                    )
                } else {
                    Err(error_at(t, q + n, ErrorKind::Expected(Expectation::RBrace)))
                },
            }
        }
    }
}

/// The items of a page block, each after optional whitespace, up to the `}`
/// or the end of the input.
pub open spec fn spec_parse_page_items(t: Seq<SpecToken>, p: int) -> SRes<
    Seq<SpecPageRuleBlockItem>,
>
    decreases t.len() - p, 2int,
{
    let q = skip_ws(t, p);
    proof {
        lemma_skip_ws(t, p);
    }
    match spec_parse_page_item(t, q) {
        Err(e) => Err(e),
        Ok((x, n)) => {
            let r = skip_ws(t, q + n);
            if is_eof(t, r) || is_kind(t, r, TokenKind::RBrace) || n == 0 {
                // A parsed item always consumes a token (see `parse_page_rule_block_item`),
                // so the list only ends at `}` or at the end of the input.
                Ok((seq![x], (r - p) as nat))
            } else {
                match spec_parse_page_items(t, r) {
                    Ok((xs, m)) => Ok((seq![x] + xs, (r + m - p) as nat)),
                    Err(e) => Err(e),
                }
            }
        },
    }
}

/// An item of a page block: a nested margin rule at an at-keyword, else a
/// declaration with an optional `;`.
pub open spec fn spec_parse_page_item(t: Seq<SpecToken>, p: int) -> SRes<SpecPageRuleBlockItem>
    decreases t.len() - p, 1int,
{
    if is_eof(t, p) {
        Err(error_at(t, p, ErrorKind::Eof))
    } else if is_kind(t, p, TokenKind::AtKeyword) {
        match spec_parse_nested_page_rule(t, p) {
            Ok((r, n)) => Ok((SpecPageRuleBlockItem::Nested(Box::new(r)), n)),
            Err(e) => Err(e),
        }
    } else {
        match spec_parse_declaration(t, p) {
            Err(e) => Err(e),
            Ok((d, n)) => Ok(
                (SpecPageRuleBlockItem::Declaration(d), (eat(t, p + n, TokenKind::Semi) - p) as nat),
            ),
        }
    }
}

/// A margin rule: its prelude up to `{`, then a page block.
pub open spec fn spec_parse_nested_page_rule(t: Seq<SpecToken>, p: int) -> SRes<
    SpecNestedPageRule,
>
    decreases t.len() - p, 0int,
{
    if !(0 <= p < t.len()) {
        Err(error_at(t, p, ErrorKind::Eof))
    } else {
        let start = cur_span(t, p).lo;
        let (prelude, n) = spec_parse_selectors(t, p);
        proof {
            lemma_prelude_run_bound(t, p + 1);
        }
        match spec_parse_page_rule_block(t, p + n) {
            Err(e) => Err(e),
            Ok((block, m)) => Ok(
                (SpecNestedPageRule { span: span_since(t, start, p + n + m), prelude, block }, n + m),
            ),
        }
    }
}

} // verus!

verus! {

// ---------------------------------------------------------------------------
// Executable parsers
// ---------------------------------------------------------------------------

/// Viewing a list of page block items extended by one extends its view.
pub proof fn lemma_page_items_view_push(s: Seq<PageRuleBlockItem>, x: PageRuleBlockItem)
    ensures
        page_items_view(s.push(x)) == page_items_view(s).push(x@),
{
    assert(s.push(x).drop_last() =~= s);
}

/// Parses a page selector at `pos`.
pub fn parse_page_selector(input: &Vec<TokenAndSpan>, pos: usize) -> (res: Result<
    (PageSelector, usize),
    Error,
>)
    requires
        pos <= input.len(),
    ensures
        agrees(res, pos, spec_parse_page_selector(tv(input), pos as int)),
        within(res, pos, input.len()),
{
    let q = input::skip_ws(input, pos);
    let start = input::cur_span(input, q).lo;
    let (ident, q1): (Option<Text>, usize) = if input::kind_is(input, q, TokenKind::Ident) {
        match parse_id(input, q) {
            Ok((id, e)) => (Some(id), e),
            Err(er) => return Err(er),
        }
    } else {
        (None, q)
    };
    if input::kind_is(input, q1, TokenKind::Colon) {
        match parse_id(input, q1 + 1) {
            Err(er) => Err(er),
            Ok((pseudo, e)) => Ok(
                (PageSelector { span: input::span_since(input, start, e), ident, pseudo: Some(pseudo) }, e),
            ),
        }
    } else {
        Ok((PageSelector { span: input::span_since(input, start, q1), ident, pseudo: None }, q1))
    }
}

fn parse_page_selector_list(input: &Vec<TokenAndSpan>, pos: usize) -> (res: Result<
    (Vec<PageSelector>, usize),
    Error,
>)
    requires
        pos <= input.len(),
    ensures
        match res {
            Ok((v, q)) => pos <= q <= input.len() && spec_parse_page_selector_list(
                tv(input),
                pos as int,
            ) == Ok::<(Seq<SpecPageSelector>, nat), Error>(
                (page_selectors_view(v@), (q - pos) as nat),
            ),
            Err(e) => spec_parse_page_selector_list(tv(input), pos as int) == Err::<
                (Seq<SpecPageSelector>, nat),
                Error,
            >(e),
        },
{
    let ghost t = tv(input);
    let mut items: Vec<PageSelector> = Vec::new();
    let mut i = pos;
    proof {
        match spec_parse_page_selector_list(t, pos as int) {
            Ok((xs, m)) => {
                assert(page_selectors_view(items@) + xs =~= xs);
            },
            Err(_) => {},
        }
    }
    loop
        invariant
            pos <= i <= input.len(),
            t == tv(input),
            spec_parse_page_selector_list(t, pos as int) == prepend(
                page_selectors_view(items@),
                pos as int,
                i as int,
                spec_parse_page_selector_list(t, i as int),
            ),
        decreases input.len() - i,
    {
        let q = input::skip_ws(input, i);
        if input::kind_is(input, q, TokenKind::LBrace) {
            assert(page_selectors_view(items@) + seq![] =~= page_selectors_view(items@));
            return Ok((items, q));
        }
        let (x, e) = match parse_page_selector(input, q) {
            Ok(v) => v,
            Err(er) => return Err(er),
        };
        let ghost before = items@;
        items.push(x);
        let r = input::skip_ws(input, e);
        proof {
            assert(page_selectors_view(items@) =~= page_selectors_view(before).push(x@));
        }
        if input::kind_is(input, r, TokenKind::Comma) {
            proof {
                match spec_parse_page_selector_list(t, r + 1) {
                    Ok((xs, m)) => {
                        assert(page_selectors_view(before) + (seq![x@] + xs) =~= page_selectors_view(
                            items@,
                        ) + xs);
                    },
                    Err(_) => {},
                }
            }
            i = r + 1;
        } else {
            assert(page_selectors_view(before) + seq![x@] =~= page_selectors_view(items@));
            return Ok((items, r));
        }
    }
}

/// Parses a page rule at `pos`, after the `@page` keyword and its whitespace.
pub fn parse_page_rule(input: &Vec<TokenAndSpan>, pos: usize) -> (res: Result<(PageRule, usize), Error>)
    requires
        pos <= input.len(),
    ensures
        agrees(res, pos, spec_parse_page_rule(tv(input), pos as int)),
        advances(res, pos, input.len()),
{
    let start = input::cur_span(input, pos).lo;
    let (prelude, e1) = match parse_page_selector_list(input, pos) {
        Ok(v) => v,
        Err(er) => return Err(er),
    };
    match parse_page_rule_block(input, e1) {
        Err(er) => Err(er),
        Ok((block, e2)) => Ok((PageRule { span: input::span_since(input, start, e2), prelude, block }, e2)),
    }
}

/// Parses the `{ ... }` of a page rule at `pos`.
pub fn parse_page_rule_block(input: &Vec<TokenAndSpan>, pos: usize) -> (res: Result<
    (PageRuleBlock, usize),
    Error,
>)
    requires
        pos <= input.len(),
    ensures
        agrees(res, pos, spec_parse_page_rule_block(tv(input), pos as int)),
        advances(res, pos, input.len()),
    decreases input.len() - pos, 3int,
{
    let start = input::cur_span(input, pos).lo;
    if !input::kind_is(input, pos, TokenKind::LBrace) {
        return Err(input::error_at(input, pos, ErrorKind::Expected(Expectation::LBrace)));
    }
    let q = input::skip_ws(input, pos + 1);
    if input::kind_is(input, q, TokenKind::RBrace) {
        let block = PageRuleBlock { span: input::span_since(input, start, q + 1), items: Vec::new() };
        assert(block@.items =~= seq![]);
        return Ok((block, q + 1));
    }
    let (items, r) = match parse_page_items(input, q) {
        Ok(v) => v,
        Err(er) => return Err(er),
    };
    if input::kind_is(input, r, TokenKind::RBrace) {
        Ok((PageRuleBlock { span: input::span_since(input, start, r + 1), items }, r + 1))
    } else {
        Err(input::error_at(input, r, ErrorKind::Expected(Expectation::RBrace)))
    }
}

fn parse_page_items(input: &Vec<TokenAndSpan>, pos: usize) -> (res: Result<
    (Vec<PageRuleBlockItem>, usize),
    Error,
>)
    requires
        pos <= input.len(),
    ensures
        match res {
            Ok((v, q)) => pos < q <= input.len() && spec_parse_page_items(tv(input), pos as int)
                == Ok::<(Seq<SpecPageRuleBlockItem>, nat), Error>(
                (page_items_view(v@), (q - pos) as nat),
            ),
            Err(e) => spec_parse_page_items(tv(input), pos as int) == Err::<
                (Seq<SpecPageRuleBlockItem>, nat),
                Error,
            >(e),
        },
    decreases input.len() - pos, 2int,
{
    let ghost t = tv(input);
    let mut items: Vec<PageRuleBlockItem> = Vec::new();
    let mut i = pos;
    proof {
        assert(page_items_view(items@) =~= Seq::<SpecPageRuleBlockItem>::empty());
        match spec_parse_page_items(t, pos as int) {
            Ok((xs, m)) => {
                assert(page_items_view(items@) + xs =~= xs);
            },
            Err(_) => {},
        }
    }
    loop
        invariant
            pos <= i <= input.len(),
            t == tv(input),
            spec_parse_page_items(t, pos as int) == prepend(
                page_items_view(items@),
                pos as int,
                i as int,
                spec_parse_page_items(t, i as int),
            ),
        decreases input.len() - i,
    {
        let q = input::skip_ws(input, i);
        let (x, e) = match parse_page_rule_block_item(input, q) {
            Ok(v) => v,
            Err(er) => return Err(er),
        };
        let ghost before = items@;
        let ghost xv = x@;
        proof {
            lemma_page_items_view_push(before, x);
        }
        items.push(x);
        let r = input::skip_ws(input, e);
        if r >= input.len() || input::kind_is(input, r, TokenKind::RBrace) {
            assert(page_items_view(before) + seq![xv] =~= page_items_view(items@));
            return Ok((items, r));
        }
        proof {
            match spec_parse_page_items(t, r as int) {
                Ok((xs, m)) => {
                    assert(page_items_view(before) + (seq![xv] + xs) =~= page_items_view(items@) + xs);
                },
                Err(_) => {},
            }
        }
        i = r;
    }
}

/// Parses an item of a page block at `pos`: a margin rule at an at-keyword,
/// else a declaration with an optional `;`.
pub fn parse_page_rule_block_item(input: &Vec<TokenAndSpan>, pos: usize) -> (res: Result<
    (PageRuleBlockItem, usize),
    Error,
>)
    requires
        pos <= input.len(),
    ensures
        agrees(res, pos, spec_parse_page_item(tv(input), pos as int)),
        advances(res, pos, input.len()),
    decreases input.len() - pos, 1int,
{
    if pos >= input.len() {
        return Err(input::error_at(input, pos, ErrorKind::Eof));
    }
    if input::kind_is(input, pos, TokenKind::AtKeyword) {
        match parse_nested_page_rule(input, pos) {
            Ok((r, e)) => Ok((PageRuleBlockItem::Nested(Box::new(r)), e)),
            Err(er) => Err(er),
        }
    } else {
        match parse_declaration(input, pos) {
            Err(er) => Err(er),
            Ok((d, e)) => {
                let q = input::eat(input, e, TokenKind::Semi);
                Ok((PageRuleBlockItem::Declaration(Box::new(d)), q))
            },
        }
    }
}

/// Parses a margin rule such as `@top-left { ... }` at `pos`.
pub fn parse_nested_page_rule(input: &Vec<TokenAndSpan>, pos: usize) -> (res: Result<
    (NestedPageRule, usize),
    Error,
>)
    requires
        pos <= input.len(),
    ensures
        agrees(res, pos, spec_parse_nested_page_rule(tv(input), pos as int)),
        advances(res, pos, input.len()),
    decreases input.len() - pos, 0int,
{
    if pos >= input.len() {
        return Err(input::error_at(input, pos, ErrorKind::Eof));
    }
    let start = input::cur_span(input, pos).lo;
    let (prelude, e) = parse_selectors(input, pos);
    match parse_page_rule_block(input, e) {
        Err(er) => Err(er),
        Ok((block, e2)) => Ok(
            (NestedPageRule { span: input::span_since(input, start, e2), prelude, block }, e2),
        ),
    }
}

} // verus!
