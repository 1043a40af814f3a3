//! What a parser reads: from its position on, only the tokens at or after it,
//! and before it only kinds and spans. These facts let two token streams that
//! differ only in earlier texts be compared.
use vstd::prelude::*;
use crate::component::{
    brace_run, lemma_run_bounds, lemma_prelude_run_bound, paren_run, prelude_run, semi_run,
    spec_parse_declaration, spec_parse_fn_value, spec_parse_function, spec_parse_id,
    spec_parse_percent, spec_parse_rule_list, spec_parse_selectors, spec_parse_simple_block,
    spec_parse_str, spec_parse_value_tokens, value_run,
};
use crate::ast::{SpecAtRule, SpecText};
use crate::at_rule::{
    spec_eat_keyframe_block_delimiter, spec_eat_keyframe_selector_delimiter, spec_parse_at_rule,
    spec_parse_charset_rule, spec_parse_document_at_rule, spec_parse_document_rule,
    spec_parse_document_selectors, spec_parse_font_face_rule, spec_parse_import_rule,
    spec_parse_import_url, spec_parse_keyframe_block, spec_parse_keyframe_block_list,
    spec_parse_keyframe_block_rule, spec_parse_keyframe_selector,
    spec_parse_keyframe_selector_list, spec_parse_keyframes_rule, spec_parse_media_rule,
    spec_parse_namespace_rule, spec_parse_page_at_rule, spec_parse_supports_rule,
    spec_parse_unknown_at_rule, spec_parse_viewport_rule,
};
use crate::cursor::{SRes, cur_span, is_ident_named, is_kind, lemma_skip_ws, skip_ws, ws_run};
use crate::page::{
    spec_parse_nested_page_rule, spec_parse_page_item, spec_parse_page_items, spec_parse_page_rule,
    spec_parse_page_rule_block, spec_parse_page_selector, spec_parse_page_selector_list,
};
use crate::query::{
    spec_parse_media_query, spec_parse_media_query_base, spec_parse_media_query_list,
    spec_parse_support_in_parens, spec_parse_support_query,
};
use crate::token::{SpecToken, TokenKind};

verus! {

/// Two token streams of the same length, with the same kinds and spans
/// everywhere, and the same tokens from `q` on.
pub open spec fn agree_from(t1: Seq<SpecToken>, t2: Seq<SpecToken>, q: int) -> bool {
    &&& t1.len() == t2.len()
    &&& forall|i: int|
        #![trigger t1[i]]
        #![trigger t2[i]]
        0 <= i < t1.len() ==> t1[i].kind == t2[i].kind && t1[i].span == t2[i].span
    &&& forall|i: int| #![trigger t1[i]] #![trigger t2[i]] q <= i < t1.len() ==> t1[i] == t2[i]
}

/// Agreement from `q` on is agreement from any later position on.
pub proof fn lemma_agree_later(t1: Seq<SpecToken>, t2: Seq<SpecToken>, q: int, r: int)
    requires
        agree_from(t1, t2, q),
        q <= r,
    ensures
        agree_from(t1, t2, r),
{
}

/// The runs of tokens read only kinds.
pub proof fn lemma_runs_frame(t1: Seq<SpecToken>, t2: Seq<SpecToken>, q0: int, q: int)
    requires
        agree_from(t1, t2, q0),
    ensures
        ws_run(t1, q) == ws_run(t2, q),
        skip_ws(t1, q) == skip_ws(t2, q),
        prelude_run(t1, q) == prelude_run(t2, q),
        semi_run(t1, q) == semi_run(t2, q),
    decreases t1.len() - q,
{
    if 0 <= q < t1.len() {
        lemma_runs_frame(t1, t2, q0, q + 1);
    }
}

pub proof fn lemma_brace_run_frame(
    t1: Seq<SpecToken>,
    t2: Seq<SpecToken>,
    q0: int,
    q: int,
    depth: nat,
)
    requires
        agree_from(t1, t2, q0),
    ensures
        brace_run(t1, q, depth) == brace_run(t2, q, depth),
    decreases t1.len() - q,
{
    if 0 <= q < t1.len() {
        lemma_brace_run_frame(t1, t2, q0, q + 1, depth + 1);
        lemma_brace_run_frame(t1, t2, q0, q + 1, depth);
        if depth > 0 {
            lemma_brace_run_frame(t1, t2, q0, q + 1, (depth - 1) as nat);
        }
    }
}

pub proof fn lemma_paren_run_frame(
    t1: Seq<SpecToken>,
    t2: Seq<SpecToken>,
    q0: int,
    q: int,
    depth: nat,
)
    requires
        agree_from(t1, t2, q0),
    ensures
        paren_run(t1, q, depth) == paren_run(t2, q, depth),
        value_run(t1, q, depth) == value_run(t2, q, depth),
    decreases t1.len() - q,
{
    if 0 <= q < t1.len() {
        lemma_paren_run_frame(t1, t2, q0, q + 1, depth + 1);
        lemma_paren_run_frame(t1, t2, q0, q + 1, depth);
        if depth > 0 {
            lemma_paren_run_frame(t1, t2, q0, q + 1, (depth - 1) as nat);
        }
    }
}

/// The tokens from `q0` on are the same.
pub proof fn lemma_subrange_frame(t1: Seq<SpecToken>, t2: Seq<SpecToken>, q0: int, a: int, b: int)
    requires
        agree_from(t1, t2, q0),
        q0 <= a <= b <= t1.len(),
        0 <= a,
    ensures
        t1.subrange(a, b) == t2.subrange(a, b),
{
    assert(t1.subrange(a, b) =~= t2.subrange(a, b));
}

/// The component parsers read only the tokens from their position on (and
/// kinds and spans).
pub proof fn lemma_components_frame(t1: Seq<SpecToken>, t2: Seq<SpecToken>, q0: int, q: int)
    requires
        agree_from(t1, t2, q0),
        0 <= q0 <= q <= t1.len(),
    ensures
        spec_parse_id(t1, q) == spec_parse_id(t2, q),
        spec_parse_str(t1, q) == spec_parse_str(t2, q),
        spec_parse_percent(t1, q) == spec_parse_percent(t2, q),
        spec_parse_function(t1, q) == spec_parse_function(t2, q),
        spec_parse_fn_value(t1, q) == spec_parse_fn_value(t2, q),
        spec_parse_simple_block(t1, q) == spec_parse_simple_block(t2, q),
        spec_parse_rule_list(t1, q) == spec_parse_rule_list(t2, q),
        spec_parse_value_tokens(t1, q) == spec_parse_value_tokens(t2, q),
        spec_parse_declaration(t1, q) == spec_parse_declaration(t2, q),
        spec_parse_selectors(t1, q) == spec_parse_selectors(t2, q),
{
    lemma_brace_run_frame(t1, t2, q0, q, 0);
    lemma_brace_run_frame(t1, t2, q0, q + 1, 0);
    lemma_paren_run_frame(t1, t2, q0, q, 0);
    lemma_paren_run_frame(t1, t2, q0, q + 1, 0);
    lemma_runs_frame(t1, t2, q0, q + 1);
    lemma_run_bounds(t1, q, 0);
    if q < t1.len() {
        lemma_run_bounds(t1, q + 1, 0);
        lemma_prelude_run_bound(t1, q + 1);
        lemma_subrange_frame(t1, t2, q0, q + 1, q + 1 + paren_run(t1, q + 1, 0));
        lemma_subrange_frame(t1, t2, q0, q + 1, q + 1 + brace_run(t1, q + 1, 0));
        lemma_subrange_frame(t1, t2, q0, q, q + 1 + prelude_run(t1, q + 1));
    }
    lemma_subrange_frame(t1, t2, q0, q, q + brace_run(t1, q, 0));
    lemma_subrange_frame(t1, t2, q0, q, q + value_run(t1, q, 0));
    // the declaration's value
    let c = skip_ws(t1, q + 1);
    lemma_skip_ws(t1, q + 1);
    lemma_runs_frame(t1, t2, q0, c + 1);
    lemma_skip_ws(t1, c + 1);
    let r = skip_ws(t1, c + 1);
    if c < t1.len() {
        lemma_paren_run_frame(t1, t2, q0, r, 0);
        lemma_run_bounds(t1, r, 0);
        lemma_subrange_frame(t1, t2, q0, r, r + value_run(t1, r, 0));
    }
}

// ---------------------------------------------------------------------------
// Queries
// ---------------------------------------------------------------------------

pub proof fn lemma_media_query_frame(
    t1: Seq<SpecToken>,
    t2: Seq<SpecToken>,
    q0: int,
    q: int,
    no_comma: bool,
)
    requires
        agree_from(t1, t2, q0),
        0 <= q0 <= q <= t1.len(),
    ensures
        spec_parse_media_query(t1, q, no_comma) == spec_parse_media_query(t2, q, no_comma),
    decreases t1.len() - q, 1int,
{
    lemma_runs_frame(t1, t2, q0, q);
    lemma_skip_ws(t1, q);
    let p1 = skip_ws(t1, q);
    lemma_media_query_base_frame(t1, t2, q0, p1, no_comma);
    if let Ok((b, n)) = spec_parse_media_query_base(t1, p1, no_comma) {
        lemma_runs_frame(t1, t2, q0, p1 + n);
        let s = skip_ws(t1, p1 + n);
        lemma_skip_ws(t1, p1 + n);
        if is_ident_named(t1, s, "and"@) || is_ident_named(t1, s, "or"@) {
            lemma_media_query_frame(t1, t2, q0, s + 1, no_comma);
        } else if !no_comma && is_kind(t1, s, TokenKind::Comma) {
            lemma_media_query_list_frame(t1, t2, q0, s + 1);
        }
    }
}

pub proof fn lemma_media_query_base_frame(
    t1: Seq<SpecToken>,
    t2: Seq<SpecToken>,
    q0: int,
    p: int,
    no_comma: bool,
)
    requires
        agree_from(t1, t2, q0),
        0 <= q0 <= p <= t1.len(),
    ensures
        spec_parse_media_query_base(t1, p, no_comma) == spec_parse_media_query_base(t2, p, no_comma),
    decreases t1.len() - p, 0int,
{
    if is_ident_named(t1, p, "not"@) || is_ident_named(t1, p, "only"@) {
        lemma_media_query_frame(t1, t2, q0, p + 1, no_comma);
    } else if is_kind(t1, p, TokenKind::LParen) {
        let q = p + 1;
        if is_kind(t1, q, TokenKind::Ident) {
            lemma_runs_frame(t1, t2, q0, q + 1);
            lemma_skip_ws(t1, q + 1);
            let q2 = skip_ws(t1, q + 1);
            if q2 < t1.len() {
                lemma_runs_frame(t1, t2, q0, q2 + 1);
                lemma_skip_ws(t1, q2 + 1);
                lemma_components_frame(t1, t2, q0, skip_ws(t1, q2 + 1));
            }
        } else {
            lemma_media_query_frame(t1, t2, q0, q, no_comma);
        }
    }
}

pub proof fn lemma_media_query_list_frame(t1: Seq<SpecToken>, t2: Seq<SpecToken>, q0: int, p: int)
    requires
        agree_from(t1, t2, q0),
        0 <= q0 <= p <= t1.len(),
    ensures
        spec_parse_media_query_list(t1, p) == spec_parse_media_query_list(t2, p),
    decreases t1.len() - p, 2int,
{
    lemma_runs_frame(t1, t2, q0, p);
    lemma_skip_ws(t1, p);
    let q = skip_ws(t1, p);
    lemma_media_query_frame(t1, t2, q0, q, true);
    if let Ok((x, n)) = spec_parse_media_query(t1, q, true) {
        lemma_runs_frame(t1, t2, q0, q + n);
        let r = skip_ws(t1, q + n);
        if is_kind(t1, r, TokenKind::Comma) {
            lemma_media_query_list_frame(t1, t2, q0, r + 1);
        }
    }
}

pub proof fn lemma_support_query_frame(t1: Seq<SpecToken>, t2: Seq<SpecToken>, q0: int, p: int)
    requires
        agree_from(t1, t2, q0),
        0 <= q0 <= p <= t1.len(),
    ensures
        spec_parse_support_query(t1, p) == spec_parse_support_query(t2, p),
    decreases t1.len() - p, 0int,
{
    lemma_runs_frame(t1, t2, q0, p);
    lemma_skip_ws(t1, p);
    let p1 = skip_ws(t1, p);
    if is_ident_named(t1, p1, "not"@) {
        lemma_support_query_frame(t1, t2, q0, p1 + 1);
    } else if is_kind(t1, p1, TokenKind::LParen) {
        lemma_runs_frame(t1, t2, q0, p1 + 1);
        lemma_skip_ws(t1, p1 + 1);
        let q = skip_ws(t1, p1 + 1);
        let start = cur_span(t1, p1).lo;
        lemma_support_in_parens_frame(t1, t2, q0, q, start);
        if let Ok((x, n)) = spec_parse_support_in_parens(t1, q, start) {
            let r = q + n;
            if is_kind(t1, r, TokenKind::RParen) {
                lemma_runs_frame(t1, t2, q0, r + 1);
                lemma_skip_ws(t1, r + 1);
                let s = skip_ws(t1, r + 1);
                if is_ident_named(t1, s, "and"@) || is_ident_named(t1, s, "or"@) {
                    lemma_support_query_frame(t1, t2, q0, s + 1);
                }
            }
        }
    }
}

pub proof fn lemma_support_in_parens_frame(
    t1: Seq<SpecToken>,
    t2: Seq<SpecToken>,
    q0: int,
    q: int,
    start: u32,
)
    requires
        agree_from(t1, t2, q0),
        0 <= q0 <= q <= t1.len(),
    ensures
        spec_parse_support_in_parens(t1, q, start) == spec_parse_support_in_parens(t2, q, start),
    decreases t1.len() - q, 1int,
{
    if is_kind(t1, q, TokenKind::LParen) {
        lemma_support_query_frame(t1, t2, q0, q);
    } else {
        lemma_components_frame(t1, t2, q0, q);
    }
}

// ---------------------------------------------------------------------------
// Page rules
// ---------------------------------------------------------------------------

pub proof fn lemma_page_selector_frame(t1: Seq<SpecToken>, t2: Seq<SpecToken>, q0: int, p: int)
    requires
        agree_from(t1, t2, q0),
        0 <= q0 <= p <= t1.len(),
    ensures
        spec_parse_page_selector(t1, p) == spec_parse_page_selector(t2, p),
{
    lemma_runs_frame(t1, t2, q0, p);
    lemma_skip_ws(t1, p);
    let q = skip_ws(t1, p);
    if q < t1.len() {
        lemma_components_frame(t1, t2, q0, q + 1);
        if q + 1 < t1.len() {
            lemma_components_frame(t1, t2, q0, q + 2);
        }
    }
}

pub proof fn lemma_page_selector_list_frame(
    t1: Seq<SpecToken>,
    t2: Seq<SpecToken>,
    q0: int,
    p: int,
)
    requires
        agree_from(t1, t2, q0),
        0 <= q0 <= p <= t1.len(),
    ensures
        spec_parse_page_selector_list(t1, p) == spec_parse_page_selector_list(t2, p),
    decreases t1.len() - p,
{
    lemma_runs_frame(t1, t2, q0, p);
    lemma_skip_ws(t1, p);
    let q = skip_ws(t1, p);
    lemma_page_selector_frame(t1, t2, q0, q);
    if let Ok((s, n)) = spec_parse_page_selector(t1, q) {
        lemma_runs_frame(t1, t2, q0, q + n);
        let r = skip_ws(t1, q + n);
        if is_kind(t1, r, TokenKind::Comma) {
            lemma_page_selector_list_frame(t1, t2, q0, r + 1);
        }
    }
}

pub proof fn lemma_page_rule_frame(t1: Seq<SpecToken>, t2: Seq<SpecToken>, q0: int, p: int)
    requires
        agree_from(t1, t2, q0),
        0 <= q0 <= p <= t1.len(),
    ensures
        spec_parse_page_rule(t1, p) == spec_parse_page_rule(t2, p),
{
    lemma_page_selector_list_frame(t1, t2, q0, p);
    if let Ok((prelude, n)) = spec_parse_page_selector_list(t1, p) {
        lemma_page_selector_list_bound(t1, p);
        lemma_page_rule_block_frame(t1, t2, q0, p + n);
    }
}

proof fn lemma_page_selector_list_bound(t: Seq<SpecToken>, p: int)
    requires
        0 <= p <= t.len(),
    ensures
        spec_parse_page_selector_list(t, p) matches Ok((_, n)) ==> p + n <= t.len(),
    decreases t.len() - p,
{
    lemma_skip_ws(t, p);
    let q = skip_ws(t, p);
    if let Ok((s, n)) = spec_parse_page_selector(t, q) {
        lemma_skip_ws(t, q);
        if q < t.len() {
            lemma_skip_ws(t, q + 1);
        }
        lemma_skip_ws(t, q + n);
        let r = skip_ws(t, q + n);
        if is_kind(t, r, TokenKind::Comma) {
            lemma_page_selector_list_bound(t, r + 1);
        }
    }
}

pub proof fn lemma_page_rule_block_frame(t1: Seq<SpecToken>, t2: Seq<SpecToken>, q0: int, p: int)
    requires
        agree_from(t1, t2, q0),
        0 <= q0 <= p <= t1.len(),
    ensures
        spec_parse_page_rule_block(t1, p) == spec_parse_page_rule_block(t2, p),
    decreases t1.len() - p, 3int,
{
    if is_kind(t1, p, TokenKind::LBrace) {
        lemma_runs_frame(t1, t2, q0, p + 1);
        lemma_skip_ws(t1, p + 1);
        let q = skip_ws(t1, p + 1);
        if !is_kind(t1, q, TokenKind::RBrace) {
            lemma_page_items_frame(t1, t2, q0, q);
        }
    }
}

pub proof fn lemma_page_items_frame(t1: Seq<SpecToken>, t2: Seq<SpecToken>, q0: int, p: int)
    requires
        agree_from(t1, t2, q0),
        0 <= q0 <= p <= t1.len(),
    ensures
        spec_parse_page_items(t1, p) == spec_parse_page_items(t2, p),
    decreases t1.len() - p, 2int,
{
    lemma_runs_frame(t1, t2, q0, p);
    lemma_skip_ws(t1, p);
    let q = skip_ws(t1, p);
    lemma_page_item_frame(t1, t2, q0, q);
    if let Ok((x, n)) = spec_parse_page_item(t1, q) {
        lemma_runs_frame(t1, t2, q0, q + n);
        let r = skip_ws(t1, q + n);
        if !(r >= t1.len() || is_kind(t1, r, TokenKind::RBrace) || n == 0) {
            lemma_skip_ws(t1, q + n);
            lemma_page_items_frame(t1, t2, q0, r);
        }
    }
}

pub proof fn lemma_page_item_frame(t1: Seq<SpecToken>, t2: Seq<SpecToken>, q0: int, p: int)
    requires
        agree_from(t1, t2, q0),
        0 <= q0 <= p <= t1.len(),
    ensures
        spec_parse_page_item(t1, p) == spec_parse_page_item(t2, p),
    decreases t1.len() - p, 1int,
{
    if is_kind(t1, p, TokenKind::AtKeyword) {
        lemma_nested_page_rule_frame(t1, t2, q0, p);
    } else {
        lemma_components_frame(t1, t2, q0, p);
    }
}

pub proof fn lemma_nested_page_rule_frame(t1: Seq<SpecToken>, t2: Seq<SpecToken>, q0: int, p: int)
    requires
        agree_from(t1, t2, q0),
        0 <= q0 <= p <= t1.len(),
    ensures
        spec_parse_nested_page_rule(t1, p) == spec_parse_nested_page_rule(t2, p),
    decreases t1.len() - p, 0int,
{
    if p < t1.len() {
        lemma_components_frame(t1, t2, q0, p);
        lemma_prelude_run_bound(t1, p + 1);
        lemma_page_rule_block_frame(t1, t2, q0, p + 1 + prelude_run(t1, p + 1));
    }
}

// ---------------------------------------------------------------------------
// At-rules
// ---------------------------------------------------------------------------

/// The outcome `r` of parsing an at-rule, with the name of an unknown rule
/// given the text `value` / `raw`.
pub open spec fn with_unknown_name(r: SRes<SpecAtRule>, value: Seq<char>, raw: Seq<char>) -> SRes<
    SpecAtRule,
> {
    match r {
        Ok((SpecAtRule::Unknown { span, name, tokens }, n)) => Ok(
            (
                SpecAtRule::Unknown {
                    span,
                    name: SpecText { span: name.span, value, raw },
                    tokens,
                },
                n,
            ),
        ),
        _ => r,
    }
}

pub proof fn lemma_import_url_frame(t1: Seq<SpecToken>, t2: Seq<SpecToken>, q0: int, q: int)
    requires
        agree_from(t1, t2, q0),
        0 <= q0 <= q <= t1.len(),
    ensures
        spec_parse_import_url(t1, q) == spec_parse_import_url(t2, q),
{
    lemma_components_frame(t1, t2, q0, q);
}

pub proof fn lemma_keyframe_selector_list_frame(
    t1: Seq<SpecToken>,
    t2: Seq<SpecToken>,
    q0: int,
    p: int,
)
    requires
        agree_from(t1, t2, q0),
        0 <= q0 <= p <= t1.len(),
    ensures
        spec_parse_keyframe_selector_list(t1, p) == spec_parse_keyframe_selector_list(t2, p),
    decreases t1.len() - p,
{
    lemma_runs_frame(t1, t2, q0, p);
    lemma_skip_ws(t1, p);
    let q = skip_ws(t1, p);
    lemma_components_frame(t1, t2, q0, q);
    if let Ok((x, n)) = spec_parse_keyframe_selector(t1, q) {
        lemma_runs_frame(t1, t2, q0, q + n);
        let c = skip_ws(t1, q + n);
        if is_kind(t1, c, TokenKind::Comma) {
            lemma_runs_frame(t1, t2, q0, c + 1);
            lemma_skip_ws(t1, c + 1);
            lemma_keyframe_selector_list_frame(t1, t2, q0, skip_ws(t1, c + 1));
        }
    }
}

/// Parsing an unknown at-rule reads the keyword's text only for the rule's
/// name.
pub proof fn lemma_unknown_at_rule_frame(
    t1: Seq<SpecToken>,
    t2: Seq<SpecToken>,
    p: int,
    q: int,
)
    requires
        agree_from(t1, t2, p + 1),
        0 <= p < q <= t1.len(),
    ensures
        spec_parse_unknown_at_rule(t2, p, q) == with_unknown_name(
            spec_parse_unknown_at_rule(t1, p, q),
            t2[p].value,
            t2[p].raw,
        ),
        t1[p] == t2[p] ==> spec_parse_unknown_at_rule(t2, p, q) == spec_parse_unknown_at_rule(
            t1,
            p,
            q,
        ),
{
    reveal(spec_parse_unknown_at_rule);
    lemma_runs_frame(t1, t2, p + 1, q);
    lemma_skip_ws(t1, q);
    let q1 = skip_ws(t1, q);
    lemma_runs_frame(t1, t2, p + 1, q1);
    lemma_brace_run_frame(t1, t2, p + 1, q1 + 1, 0);
    lemma_run_bounds(t1, q1, 0);
    if q1 < t1.len() {
        lemma_run_bounds(t1, q1 + 1, 0);
        let close = q1 + 1 + brace_run(t1, q1 + 1, 0);
        if close < t1.len() {
            lemma_subrange_frame(t1, t2, p + 1, q1, close + 1);
        } else {
            lemma_subrange_frame(t1, t2, p + 1, q1, close);
        }
    }
    lemma_subrange_frame(t1, t2, p + 1, q1, q1 + semi_run(t1, q1));
}

pub proof fn lemma_charset_rule_frame(t1: Seq<SpecToken>, t2: Seq<SpecToken>, p: int)
    requires
        agree_from(t1, t2, p + 1),
        0 <= p < t1.len(),
    ensures
        spec_parse_charset_rule(t2, p) == with_unknown_name(
            spec_parse_charset_rule(t1, p),
            t2[p].value,
            t2[p].raw,
        ),
        t1[p] == t2[p] ==> spec_parse_charset_rule(t2, p) == spec_parse_charset_rule(t1, p),
{
    reveal(spec_parse_charset_rule);
    lemma_runs_frame(t1, t2, p + 1, p + 1);
    lemma_skip_ws(t1, p + 1);
    let q1 = skip_ws(t1, p + 1);
    lemma_unknown_at_rule_frame(t1, t2, p, q1);
}

/// The rules other than unknown ones read only the keyword's span.
pub proof fn lemma_named_rules_frame(t1: Seq<SpecToken>, t2: Seq<SpecToken>, q0: int, p: int)
    requires
        agree_from(t1, t2, q0),
        0 <= p < t1.len(),
        0 <= q0 <= p + 1,
    ensures
        spec_parse_import_rule(t1, p) == spec_parse_import_rule(t2, p),
        spec_parse_font_face_rule(t1, p) == spec_parse_font_face_rule(t2, p),
        spec_parse_viewport_rule(t1, p) == spec_parse_viewport_rule(t2, p),
        spec_parse_supports_rule(t1, p) == spec_parse_supports_rule(t2, p),
        spec_parse_media_rule(t1, p) == spec_parse_media_rule(t2, p),
        spec_parse_page_at_rule(t1, p) == spec_parse_page_at_rule(t2, p),
        spec_parse_document_at_rule(t1, p) == spec_parse_document_at_rule(t2, p),
        spec_parse_namespace_rule(t1, p) == spec_parse_namespace_rule(t2, p),
{
    lemma_import_rule_frame(t1, t2, q0, p);
    lemma_block_rules_frame(t1, t2, q0, p);
    lemma_query_rules_frame(t1, t2, q0, p);
    lemma_page_document_rules_frame(t1, t2, q0, p);
    lemma_namespace_rule_frame(t1, t2, q0, p);
}

proof fn lemma_block_rules_frame(t1: Seq<SpecToken>, t2: Seq<SpecToken>, q0: int, p: int)
    requires
        agree_from(t1, t2, q0),
        0 <= p < t1.len(),
        0 <= q0 <= p + 1,
    ensures
        spec_parse_font_face_rule(t1, p) == spec_parse_font_face_rule(t2, p),
        spec_parse_viewport_rule(t1, p) == spec_parse_viewport_rule(t2, p),
{
    reveal(spec_parse_font_face_rule);
    reveal(spec_parse_viewport_rule);
    lemma_runs_frame(t1, t2, q0, p + 1);
    lemma_skip_ws(t1, p + 1);
    lemma_components_frame(t1, t2, q0, skip_ws(t1, p + 1));
}

proof fn lemma_query_rules_frame(t1: Seq<SpecToken>, t2: Seq<SpecToken>, q0: int, p: int)
    requires
        agree_from(t1, t2, q0),
        0 <= p < t1.len(),
        0 <= q0 <= p + 1,
    ensures
        spec_parse_supports_rule(t1, p) == spec_parse_supports_rule(t2, p),
        spec_parse_media_rule(t1, p) == spec_parse_media_rule(t2, p),
{
    reveal(spec_parse_supports_rule);
    reveal(spec_parse_media_rule);
    lemma_runs_frame(t1, t2, q0, p + 1);
    lemma_skip_ws(t1, p + 1);
    let q1 = skip_ws(t1, p + 1);
    lemma_support_query_frame(t1, t2, q0, q1);
    lemma_media_query_frame(t1, t2, q0, q1, false);
    if let Ok((query, n)) = spec_parse_support_query(t1, q1) {
        if is_kind(t1, q1 + n, TokenKind::LBrace) {
            lemma_components_frame(t1, t2, q0, q1 + n + 1);
        }
    }
    if let Ok((query, n)) = spec_parse_media_query(t1, q1, false) {
        if is_kind(t1, q1 + n, TokenKind::LBrace) {
            lemma_components_frame(t1, t2, q0, q1 + n + 1);
        }
    }
}

proof fn lemma_page_document_rules_frame(t1: Seq<SpecToken>, t2: Seq<SpecToken>, q0: int, p: int)
    requires
        agree_from(t1, t2, q0),
        0 <= p < t1.len(),
        0 <= q0 <= p + 1,
    ensures
        spec_parse_page_at_rule(t1, p) == spec_parse_page_at_rule(t2, p),
        spec_parse_document_at_rule(t1, p) == spec_parse_document_at_rule(t2, p),
{
    reveal(spec_parse_page_at_rule);
    reveal(spec_parse_document_at_rule);
    lemma_runs_frame(t1, t2, q0, p + 1);
    lemma_skip_ws(t1, p + 1);
    let q1 = skip_ws(t1, p + 1);
    lemma_page_rule_frame(t1, t2, q0, q1);
    lemma_document_rule_frame(t1, t2, q0, q1);
}

proof fn lemma_namespace_rule_frame(t1: Seq<SpecToken>, t2: Seq<SpecToken>, q0: int, p: int)
    requires
        agree_from(t1, t2, q0),
        0 <= p < t1.len(),
        0 <= q0 <= p + 1,
    ensures
        spec_parse_namespace_rule(t1, p) == spec_parse_namespace_rule(t2, p),
{
    reveal(spec_parse_namespace_rule);
    lemma_runs_frame(t1, t2, q0, p + 1);
    lemma_skip_ws(t1, p + 1);
    let q1 = skip_ws(t1, p + 1);
    if is_kind(t1, q1, TokenKind::Ident) {
        lemma_runs_frame(t1, t2, q0, q1 + 1);
    }
}

proof fn lemma_import_rule_frame(t1: Seq<SpecToken>, t2: Seq<SpecToken>, q0: int, p: int)
    requires
        agree_from(t1, t2, q0),
        0 <= p < t1.len(),
        0 <= q0 <= p + 1,
    ensures
        spec_parse_import_rule(t1, p) == spec_parse_import_rule(t2, p),
{
    reveal(spec_parse_import_rule);
    lemma_runs_frame(t1, t2, q0, p + 1);
    lemma_skip_ws(t1, p + 1);
    let q1 = skip_ws(t1, p + 1);
    lemma_import_url_frame(t1, t2, q0, q1);
    if let Ok((src, n)) = spec_parse_import_url(t1, q1) {
        lemma_import_url_bound(t1, q1);
        lemma_runs_frame(t1, t2, q0, q1 + n);
        lemma_skip_ws(t1, q1 + n);
        lemma_media_query_frame(t1, t2, q0, skip_ws(t1, q1 + n), false);
    }
}

proof fn lemma_import_url_bound(t: Seq<SpecToken>, q: int)
    requires
        0 <= q <= t.len(),
    ensures
        spec_parse_import_url(t, q) matches Ok((_, n)) ==> q + n <= t.len(),
{
    if q < t.len() {
        lemma_run_bounds(t, q + 1, 0);
    }
}

pub proof fn lemma_document_rule_frame(t1: Seq<SpecToken>, t2: Seq<SpecToken>, q0: int, p: int)
    requires
        agree_from(t1, t2, q0),
        0 <= q0 <= p <= t1.len(),
    ensures
        spec_parse_document_rule(t1, p) == spec_parse_document_rule(t2, p),
{
    lemma_document_selectors_frame(t1, t2, q0, p);
    if let Ok((sels, n)) = spec_parse_document_selectors(t1, p) {
        if is_kind(t1, p + n, TokenKind::LBrace) {
            lemma_components_frame(t1, t2, q0, p + n + 1);
        }
    }
}

pub proof fn lemma_document_selectors_frame(
    t1: Seq<SpecToken>,
    t2: Seq<SpecToken>,
    q0: int,
    p: int,
)
    requires
        agree_from(t1, t2, q0),
        0 <= q0 <= p <= t1.len(),
    ensures
        spec_parse_document_selectors(t1, p) == spec_parse_document_selectors(t2, p),
    decreases t1.len() - p,
{
    lemma_components_frame(t1, t2, q0, p);
    if let Ok((v, n)) = spec_parse_fn_value(t1, p) {
        crate::at_rule::lemma_fn_value_consumes(t1, p);
        lemma_runs_frame(t1, t2, q0, p + n);
        let q = skip_ws(t1, p + n);
        if is_kind(t1, q, TokenKind::Comma) {
            lemma_document_selectors_frame(t1, t2, q0, q);
        }
    }
}

pub proof fn lemma_at_rule_frame(t1: Seq<SpecToken>, t2: Seq<SpecToken>, q0: int, p: int)
    requires
        agree_from(t1, t2, q0),
        0 <= q0 <= p <= t1.len(),
    ensures
        spec_parse_at_rule(t1, p) == spec_parse_at_rule(t2, p),
    decreases t1.len() - p, 1int,
{
    if is_kind(t1, p, TokenKind::AtKeyword) {
        lemma_agree_later(t1, t2, q0, p);
        lemma_charset_rule_frame(t1, t2, p);
        lemma_unknown_at_rule_frame(t1, t2, p, p + 1);
        lemma_named_rules_frame(t1, t2, q0, p);
        lemma_keyframes_rule_frame(t1, t2, q0, p);
    }
}

#[verifier::rlimit(50)]
pub proof fn lemma_keyframes_rule_frame(t1: Seq<SpecToken>, t2: Seq<SpecToken>, q0: int, p: int)
    requires
        agree_from(t1, t2, q0),
        0 <= p < t1.len(),
        0 <= q0 <= p + 1,
    ensures
        spec_parse_keyframes_rule(t1, p) == spec_parse_keyframes_rule(t2, p),
    decreases t1.len() - p, 0int,
{
    lemma_runs_frame(t1, t2, q0, p + 1);
    lemma_skip_ws(t1, p + 1);
    let q1 = skip_ws(t1, p + 1);
    if q1 < t1.len() {
        lemma_runs_frame(t1, t2, q0, q1 + 1);
        lemma_skip_ws(t1, q1 + 1);
        let q2 = skip_ws(t1, q1 + 1);
        if is_kind(t1, q2, TokenKind::LBrace) {
            lemma_keyframe_block_list_frame(t1, t2, q0, q2 + 1);
        }
    }
}

pub proof fn lemma_keyframe_block_list_frame(
    t1: Seq<SpecToken>,
    t2: Seq<SpecToken>,
    q0: int,
    p: int,
)
    requires
        agree_from(t1, t2, q0),
        0 <= q0 <= p <= t1.len(),
    ensures
        spec_parse_keyframe_block_list(t1, p) == spec_parse_keyframe_block_list(t2, p),
    decreases t1.len() - p, 4int,
{
    lemma_runs_frame(t1, t2, q0, p);
    lemma_skip_ws(t1, p);
    let q = skip_ws(t1, p);
    if !(q >= t1.len() || is_kind(t1, q, TokenKind::RBrace)) {
        lemma_keyframe_block_frame(t1, t2, q0, q);
        if let Ok((b, n)) = spec_parse_keyframe_block(t1, q) {
            lemma_runs_frame(t1, t2, q0, q + n);
            let r = skip_ws(t1, q + n);
            if !is_kind(t1, r, TokenKind::RBrace) && q < q + n <= t1.len() {
                lemma_skip_ws(t1, q + n);
                lemma_keyframe_block_list_frame(t1, t2, q0, r);
            }
        }
    }
}

pub proof fn lemma_keyframe_block_frame(t1: Seq<SpecToken>, t2: Seq<SpecToken>, q0: int, p: int)
    requires
        agree_from(t1, t2, q0),
        0 <= q0 <= p <= t1.len(),
    ensures
        spec_parse_keyframe_block(t1, p) == spec_parse_keyframe_block(t2, p),
    decreases t1.len() - p, 3int,
{
    lemma_keyframe_selector_list_frame(t1, t2, q0, p);
    crate::at_rule::lemma_keyframe_selector_list_bounds(t1, p);
    if let Ok((sels, n)) = spec_parse_keyframe_selector_list(t1, p) {
        lemma_keyframe_block_rule_frame(t1, t2, q0, p + n);
    }
}

pub proof fn lemma_keyframe_block_rule_frame(
    t1: Seq<SpecToken>,
    t2: Seq<SpecToken>,
    q0: int,
    p: int,
)
    requires
        agree_from(t1, t2, q0),
        0 <= q0 <= p <= t1.len(),
    ensures
        spec_parse_keyframe_block_rule(t1, p) == spec_parse_keyframe_block_rule(t2, p),
    decreases t1.len() - p, 2int,
{
    lemma_components_frame(t1, t2, q0, p);
    if is_kind(t1, p, TokenKind::AtKeyword) {
        lemma_at_rule_frame(t1, t2, q0, p);
    }
}

} // verus!
