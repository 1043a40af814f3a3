//! Properties of the parsers that relate several calls or hold of every
//! result.
use vstd::prelude::*;
use crate::ast::{SpecAtRule, SpecMediaQuery, SpecNamespaceValue, SpecSupportQuery};
use crate::at_rule::{
    is_keyframes_name, lemma_keyframe_selector_list_bounds, spec_parse_at_rule,
    spec_parse_charset_rule, spec_parse_document_at_rule, spec_parse_document_rule,
    spec_parse_font_face_rule, spec_parse_import_rule, spec_parse_keyframe_block,
    spec_parse_keyframe_block_list, spec_parse_keyframes_rule, spec_parse_media_rule,
    spec_parse_namespace_rule, spec_parse_page_at_rule, spec_parse_supports_rule,
    spec_parse_unknown_at_rule, spec_parse_viewport_rule, spec_parse_import_url,
};
use crate::cursor::{
    SRes, is_eof, is_ident_named, is_kind, lemma_skip_ws, skip_ws, span_since, text_of, ws_run,
};
use crate::frame::{
    agree_from, lemma_charset_rule_frame, lemma_keyframes_rule_frame, lemma_named_rules_frame,
    lemma_unknown_at_rule_frame, with_unknown_name,
};
use crate::page::{
    spec_parse_page_rule, spec_parse_page_rule_block, spec_parse_page_selector,
    spec_parse_page_selector_list,
};
use crate::query::{
    spec_parse_media_query, spec_parse_media_query_base, spec_parse_support_query,
};
use crate::text::ascii_lower;
use crate::token::{Span, SpecToken, TokenKind};

verus! {

/// The outcome `r` of a parse that started `k` tokens later.
pub open spec fn shifted<T>(r: SRes<T>, k: nat) -> SRes<T> {
    match r {
        Ok((v, n)) => Ok((v, n + k)),
        Err(e) => Err(e),
    }
}

/// Skipping whitespace twice is skipping it once.
pub proof fn lemma_skip_ws_idempotent(t: Seq<SpecToken>, p: int)
    ensures
        skip_ws(t, skip_ws(t, p)) == skip_ws(t, p),
        ws_run(t, skip_ws(t, p)) == 0,
{
    lemma_skip_ws(t, p);
}

/// Whitespace before a media query does not change it: parsing from `p` gives
/// what parsing from after the whitespace gives, the whitespace counted as
/// consumed.
pub proof fn law_media_query_leading_whitespace(t: Seq<SpecToken>, p: int, no_comma: bool)
    requires
        0 <= p <= t.len(),
    ensures
        spec_parse_media_query(t, p, no_comma) == shifted(
            spec_parse_media_query(t, skip_ws(t, p), no_comma),
            ws_run(t, p),
        ),
{
    lemma_skip_ws_idempotent(t, p);
    lemma_skip_ws(t, p);
}

/// Whitespace before a `@supports` condition does not change it.
pub proof fn law_support_query_leading_whitespace(t: Seq<SpecToken>, p: int)
    requires
        0 <= p <= t.len(),
    ensures
        spec_parse_support_query(t, p) == shifted(
            spec_parse_support_query(t, skip_ws(t, p)),
            ws_run(t, p),
        ),
{
    lemma_skip_ws_idempotent(t, p);
    lemma_skip_ws(t, p);
}

/// Whitespace before a page selector does not change it.
pub proof fn law_page_selector_leading_whitespace(t: Seq<SpecToken>, p: int)
    requires
        0 <= p <= t.len(),
    ensures
        spec_parse_page_selector(t, p) == shifted(
            spec_parse_page_selector(t, skip_ws(t, p)),
            ws_run(t, p),
        ),
{
    lemma_skip_ws_idempotent(t, p);
    lemma_skip_ws(t, p);
}

/// Where commas are not allowed (the queries of a comma-separated list), a
/// media query is never a comma-separated list itself.
pub proof fn law_media_query_no_comma(t: Seq<SpecToken>, p: int)
    ensures
        spec_parse_media_query(t, p, true) matches Ok((q, _)) ==> !(q is Comma),
        spec_parse_media_query_base(t, p, true) matches Ok((q, _)) ==> !(q is Comma),
    decreases t.len() - p, 1int,
{
    lemma_skip_ws(t, p);
    let p1 = skip_ws(t, p);
    if p1 > p {
        law_media_query_no_comma(t, p1);
    } else {
        lemma_media_query_base_no_comma(t, p);
    }
}

proof fn lemma_media_query_base_no_comma(t: Seq<SpecToken>, p: int)
    requires
        !is_kind(t, p, TokenKind::WhiteSpace),
    ensures
        spec_parse_media_query(t, p, true) matches Ok((q, _)) ==> !(q is Comma),
        spec_parse_media_query_base(t, p, true) matches Ok((q, _)) ==> !(q is Comma),
    decreases t.len() - p, 0int,
{
    if is_kind(t, p, TokenKind::LParen) && !is_kind(t, p + 1, TokenKind::Ident) {
        law_media_query_no_comma(t, p + 1);
    }
}

/// Token spans that run forward: each token ends where or after it starts,
/// and no later than the next token starts.
pub open spec fn spans_ordered(t: Seq<SpecToken>) -> bool {
    &&& forall|i: int| 0 <= i < t.len() ==> #[trigger] t[i].span.lo <= t[i].span.hi
    &&& forall|i: int, j: int|
        0 <= i < j < t.len() ==> #[trigger] t[i].span.hi <= #[trigger] t[j].span.lo
}

/// The span of an at-rule.
pub open spec fn at_rule_span(r: SpecAtRule) -> Span {
    match r {
        SpecAtRule::Charset { span, .. } => span,
        SpecAtRule::Import { span, .. } => span,
        SpecAtRule::Keyframes { span, .. } => span,
        SpecAtRule::FontFace { span, .. } => span,
        SpecAtRule::Supports { span, .. } => span,
        SpecAtRule::Media { span, .. } => span,
        SpecAtRule::Page(r) => r.span,
        SpecAtRule::Document(r) => r.span,
        SpecAtRule::Namespace { span, .. } => span,
        SpecAtRule::Viewport { span, .. } => span,
        SpecAtRule::Unknown { span, .. } => span,
    }
}

/// With ordered spans, the span from the start of the token at `i` to the
/// end of the last token before `q` is exactly that.
pub proof fn lemma_span_since_ordered(t: Seq<SpecToken>, i: int, q: int)
    requires
        spans_ordered(t),
        0 <= i < q <= t.len(),
    ensures
        span_since(t, t[i].span.lo, q) == (Span { lo: t[i].span.lo, hi: t[q - 1].span.hi }),
{
    if i < q - 1 {
        assert(t[i].span.hi <= t[q - 1].span.lo);
    }
    assert(t[i].span.lo <= t[i].span.hi);
    assert(t[q - 1].span.lo <= t[q - 1].span.hi);
}

/// A page block consumes at least its braces.
proof fn lemma_page_rule_block_consumes(t: Seq<SpecToken>, p: int)
    ensures
        spec_parse_page_rule_block(t, p) matches Ok((_, n)) ==> n >= 1,
{
    lemma_skip_ws(t, p + 1);
}

/// A parse of an at-rule at `p` spans from the start of its keyword to the end
/// of the last token it consumed, which it consumed at least one of.
pub open spec fn spans_its_tokens(t: Seq<SpecToken>, p: int, res: SRes<SpecAtRule>) -> bool {
    res matches Ok((r, n)) ==> n >= 1 && at_rule_span(r) == span_since(t, t[p].span.lo, p + n)
}

proof fn lemma_charset_rule_spans(t: Seq<SpecToken>, p: int)
    requires
        is_kind(t, p, TokenKind::AtKeyword),
    ensures
        spans_its_tokens(t, p, spec_parse_charset_rule(t, p)),
{
    reveal(spec_parse_charset_rule);
    lemma_skip_ws(t, p + 1);
    lemma_unknown_rule_spans(t, p, skip_ws(t, p + 1));
}

proof fn lemma_import_rule_spans(t: Seq<SpecToken>, p: int)
    requires
        is_kind(t, p, TokenKind::AtKeyword),
    ensures
        spans_its_tokens(t, p, spec_parse_import_rule(t, p)),
{
    reveal(spec_parse_import_rule);
    lemma_skip_ws(t, p + 1);
}

proof fn lemma_keyframes_rule_spans(t: Seq<SpecToken>, p: int)
    requires
        is_kind(t, p, TokenKind::AtKeyword),
    ensures
        spans_its_tokens(t, p, spec_parse_keyframes_rule(t, p)),
{
    lemma_skip_ws(t, p + 1);
    lemma_skip_ws(t, skip_ws(t, p + 1) + 1);
}

proof fn lemma_font_face_rule_spans(t: Seq<SpecToken>, p: int)
    requires
        is_kind(t, p, TokenKind::AtKeyword),
    ensures
        spans_its_tokens(t, p, spec_parse_font_face_rule(t, p)),
{
    reveal(spec_parse_font_face_rule);
    lemma_skip_ws(t, p + 1);
}

proof fn lemma_supports_rule_spans(t: Seq<SpecToken>, p: int)
    requires
        is_kind(t, p, TokenKind::AtKeyword),
    ensures
        spans_its_tokens(t, p, spec_parse_supports_rule(t, p)),
{
    reveal(spec_parse_supports_rule);
    lemma_skip_ws(t, p + 1);
}

proof fn lemma_media_rule_spans(t: Seq<SpecToken>, p: int)
    requires
        is_kind(t, p, TokenKind::AtKeyword),
    ensures
        spans_its_tokens(t, p, spec_parse_media_rule(t, p)),
{
    reveal(spec_parse_media_rule);
    lemma_skip_ws(t, p + 1);
}

proof fn lemma_namespace_rule_spans(t: Seq<SpecToken>, p: int)
    requires
        is_kind(t, p, TokenKind::AtKeyword),
    ensures
        spans_its_tokens(t, p, spec_parse_namespace_rule(t, p)),
{
    reveal(spec_parse_namespace_rule);
    lemma_skip_ws(t, p + 1);
}

proof fn lemma_viewport_rule_spans(t: Seq<SpecToken>, p: int)
    requires
        is_kind(t, p, TokenKind::AtKeyword),
    ensures
        spans_its_tokens(t, p, spec_parse_viewport_rule(t, p)),
{
    reveal(spec_parse_viewport_rule);
    lemma_skip_ws(t, p + 1);
}

proof fn lemma_unknown_rule_spans(t: Seq<SpecToken>, p: int, q: int)
    requires
        p < q,
    ensures
        spans_its_tokens(t, p, spec_parse_unknown_at_rule(t, p, q)),
{
    reveal(spec_parse_unknown_at_rule);
    lemma_skip_ws(t, q);
}

/// An at-rule that was parsed, ending within the input, spans from the start
/// of its keyword to the end of the last token it consumed (given token spans
/// that run forward). `parse_at_rule` states this of every rule it returns.
#[verifier::rlimit(40)]
pub(crate) proof fn lemma_at_rule_span(t: Seq<SpecToken>, p: int)
    requires
        spans_ordered(t),
        spec_parse_at_rule(t, p) matches Ok((_, n)) ==> p + n <= t.len(),
    ensures
        spec_parse_at_rule(t, p) matches Ok((r, n)) ==> n >= 1 && at_rule_span(r) == (Span {
            lo: t[p].span.lo,
            hi: t[p + n - 1].span.hi,
        }),
{
    if let Ok((r, n)) = spec_parse_at_rule(t, p) {
        let q1 = skip_ws(t, p + 1);
        let name = ascii_lower(t[p].value);
        lemma_skip_ws(t, p + 1);
        if !is_kind(t, p, TokenKind::AtKeyword) {
        } else if name == "charset"@ {
            lemma_charset_rule_spans(t, p);
        } else if name == "import"@ {
            lemma_import_rule_spans(t, p);
        } else if is_keyframes_name(name) {
            lemma_keyframes_rule_spans(t, p);
        } else if name == "font-face"@ {
            lemma_font_face_rule_spans(t, p);
        } else if name == "supports"@ {
            lemma_supports_rule_spans(t, p);
        } else if name == "media"@ {
            lemma_media_rule_spans(t, p);
        } else if name == "page"@ {
            reveal(spec_parse_page_at_rule);
            if let Ok((pr, k)) = spec_parse_page_rule(t, q1) {
                if let Ok((_, m)) = spec_parse_page_selector_list(t, q1) {
                    lemma_page_rule_block_consumes(t, q1 + m);
                }
                lemma_span_since_ordered(t, q1, q1 + k);
            }
        } else if name == "document"@ || name == "-moz-document"@ {
            reveal(spec_parse_document_at_rule);
            if let Ok((dr, k)) = spec_parse_document_rule(t, q1) {
                lemma_span_since_ordered(t, q1, q1 + k);
            }
        } else if name == "namespace"@ {
            lemma_namespace_rule_spans(t, p);
        } else if name == "viewport"@ || name == "-ms-viewport"@ {
            lemma_viewport_rule_spans(t, p);
        } else {
            lemma_unknown_rule_spans(t, p, p + 1);
        }
        lemma_span_since_ordered(t, p, p + n);
    }
}

/// Every block of a list of keyframe blocks has at least one selector.
pub proof fn law_keyframe_blocks_have_selectors(t: Seq<SpecToken>, p: int)
    ensures
        spec_parse_keyframe_block_list(t, p) matches Ok((bs, _)) ==> forall|i: int|
            0 <= i < bs.len() ==> (#[trigger] bs[i]).selector.len() >= 1,
    decreases t.len() - p,
{
    lemma_skip_ws(t, p);
    let q = skip_ws(t, p);
    lemma_keyframe_block_has_selectors(t, q);
    if let Ok((b, n)) = spec_parse_keyframe_block(t, q) {
        let r = skip_ws(t, q + n);
        if q < q + n <= t.len() && !is_kind(t, r, TokenKind::RBrace) {
            lemma_skip_ws(t, q + n);
            law_keyframe_blocks_have_selectors(t, r);
            if let Ok((bs, m)) = spec_parse_keyframe_block_list(t, r) {
                assert forall|i: int| 0 <= i < bs.len() + 1 implies (#[trigger] (seq![b]
                    + bs)[i]).selector.len() >= 1 by {
                    if i > 0 {
                        assert((seq![b] + bs)[i] == bs[i - 1]);
                    }
                }
            }
        }
    }
}

/// Every block of a parsed `@keyframes` rule has at least one selector.
pub proof fn law_keyframes_blocks_have_selectors(t: Seq<SpecToken>, p: int)
    ensures
        spec_parse_keyframes_rule(t, p) matches Ok((SpecAtRule::Keyframes { blocks, .. }, _))
            ==> forall|i: int|
            0 <= i < blocks.len() ==> (#[trigger] blocks[i]).selector.len() >= 1,
{
    lemma_skip_ws(t, p + 1);
    lemma_skip_ws(t, skip_ws(t, p + 1) + 1);
    law_keyframe_blocks_have_selectors(t, skip_ws(t, skip_ws(t, p + 1) + 1) + 1);
}

proof fn lemma_keyframe_block_has_selectors(t: Seq<SpecToken>, p: int)
    ensures
        spec_parse_keyframe_block(t, p) matches Ok((b, _)) ==> b.selector.len() >= 1,
{
    lemma_keyframe_selector_list_bounds(t, p);
    lemma_keyframe_selector_list_nonempty(t, p);
}

proof fn lemma_keyframe_selector_list_nonempty(t: Seq<SpecToken>, p: int)
    ensures
        crate::at_rule::spec_parse_keyframe_selector_list(t, p) matches Ok((xs, _)) ==> xs.len()
            >= 1,
{
}

/// Whether a rule parsed is an unknown one.
pub open spec fn is_unknown_rule(r: SRes<SpecAtRule>) -> bool {
    r matches Ok((SpecAtRule::Unknown { .. }, _))
}

proof fn lemma_named_rules_not_unknown(t: Seq<SpecToken>, p: int)
    ensures
        !is_unknown_rule(spec_parse_import_rule(t, p)),
        !is_unknown_rule(spec_parse_font_face_rule(t, p)),
        !is_unknown_rule(spec_parse_viewport_rule(t, p)),
        !is_unknown_rule(spec_parse_supports_rule(t, p)),
        !is_unknown_rule(spec_parse_media_rule(t, p)),
        !is_unknown_rule(spec_parse_page_at_rule(t, p)),
        !is_unknown_rule(spec_parse_document_at_rule(t, p)),
        !is_unknown_rule(spec_parse_namespace_rule(t, p)),
{
    reveal(spec_parse_import_rule);
    reveal(spec_parse_font_face_rule);
    reveal(spec_parse_viewport_rule);
    reveal(spec_parse_supports_rule);
    reveal(spec_parse_media_rule);
    reveal(spec_parse_page_at_rule);
    reveal(spec_parse_document_at_rule);
    reveal(spec_parse_namespace_rule);
}

/// At-rule names are matched without regard to ASCII case: two inputs that
/// differ only in the text of the at-keyword, whose names are equal up to
/// ASCII case, parse to the same rule, except that the name of an unknown
/// rule is the keyword's own text.
pub proof fn law_at_rule_name_case(t1: Seq<SpecToken>, t2: Seq<SpecToken>, p: int)
    requires
        agree_from(t1, t2, p + 1),
        0 <= p < t1.len(),
        ascii_lower(t1[p].value) == ascii_lower(t2[p].value),
    ensures
        spec_parse_at_rule(t2, p) == with_unknown_name(
            spec_parse_at_rule(t1, p),
            t2[p].value,
            t2[p].raw,
        ),
{
    if is_kind(t1, p, TokenKind::AtKeyword) {
        lemma_charset_rule_frame(t1, t2, p);
        lemma_unknown_at_rule_frame(t1, t2, p, p + 1);
        lemma_named_rules_frame(t1, t2, p + 1, p);
        lemma_named_rules_not_unknown(t1, p);
        lemma_keyframes_rule_frame(t1, t2, p + 1, p);
    }
}


/// In a media query `base and rest`, the right operand is exactly what `rest`
/// parses to as a media query of its own, in the same context: where commas
/// are allowed, `a and b, c` is `a` and the list `b, c`. The left operand is
/// the base, and the whole consumes through the end of `rest`; if `rest` does
/// not parse, the query fails with its error.
pub proof fn law_media_query_and_keeps_context(t: Seq<SpecToken>, p: int, no_comma: bool)
    requires
        0 <= p <= t.len(),
    ensures
        ({
            let p1 = skip_ws(t, p);
            spec_parse_media_query_base(t, p1, no_comma) matches Ok((b, n)) ==> (is_ident_named(
                t,
                skip_ws(t, p1 + n),
                "and"@,
            ) ==> match spec_parse_media_query(t, skip_ws(t, p1 + n) + 1, no_comma) {
                Ok((r, m)) => spec_parse_media_query(t, p, no_comma) matches Ok((q, k)) && q matches SpecMediaQuery::And { left, right, .. } && *left == b && *right == r && k == skip_ws(t, p1 + n) + 1 + m - p,
                Err(e) => spec_parse_media_query(t, p, no_comma) == Err::<(SpecMediaQuery, nat), crate::error::Error>(e),
            })
        }),
{
    lemma_skip_ws(t, p);
}

/// A `@supports` condition whose first token (after whitespace) is the
/// identifier `not` is always the negation of the condition that follows,
/// whatever kind that condition is, and fails exactly when that one fails.
pub proof fn law_support_query_not(t: Seq<SpecToken>, p: int)
    requires
        is_ident_named(t, skip_ws(t, p), "not"@),
    ensures
        match spec_parse_support_query(t, skip_ws(t, p) + 1) {
            Ok((c, n)) => spec_parse_support_query(t, p) matches Ok((q, k)) && q matches SpecSupportQuery::Not { query, .. } && *query == c && k == skip_ws(t, p) + 1 + n - p,
            Err(e) => spec_parse_support_query(t, p) == Err::<(SpecSupportQuery, nat), crate::error::Error>(e),
        },
{
}

/// A page selector's pseudo-class does not depend on its name: after the
/// optional name, a `:` and an identifier give that identifier as the pseudo,
/// with or without a name; without a `:` there is none. The name is the
/// leading identifier, if any.
pub proof fn law_page_selector_pseudo(t: Seq<SpecToken>, p: int)
    ensures
        ({
            let q = skip_ws(t, p);
            let q1 = if is_kind(t, q, TokenKind::Ident) {
                q + 1
            } else {
                q
            };
            &&& is_kind(t, q1, TokenKind::Colon) && is_kind(t, q1 + 1, TokenKind::Ident)
                ==> (spec_parse_page_selector(t, p) matches Ok((s, _)) && s.pseudo == Some(
                text_of(t[q1 + 1], t[q1 + 1].span),
            ))
            &&& !is_kind(t, q1, TokenKind::Colon) ==> (spec_parse_page_selector(t, p) matches Ok(
                (s, _),
            ) && s.pseudo is None)
            &&& spec_parse_page_selector(t, p) matches Ok((s, _)) ==> (s.ident is Some
                <==> is_kind(t, q, TokenKind::Ident)) && (s.ident matches Some(x) ==> x
                == text_of(t[q], t[q].span))
        }),
{
}

/// The condition of an `@import` does not depend on the kind of its source:
/// whatever the source (a string, a `url(...)` or a url token), when neither
/// `;` nor the end of the input follows it, the media query there is the
/// condition (or its error the rule's error); otherwise there is none.
pub proof fn law_import_condition(t: Seq<SpecToken>, p: int)
    requires
        is_kind(t, p, TokenKind::AtKeyword),
        ascii_lower(t[p].value) == "import"@,
    ensures
        ({
            let q1 = skip_ws(t, p + 1);
            spec_parse_import_url(t, q1) matches Ok((src, n)) ==> ({
                let q2 = skip_ws(t, q1 + n);
                if is_kind(t, q2, TokenKind::Semi) || is_eof(t, q2) {
                    spec_parse_at_rule(t, p) matches Ok((r, _)) && r matches SpecAtRule::Import {
                        src: s,
                        condition,
                        ..
                    } && s == src && condition is None
                } else {
                    match spec_parse_media_query(t, q2, false) {
                        Ok((m, _)) => spec_parse_at_rule(t, p) matches Ok((r, _)) && r matches SpecAtRule::Import { src: s, condition, .. } && s == src && condition == Some(m),
                        Err(e) => spec_parse_at_rule(t, p) == Err::<(SpecAtRule, nat), crate::error::Error>(e),
                    }
                }
            })
        }),
{
    reveal(spec_parse_import_rule);
    reveal_strlit("import");
    reveal_strlit("charset");
    assert(ascii_lower(t[p].value)[0] == 'i');
    assert("charset"@[0] == 'c');
}

/// The value of an `@namespace` that is a string is that string, whether or
/// not a prefix comes before it; a prefix, when present, is the identifier
/// after the keyword.
pub proof fn law_namespace_string_value(t: Seq<SpecToken>, p: int)
    requires
        is_kind(t, p, TokenKind::AtKeyword),
        ascii_lower(t[p].value) == "namespace"@,
    ensures
        ({
            let q1 = skip_ws(t, p + 1);
            let q2 = if is_kind(t, q1, TokenKind::Ident) {
                skip_ws(t, q1 + 1)
            } else {
                q1
            };
            is_kind(t, q2, TokenKind::Str) ==> (spec_parse_at_rule(t, p) matches Ok((r, _))
                && r matches SpecAtRule::Namespace { prefix, value, .. } && value matches SpecNamespaceValue::Str(v) && v.value == t[q2].value && v.raw == t[q2].raw && (
            is_kind(t, q1, TokenKind::Ident) ==> prefix.value == t[q1].value))
        }),
{
    reveal(spec_parse_namespace_rule);
    lemma_namespace_dispatch(ascii_lower(t[p].value));
}

/// No at-rule name the dispatch tests before `namespace` is `namespace`.
proof fn lemma_namespace_dispatch(name: Seq<char>)
    requires
        name == "namespace"@,
    ensures
        name != "charset"@,
        name != "import"@,
        !is_keyframes_name(name),
        name != "font-face"@,
        name != "supports"@,
        name != "media"@,
        name != "page"@,
        name != "document"@,
        name != "-moz-document"@,
{
    reveal_strlit("namespace");
    reveal_strlit("charset");
    reveal_strlit("import");
    reveal_strlit("keyframes");
    reveal_strlit("-moz-keyframes");
    reveal_strlit("-o-keyframes");
    reveal_strlit("-webkit-keyframes");
    reveal_strlit("-ms-keyframes");
    reveal_strlit("font-face");
    reveal_strlit("supports");
    reveal_strlit("media");
    reveal_strlit("page");
    reveal_strlit("document");
    reveal_strlit("-moz-document");
    assert(name[0] == 'n');
    assert("charset"@[0] == 'c');
    assert("import"@[0] == 'i');
    assert("keyframes"@[0] == 'k');
    assert("-moz-keyframes"@[0] == '-');
    assert("-o-keyframes"@[0] == '-');
    assert("-webkit-keyframes"@[0] == '-');
    assert("-ms-keyframes"@[0] == '-');
    assert("font-face"@[0] == 'f');
    assert("supports"@[0] == 's');
    assert("media"@[0] == 'm');
    assert("page"@[0] == 'p');
    assert("document"@[0] == 'd');
    assert("-moz-document"@[0] == '-');
}

} // verus!
