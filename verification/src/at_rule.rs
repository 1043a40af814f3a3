//! At-rules: the dispatch on the at-keyword and the rules it leads to.
use vstd::prelude::*;
use crate::ast::{
    AtRule, DocumentRule, FnValue, ImportSource, KeyframeBlock, KeyframeBlockRule, KeyframeSelector,
    MediaQuery, NamespaceValue, SpecAtRule, SpecDocumentRule, SpecFnValue, SpecImportSource,
    SpecKeyframeBlock, SpecKeyframeBlockRule, SpecKeyframeSelector, SpecNamespaceValue,
    SpecPageRule, SpecText, SpecTokens, SpecUrlValue, Text, Tokens, UrlValue,
    fn_values_view, keyframe_blocks_view, keyframe_selectors_view,
};
use crate::component::{
    brace_run, matching_brace, parse_fn_value, parse_function, parse_id, parse_percent,
    parse_rule_list, parse_simple_block, parse_str, semi_end, semi_run, spec_parse_fn_value,
    spec_parse_function, spec_parse_id, spec_parse_percent, spec_parse_rule_list,
    spec_parse_simple_block, spec_parse_str,
};
use crate::input;
use crate::laws::{at_rule_span, lemma_at_rule_span, spans_ordered};
use crate::page::parse_page_rule;
use crate::query::{parse_media_query, parse_support_query};
use crate::text::lower_is;
use crate::token::copy_tokens;
use crate::cursor::{
    SRes, advances, agrees, cur_span, eat, empty_text, error_at, is_eof, is_kind, lemma_skip_ws,
    prepend, skip_ws, span_since, text_of, tv, ws_run,
};
use crate::error::{Error, ErrorKind, Expectation};
use crate::page::spec_parse_page_rule;
use crate::query::{spec_parse_media_query, spec_parse_support_query};
use crate::text::ascii_lower;
use crate::token::{Span, SpecToken, TokenAndSpan, TokenKind};

verus! {

// ---------------------------------------------------------------------------
// Specification
// ---------------------------------------------------------------------------

/// The source of an `@import`: a string, a `url(...)` function (its name in
/// any ASCII case) or a url token.
pub open spec fn spec_parse_import_url(t: Seq<SpecToken>, p: int) -> SRes<SpecImportSource> {
    if is_kind(t, p, TokenKind::Str) {
        match spec_parse_str(t, p) {
            Ok((s, n)) => Ok((SpecImportSource::Str(s), n)),
            Err(e) => Err(e),
        }
    } else if is_eof(t, p) {
        Err(error_at(t, p, ErrorKind::Eof))
    } else if t[p].kind == TokenKind::Function && ascii_lower(t[p].value) == "url"@ {
        match spec_parse_function(t, p) {
            Ok((f, n)) => Ok((SpecImportSource::Fn(f), n)),
            Err(e) => Err(e),
        }
    } else if t[p].kind == TokenKind::Url {
        Ok(
            (
                SpecImportSource::Url(
                    SpecUrlValue { span: cur_span(t, p), url: t[p].value, raw: t[p].raw },
                ),
                1,
            ),
        )
    } else {
        Err(error_at(t, p, ErrorKind::Expected(Expectation::ImportUrl)))
    }
}

/// A keyframe selector: an identifier (`from`, `to`) or a percentage.
pub open spec fn spec_parse_keyframe_selector(t: Seq<SpecToken>, p: int) -> SRes<
    SpecKeyframeSelector,
> {
    if is_kind(t, p, TokenKind::Ident) {
        match spec_parse_id(t, p) {
            Ok((x, n)) => Ok((SpecKeyframeSelector::Id(x), n)),
            Err(e) => Err(e),
        }
    } else if is_kind(t, p, TokenKind::Percent) {
        match spec_parse_percent(t, p) {
            Ok((x, n)) => Ok((SpecKeyframeSelector::Percent(x), n)),
            Err(e) => Err(e),
        }
    } else {
        Err(error_at(t, p, ErrorKind::InvalidKeyframeSelector))
    }
}

/// After a keyframe selector: whitespace, then a `,` and whitespace (another
/// selector follows) or not (the selectors end).
pub open spec fn spec_eat_keyframe_selector_delimiter(t: Seq<SpecToken>, p: int) -> (bool, nat) {
    let c = skip_ws(t, p);
    if is_kind(t, c, TokenKind::Comma) {
        (true, ws_run(t, p) + 1 + ws_run(t, c + 1))
    } else {
        (false, ws_run(t, p))
    }
}

/// After a keyframe block: whitespace; another block follows unless a `}`
/// comes.
pub open spec fn spec_eat_keyframe_block_delimiter(t: Seq<SpecToken>, p: int) -> (bool, nat) {
    (!is_kind(t, skip_ws(t, p), TokenKind::RBrace), ws_run(t, p))
}

/// The selectors of a keyframe block, separated by commas.
pub open spec fn spec_parse_keyframe_selector_list(t: Seq<SpecToken>, p: int) -> SRes<
    Seq<SpecKeyframeSelector>,
>
    decreases t.len() - p,
{
    let q = skip_ws(t, p);
    match spec_parse_keyframe_selector(t, q) {
        Err(e) => Err(e),
        Ok((s, n)) => {
            let (more, m) = spec_eat_keyframe_selector_delimiter(t, q + n);
            let r = q + n + m;
            if more {
                proof {
                    lemma_skip_ws(t, skip_ws(t, q + n) + 1);
                }
                match spec_parse_keyframe_selector_list(t, r) {
                    Ok((xs, k)) => Ok((seq![s] + xs, (r + k - p) as nat)),
                    Err(e) => Err(e),
                }
            } else {
                Ok((seq![s], (r - p) as nat))
            }
        },
    }
}

/// An at-rule, at its at-keyword; the rule is chosen by the keyword's name
/// in ASCII lower case. (At the end of the input: the end-of-input error.)
pub open spec fn spec_parse_at_rule(t: Seq<SpecToken>, p: int) -> SRes<SpecAtRule>
    decreases t.len() - p, 1int,
{
    if !is_kind(t, p, TokenKind::AtKeyword) {
        Err(error_at(t, p, ErrorKind::Eof))
    } else {
        let name = ascii_lower(t[p].value);
        if name == "charset"@ {
            spec_parse_charset_rule(t, p)
        } else if name == "import"@ {
            spec_parse_import_rule(t, p)
        } else if is_keyframes_name(name) {
            spec_parse_keyframes_rule(t, p)
        } else if name == "font-face"@ {
            spec_parse_font_face_rule(t, p)
        } else if name == "supports"@ {
            spec_parse_supports_rule(t, p)
        } else if name == "media"@ {
            spec_parse_media_rule(t, p)
        } else if name == "page"@ {
            spec_parse_page_at_rule(t, p)
        } else if name == "document"@ || name == "-moz-document"@ {
            spec_parse_document_at_rule(t, p)
        } else if name == "namespace"@ {
            spec_parse_namespace_rule(t, p)
        } else if name == "viewport"@ || name == "-ms-viewport"@ {
            spec_parse_viewport_rule(t, p)
        } else {
            spec_parse_unknown_at_rule(t, p, p + 1)
        }
    }
}

/// The names of `@keyframes`, with the vendor prefixes it is known by.
pub open spec fn is_keyframes_name(name: Seq<char>) -> bool {
    name == "keyframes"@ || name == "-moz-keyframes"@ || name == "-o-keyframes"@ || name
        == "-webkit-keyframes"@ || name == "-ms-keyframes"@
}

/// `@charset "..." ;?`; without a string it is read as an unknown at-rule
/// from the token after the whitespace.
#[verifier::opaque]
pub open spec fn spec_parse_charset_rule(t: Seq<SpecToken>, p: int) -> SRes<SpecAtRule> {
    let start = t[p].span.lo;
    let q1 = skip_ws(t, p + 1);
    if is_kind(t, q1, TokenKind::Str) {
        let q2 = eat(t, q1 + 1, TokenKind::Semi);
        Ok(
            (
                SpecAtRule::Charset {
                    span: span_since(t, start, q2),
                    charset: text_of(t[q1], t[q1].span),
                },
                (q2 - p) as nat,
            ),
        )
    } else {
        spec_parse_unknown_at_rule(t, p, q1)
    }
}

/// `@import source condition? ;?`, the condition being a media query.
#[verifier::opaque]
pub open spec fn spec_parse_import_rule(t: Seq<SpecToken>, p: int) -> SRes<SpecAtRule> {
    let start = t[p].span.lo;
    let q1 = skip_ws(t, p + 1);
    match spec_parse_import_url(t, q1) {
        Err(e) => Err(e),
        Ok((src, n)) => {
            let q2 = skip_ws(t, q1 + n);
            if is_kind(t, q2, TokenKind::Semi) || is_eof(t, q2) {
                let q3 = eat(t, q2, TokenKind::Semi);
                Ok(
                    (
                        SpecAtRule::Import { span: span_since(t, start, q3), src, condition: None },
                        (q3 - p) as nat,
                    ),
                )
            } else {
                match spec_parse_media_query(t, q2, false) {
                    Err(e) => Err(e),
                    Ok((c, m)) => {
                        let q3 = eat(t, q2 + m, TokenKind::Semi);
                        Ok(
                            (
                                SpecAtRule::Import {
                                    span: span_since(t, start, q3),
                                    src,
                                    condition: Some(c),
                                },
                                (q3 - p) as nat,
                            ),
                        )
                    },
                }
            }
        },
    }
}

/// `@keyframes name { blocks }`. The token after the keyword is the name when
/// it is an identifier or a string, and is skipped otherwise (leaving the name
/// empty); without a `{` after it the rule has no blocks.
pub open spec fn spec_parse_keyframes_rule(t: Seq<SpecToken>, p: int) -> SRes<SpecAtRule>
    decreases t.len() - p, 0int,
{
    let start = t[p].span.lo;
    let q1 = skip_ws(t, p + 1);
    if is_eof(t, q1) {
        Err(error_at(t, q1, ErrorKind::Eof))
    } else {
        let id = if t[q1].kind == TokenKind::Ident || t[q1].kind == TokenKind::Str {
            text_of(t[q1], span_since(t, t[q1].span.lo, q1 + 1))
        } else {
            empty_text()
        };
        let q2 = skip_ws(t, q1 + 1);
        if is_kind(t, q2, TokenKind::LBrace) {
            match spec_parse_keyframe_block_list(t, q2 + 1) {
                Err(e) => Err(e),
                Ok((blocks, n)) => {
                    let q3 = q2 + 1 + n;
                    if is_kind(t, q3, TokenKind::RBrace) {
                        Ok(
                            (
                                SpecAtRule::Keyframes { span: span_since(t, start, q3 + 1), id, blocks },
                                (q3 + 1 - p) as nat,
                            ),
                        )
                    } else {
                        Err(error_at(t, q3, ErrorKind::Expected(Expectation::RBrace)))
                    }
                },
            }
        } else {
            Ok(
                (
                    SpecAtRule::Keyframes { span: span_since(t, start, q2), id, blocks: seq![] },
                    (q2 - p) as nat,
                ),
            )
        }
    }
}

/// The blocks of `@keyframes`, each after optional whitespace, up to the `}`
/// or the end of the input.
pub open spec fn spec_parse_keyframe_block_list(t: Seq<SpecToken>, p: int) -> SRes<
    Seq<SpecKeyframeBlock>,
>
    decreases t.len() - p, 4int,
{
    let q = skip_ws(t, p);
    if is_eof(t, q) || is_kind(t, q, TokenKind::RBrace) {
        Ok((seq![], ws_run(t, p)))
    } else {
        match spec_parse_keyframe_block(t, q) {
            Err(e) => Err(e),
            Ok((b, n)) => {
                let (more, m) = spec_eat_keyframe_block_delimiter(t, q + n);
                let r = q + n + m;
                if !more || !(q < q + n <= t.len()) {
                    // A parsed block always consumes a token and ends within the input (see
                    // `parse_keyframe_block`), so the list only ends where no block follows.
                    Ok((seq![b], (r - p) as nat))
                } else {
                    proof {
                        lemma_skip_ws(t, q + n);
                    }
                    match spec_parse_keyframe_block_list(t, r) {
                        Ok((bs, k)) => Ok((seq![b] + bs, (r + k - p) as nat)),
                        Err(e) => Err(e),
                    }
                }
            },
        }
    }
}

/// A keyframe block: its selectors, then its rule.
pub open spec fn spec_parse_keyframe_block(t: Seq<SpecToken>, p: int) -> SRes<SpecKeyframeBlock>
    decreases t.len() - p, 3int,
{
    let start = cur_span(t, p).lo;
    match spec_parse_keyframe_selector_list(t, p) {
        Err(e) => Err(e),
        Ok((selector, n)) => {
            proof {
                lemma_keyframe_selector_list_bounds(t, p);
            }
            match spec_parse_keyframe_block_rule(t, p + n) {
                Err(e) => Err(e),
                Ok((rule, m)) => Ok(
                    (SpecKeyframeBlock { span: span_since(t, start, p + n + m), selector, rule }, n + m),
                ),
            }
        },
    }
}

/// The rule of a keyframe block: a nested at-rule at an at-keyword, else a
/// `{ ... }` block.
pub open spec fn spec_parse_keyframe_block_rule(t: Seq<SpecToken>, p: int) -> SRes<
    SpecKeyframeBlockRule,
>
    decreases t.len() - p, 2int,
{
    if is_kind(t, p, TokenKind::AtKeyword) {
        match spec_parse_at_rule(t, p) {
            Ok((r, n)) => Ok((SpecKeyframeBlockRule::AtRule(Box::new(r)), n)),
            Err(e) => Err(e),
        }
    } else {
        match spec_parse_simple_block(t, p) {
            Ok((b, n)) => Ok((SpecKeyframeBlockRule::Block(b), n)),
            Err(e) => Err(e),
        }
    }
}

/// `@font-face { ... }`.
#[verifier::opaque]
pub open spec fn spec_parse_font_face_rule(t: Seq<SpecToken>, p: int) -> SRes<SpecAtRule> {
    let start = t[p].span.lo;
    let q1 = skip_ws(t, p + 1);
    match spec_parse_simple_block(t, q1) {
        Ok((block, n)) => Ok(
            (SpecAtRule::FontFace { span: span_since(t, start, q1 + n), block }, (q1 + n - p) as nat),
        ),
        Err(e) => Err(e),
    }
}

/// `@viewport { ... }`.
#[verifier::opaque]
pub open spec fn spec_parse_viewport_rule(t: Seq<SpecToken>, p: int) -> SRes<SpecAtRule> {
    let start = t[p].span.lo;
    let q1 = skip_ws(t, p + 1);
    match spec_parse_simple_block(t, q1) {
        Ok((block, n)) => Ok(
            (SpecAtRule::Viewport { span: span_since(t, start, q1 + n), block }, (q1 + n - p) as nat),
        ),
        Err(e) => Err(e),
    }
}

/// `@supports condition { rules }`.
#[verifier::opaque]
pub open spec fn spec_parse_supports_rule(t: Seq<SpecToken>, p: int) -> SRes<SpecAtRule> {
    let start = t[p].span.lo;
    let q1 = skip_ws(t, p + 1);
    match spec_parse_support_query(t, q1) {
        Err(e) => Err(e),
        Ok((query, n)) => {
            let q2 = q1 + n;
            if !is_kind(t, q2, TokenKind::LBrace) {
                Err(error_at(t, q2, ErrorKind::Expected(Expectation::LBrace)))
            } else {
                let (rules, m) = spec_parse_rule_list(t, q2 + 1);
                let q3 = q2 + 1 + m;
                if is_kind(t, q3, TokenKind::RBrace) {
                    Ok(
                        (
                            SpecAtRule::Supports { span: span_since(t, start, q3 + 1), query, rules },
                            (q3 + 1 - p) as nat,
                        ),
                    )
                } else {
                    Err(error_at(t, q3, ErrorKind::Expected(Expectation::RBrace)))
                }
            }
        },
    }
}

/// `@media query { rules }`.
#[verifier::opaque]
pub open spec fn spec_parse_media_rule(t: Seq<SpecToken>, p: int) -> SRes<SpecAtRule> {
    let start = t[p].span.lo;
    let q1 = skip_ws(t, p + 1);
    match spec_parse_media_query(t, q1, false) {
        Err(e) => Err(e),
        Ok((query, n)) => {
            let q2 = q1 + n;
            if !is_kind(t, q2, TokenKind::LBrace) {
                Err(error_at(t, q2, ErrorKind::Expected(Expectation::LBrace)))
            } else {
                let (rules, m) = spec_parse_rule_list(t, q2 + 1);
                let q3 = q2 + 1 + m;
                if is_kind(t, q3, TokenKind::RBrace) {
                    Ok(
                        (
                            SpecAtRule::Media { span: span_since(t, start, q3 + 1), query, rules },
                            (q3 + 1 - p) as nat,
                        ),
                    )
                } else {
                    Err(error_at(t, q3, ErrorKind::Expected(Expectation::RBrace)))
                }
            }
        },
    }
}

/// `@page ...`: a page rule whose span starts at the keyword.
#[verifier::opaque]
pub open spec fn spec_parse_page_at_rule(t: Seq<SpecToken>, p: int) -> SRes<SpecAtRule> {
    let start = t[p].span.lo;
    let q1 = skip_ws(t, p + 1);
    match spec_parse_page_rule(t, q1) {
        Ok((r, n)) => Ok(
            (
                SpecAtRule::Page(
                    SpecPageRule {
                        span: Span { lo: start, hi: r.span.hi },
                        prelude: r.prelude,
                        block: r.block,
                    },
                ),
                (q1 + n - p) as nat,
            ),
        ),
        Err(e) => Err(e),
    }
}

/// `@document ...`: a document rule whose span starts at the keyword.
#[verifier::opaque]
pub open spec fn spec_parse_document_at_rule(t: Seq<SpecToken>, p: int) -> SRes<SpecAtRule> {
    let start = t[p].span.lo;
    let q1 = skip_ws(t, p + 1);
    match spec_parse_document_rule(t, q1) {
        Ok((r, n)) => Ok(
            (
                SpecAtRule::Document(
                    SpecDocumentRule {
                        span: Span { lo: start, hi: r.span.hi },
                        selectors: r.selectors,
                        block: r.block,
                    },
                ),
                (q1 + n - p) as nat,
            ),
        ),
        Err(e) => Err(e),
    }
}

/// `@namespace prefix? value ;?`. The token after the optional prefix is the
/// value when it is a string or a url, and is skipped otherwise (leaving an
/// empty string).
#[verifier::opaque]
pub open spec fn spec_parse_namespace_rule(t: Seq<SpecToken>, p: int) -> SRes<SpecAtRule> {
    let start = t[p].span.lo;
    let q1 = skip_ws(t, p + 1);
    let prefix = if is_kind(t, q1, TokenKind::Ident) {
        text_of(t[q1], span_since(t, t[q1].span.lo, q1 + 1))
    } else {
        empty_text()
    };
    let q2 = if is_kind(t, q1, TokenKind::Ident) {
        skip_ws(t, q1 + 1)
    } else {
        q1
    };
    if is_eof(t, q2) {
        Err(error_at(t, q2, ErrorKind::Eof))
    } else {
        let vspan = span_since(t, t[q2].span.lo, q2 + 1);
        let value = if t[q2].kind == TokenKind::Str {
            SpecNamespaceValue::Str(text_of(t[q2], vspan))
        } else if t[q2].kind == TokenKind::Url {
            SpecNamespaceValue::Url(SpecUrlValue { span: vspan, url: t[q2].value, raw: t[q2].raw })
        } else {
            SpecNamespaceValue::Str(SpecText { span: vspan, value: Seq::empty(), raw: Seq::empty() })
        };
        let q3 = eat(t, q2 + 1, TokenKind::Semi);
        Ok((SpecAtRule::Namespace { span: span_since(t, start, q3), prefix, value }, (q3 - p) as nat))
    }
}

/// An at-rule of any other name, its keyword at `p` and its prelude read from
/// `q` on: after whitespace either a `{ ... }` block (to its matching `}` or
/// the end of the input), or every token up to a `;` (consumed) or the end of
/// the input, which must be followed by another `;` or the end of the input.
#[verifier::opaque]
pub open spec fn spec_parse_unknown_at_rule(t: Seq<SpecToken>, p: int, q: int) -> SRes<SpecAtRule> {
    let start = t[p].span.lo;
    let name = text_of(t[p], span_since(t, start, q));
    let q1 = skip_ws(t, q);
    let token_start = cur_span(t, q1).lo;
    if is_kind(t, q1, TokenKind::LBrace) {
        let close = q1 + 1 + brace_run(t, q1 + 1, 0);
        let r = if close < t.len() {
            close + 1
        } else {
            close
        };
        Ok(
            (
                SpecAtRule::Unknown {
                    span: span_since(t, start, r),
                    name,
                    tokens: SpecTokens {
                        span: span_since(t, token_start, r),
                        tokens: t.subrange(q1, r),
                    },
                },
                (r - p) as nat,
            ),
        )
    } else {
        let s = q1 + semi_run(t, q1);
        let r = if s < t.len() {
            s + 1
        } else {
            s
        };
        if is_eof(t, r) || is_kind(t, r, TokenKind::Semi) {
            Ok(
                (
                    SpecAtRule::Unknown {
                        span: span_since(t, start, r),
                        name,
                        tokens: SpecTokens {
                            span: span_since(t, token_start, r),
                            tokens: t.subrange(q1, s),
                        },
                    },
                    (r - p) as nat,
                ),
            )
        } else {
            Err(Error { span: span_since(t, start, r), kind: ErrorKind::UnknownAtRuleNotTerminated })
        }
    }
}

/// `matchers { rules }` of `@document`.
pub open spec fn spec_parse_document_rule(t: Seq<SpecToken>, p: int) -> SRes<SpecDocumentRule> {
    let start = cur_span(t, p).lo;
    match spec_parse_document_selectors(t, p) {
        Err(e) => Err(e),
        Ok((selectors, n)) => {
            let q = p + n;
            if !is_kind(t, q, TokenKind::LBrace) {
                Err(error_at(t, q, ErrorKind::Expected(Expectation::LBrace)))
            } else {
                let (block, m) = spec_parse_rule_list(t, q + 1);
                let r = q + 1 + m;
                if is_kind(t, r, TokenKind::RBrace) {
                    Ok(
                        (
                            SpecDocumentRule { span: span_since(t, start, r + 1), selectors, block },
                            (r + 1 - p) as nat,
                        ),
                    )
                } else {
                    Err(error_at(t, r, ErrorKind::Expected(Expectation::RBrace)))
                }
            }
        },
    }
}

/// The matchers of `@document`: a matcher, then, while a `,` follows the
/// whitespace after it, another matcher read at that `,`.
pub open spec fn spec_parse_document_selectors(t: Seq<SpecToken>, p: int) -> SRes<
    Seq<SpecFnValue>,
>
    decreases t.len() - p,
{
    match spec_parse_fn_value(t, p) {
        Err(e) => Err(e),
        Ok((v, n)) => {
            proof {
                lemma_fn_value_consumes(t, p);
            }
            let q = skip_ws(t, p + n);
            if is_kind(t, q, TokenKind::Comma) {
                match spec_parse_document_selectors(t, q) {
                    Ok((vs, m)) => Ok((seq![v] + vs, (q + m - p) as nat)),
                    Err(e) => Err(e),
                }
            } else {
                Ok((seq![v], (q - p) as nat))
            }
        },
    }
}

// ---------------------------------------------------------------------------
// Facts the definitions rely on
// ---------------------------------------------------------------------------

/// A document matcher consumes at least one token.
pub proof fn lemma_fn_value_consumes(t: Seq<SpecToken>, p: int)
    ensures
        spec_parse_fn_value(t, p) matches Ok((_, n)) ==> n >= 1,
{
}

/// The selectors of a keyframe block consume at least one token and end
/// within the input.
pub proof fn lemma_keyframe_selector_list_bounds(t: Seq<SpecToken>, p: int)
    ensures
        spec_parse_keyframe_selector_list(t, p) matches Ok((_, n)) ==> n >= 1 && p + n <= t.len(),
    decreases t.len() - p,
{
    lemma_skip_ws(t, p);
    let q = skip_ws(t, p);
    if let Ok((s, n)) = spec_parse_keyframe_selector(t, q) {
        let c = skip_ws(t, q + n);
        lemma_skip_ws(t, q + n);
        if is_kind(t, c, TokenKind::Comma) {
            lemma_skip_ws(t, c + 1);
            let r = skip_ws(t, c + 1);
            lemma_keyframe_selector_list_bounds(t, r);
        }
    }
}

} // verus!

verus! {

// ---------------------------------------------------------------------------
// Executable parsers
// ---------------------------------------------------------------------------

/// Viewing a list of keyframe blocks extended by one extends its view.
pub proof fn lemma_keyframe_blocks_view_push(s: Seq<KeyframeBlock>, b: KeyframeBlock)
    ensures
        keyframe_blocks_view(s.push(b)) == keyframe_blocks_view(s).push(b@),
{
    assert(s.push(b).drop_last() =~= s);
}

/// Parses the source of an `@import` at `pos`.
pub fn parse_import_url(input: &Vec<TokenAndSpan>, pos: usize) -> (res: Result<
    (ImportSource, usize),
    Error,
>)
    requires
        pos <= input.len(),
    ensures
        agrees(res, pos, spec_parse_import_url(tv(input), pos as int)),
        advances(res, pos, input.len()),
{
    if input::kind_is(input, pos, TokenKind::Str) {
        match parse_str(input, pos) {
            Ok((s, e)) => Ok((ImportSource::Str(s), e)),
            Err(er) => Err(er),
        }
    } else if pos >= input.len() {
        Err(input::error_at(input, pos, ErrorKind::Eof))
    } else if input[pos].token.kind == TokenKind::Function && lower_is(
        &input[pos].token.value,
        "url",
    ) {
        match parse_function(input, pos) {
            Ok((f, e)) => Ok((ImportSource::Fn(f), e)),
            Err(er) => Err(er),
        }
    } else if input[pos].token.kind == TokenKind::Url {
        let url = UrlValue {
            span: input::cur_span(input, pos),
            url: input[pos].token.value.clone(),
            raw: input[pos].token.raw.clone(),
        };
        Ok((ImportSource::Url(url), pos + 1))
    } else {
        Err(input::error_at(input, pos, ErrorKind::Expected(Expectation::ImportUrl)))
    }
}

/// Parses a keyframe selector at `pos`.
pub fn parse_keyframe_selector(input: &Vec<TokenAndSpan>, pos: usize) -> (res: Result<
    (KeyframeSelector, usize),
    Error,
>)
    requires
        pos <= input.len(),
    ensures
        agrees(res, pos, spec_parse_keyframe_selector(tv(input), pos as int)),
        advances(res, pos, input.len()),
{
    if input::kind_is(input, pos, TokenKind::Ident) {
        match parse_id(input, pos) {
            Ok((x, e)) => Ok((KeyframeSelector::Id(x), e)),
            Err(er) => Err(er),
        }
    } else if input::kind_is(input, pos, TokenKind::Percent) {
        match parse_percent(input, pos) {
            Ok((x, e)) => Ok((KeyframeSelector::Percent(x), e)),
            Err(er) => Err(er),
        }
    } else {
        Err(input::error_at(input, pos, ErrorKind::InvalidKeyframeSelector))
    }
}

/// After a keyframe selector at `pos`: whether a `,` (with whitespace around
/// it) follows, and the position after what was eaten.
pub fn eat_keyframe_selector_delimiter(input: &Vec<TokenAndSpan>, pos: usize) -> (r: (bool, usize))
    requires
        pos <= input.len(),
    ensures
        spec_eat_keyframe_selector_delimiter(tv(input), pos as int) == (r.0, (r.1 - pos) as nat),
        pos <= r.1 <= input.len(),
        r.0 ==> pos < r.1,
{
    let c = input::skip_ws(input, pos);
    if input::kind_is(input, c, TokenKind::Comma) {
        (true, input::skip_ws(input, c + 1))
    } else {
        (false, c)
    }
}

/// After a keyframe block at `pos`: whether another block follows (no `}`
/// after the whitespace), and the position after the whitespace.
pub fn eat_keyframe_block_delimiter(input: &Vec<TokenAndSpan>, pos: usize) -> (r: (bool, usize))
    requires
        pos <= input.len(),
    ensures
        spec_eat_keyframe_block_delimiter(tv(input), pos as int) == (r.0, (r.1 - pos) as nat),
        pos <= r.1 <= input.len(),
{
    let c = input::skip_ws(input, pos);
    (!input::kind_is(input, c, TokenKind::RBrace), c)
}

fn parse_keyframe_selector_list(input: &Vec<TokenAndSpan>, pos: usize) -> (res: Result<
    (Vec<KeyframeSelector>, usize),
    Error,
>)
    requires
        pos <= input.len(),
    ensures
        match res {
            Ok((v, q)) => pos < q <= input.len() && spec_parse_keyframe_selector_list(
                tv(input),
                pos as int,
            ) == Ok::<(Seq<SpecKeyframeSelector>, nat), Error>(
                (keyframe_selectors_view(v@), (q - pos) as nat),
            ),
            Err(e) => spec_parse_keyframe_selector_list(tv(input), pos as int) == Err::<
                (Seq<SpecKeyframeSelector>, nat),
                Error,
            >(e),
        },
{
    let ghost t = tv(input);
    let mut items: Vec<KeyframeSelector> = Vec::new();
    let mut i = pos;
    proof {
        match spec_parse_keyframe_selector_list(t, pos as int) {
            Ok((xs, m)) => {
                assert(keyframe_selectors_view(items@) + xs =~= xs);
            },
            Err(_) => {},
        }
    }
    loop
        invariant
            pos <= i <= input.len(),
            t == tv(input),
            spec_parse_keyframe_selector_list(t, pos as int) == prepend(
                keyframe_selectors_view(items@),
                pos as int,
                i as int,
                spec_parse_keyframe_selector_list(t, i as int),
            ),
        decreases input.len() - i,
    {
        let q = input::skip_ws(input, i);
        let (x, e) = match parse_keyframe_selector(input, q) {
            Ok(v) => v,
            Err(er) => return Err(er),
        };
        let ghost before = items@;
        items.push(x);
        proof {
            assert(keyframe_selectors_view(items@) =~= keyframe_selectors_view(before).push(x@));
        }
        let (more, r) = eat_keyframe_selector_delimiter(input, e);
        if more {
            proof {
                match spec_parse_keyframe_selector_list(t, r as int) {
                    Ok((xs, m)) => {
                        assert(keyframe_selectors_view(before) + (seq![x@] + xs)
                            =~= keyframe_selectors_view(items@) + xs);
                    },
                    Err(_) => {},
                }
            }
            i = r;
        } else {
            assert(keyframe_selectors_view(before) + seq![x@] =~= keyframe_selectors_view(items@));
            return Ok((items, r));
        }
    }
}

/// Parses an at-rule at `pos`, which holds an at-keyword or is the end of the
/// input.
pub fn parse_at_rule(input: &Vec<TokenAndSpan>, pos: usize) -> (res: Result<(AtRule, usize), Error>)
    requires
        pos <= input.len(),
        is_eof(tv(input), pos as int) || is_kind(tv(input), pos as int, TokenKind::AtKeyword),
    ensures
        agrees(res, pos, spec_parse_at_rule(tv(input), pos as int)),
        advances(res, pos, input.len()),
        spans_ordered(tv(input)) ==> (res matches Ok((r, q)) ==> at_rule_span(r@) == (Span {
            lo: input@[pos as int].span.lo,
            hi: input@[q - 1].span.hi,
        })),
    decreases input.len() - pos, 1int,
{
    if pos >= input.len() {
        return Err(input::error_at(input, pos, ErrorKind::Eof));
    }
    let name = &input[pos].token.value;
    let res = if lower_is(name, "charset") {
        parse_charset_rule(input, pos)
    } else if lower_is(name, "import") {
        parse_import_rule(input, pos)
    } else if lower_is(name, "keyframes") || lower_is(name, "-moz-keyframes") || lower_is(
        name,
        "-o-keyframes",
    ) || lower_is(name, "-webkit-keyframes") || lower_is(name, "-ms-keyframes") {
        parse_keyframes_rule(input, pos)
    } else if lower_is(name, "font-face") {
        parse_font_face_rule(input, pos)
    } else if lower_is(name, "supports") {
        parse_supports_rule(input, pos)
    } else if lower_is(name, "media") {
        parse_media_rule(input, pos)
    } else if lower_is(name, "page") {
        parse_page_at_rule(input, pos)
    } else if lower_is(name, "document") || lower_is(name, "-moz-document") {
        parse_document_at_rule(input, pos)
    } else if lower_is(name, "namespace") {
        parse_namespace_rule(input, pos)
    } else if lower_is(name, "viewport") || lower_is(name, "-ms-viewport") {
        parse_viewport_rule(input, pos)
    } else {
        parse_unknown_at_rule(input, pos, pos + 1)
    };
    proof {
        if spans_ordered(tv(input)) {
            lemma_at_rule_span(tv(input), pos as int);
        }
    }
    res
}

fn parse_charset_rule(input: &Vec<TokenAndSpan>, pos: usize) -> (res: Result<(AtRule, usize), Error>)
    requires
        pos < input.len(),
    ensures
        agrees(res, pos, spec_parse_charset_rule(tv(input), pos as int)),
        advances(res, pos, input.len()),
{
    reveal(spec_parse_charset_rule);
    let start = input[pos].span.lo;
    let q1 = input::skip_ws(input, pos + 1);
    if input::kind_is(input, q1, TokenKind::Str) {
        let charset = input::text_of(input, q1, input[q1].span);
        let q2 = input::eat(input, q1 + 1, TokenKind::Semi);
        Ok((AtRule::Charset { span: input::span_since(input, start, q2), charset }, q2))
    } else {
        parse_unknown_at_rule(input, pos, q1)
    }
}

fn parse_import_rule(input: &Vec<TokenAndSpan>, pos: usize) -> (res: Result<(AtRule, usize), Error>)
    requires
        pos < input.len(),
    ensures
        agrees(res, pos, spec_parse_import_rule(tv(input), pos as int)),
        advances(res, pos, input.len()),
{
    reveal(spec_parse_import_rule);
    let start = input[pos].span.lo;
    let q1 = input::skip_ws(input, pos + 1);
    let (src, e) = match parse_import_url(input, q1) {
        Ok(v) => v,
        Err(er) => return Err(er),
    };
    let q2 = input::skip_ws(input, e);
    let (condition, e2): (Option<MediaQuery>, usize) = if input::kind_is(
        input,
        q2,
        TokenKind::Semi,
    ) || q2 >= input.len() {
        (None, q2)
    } else {
        match parse_media_query(input, q2, false) {
            Ok((c, e2)) => (Some(c), e2),
            Err(er) => return Err(er),
        }
    };
    let q3 = input::eat(input, e2, TokenKind::Semi);
    Ok((AtRule::Import { span: input::span_since(input, start, q3), src, condition }, q3))
}

#[verifier::rlimit(60)]
fn parse_keyframes_rule(input: &Vec<TokenAndSpan>, pos: usize) -> (res: Result<(AtRule, usize), Error>)
    requires
        pos < input.len(),
    ensures
        agrees(res, pos, spec_parse_keyframes_rule(tv(input), pos as int)),
        advances(res, pos, input.len()),
    decreases input.len() - pos, 0int,
{
    let start = input[pos].span.lo;
    let q1 = input::skip_ws(input, pos + 1);
    if q1 >= input.len() {
        return Err(input::error_at(input, q1, ErrorKind::Eof));
    }
    let k = input[q1].token.kind;
    let id = if k == TokenKind::Ident || k == TokenKind::Str {
        let span = input::span_since(input, input[q1].span.lo, q1 + 1);
        input::text_of(input, q1, span)
    } else {
        input::empty_text()
    };
    let q2 = input::skip_ws(input, q1 + 1);
    if input::kind_is(input, q2, TokenKind::LBrace) {
        let (blocks, q3) = match parse_keyframe_block_list(input, q2 + 1) {
            Ok(v) => v,
            Err(er) => return Err(er),
        };
        if input::kind_is(input, q3, TokenKind::RBrace) {
            Ok((AtRule::Keyframes { span: input::span_since(input, start, q3 + 1), id, blocks }, q3 + 1))
        } else {
            Err(input::error_at(input, q3, ErrorKind::Expected(Expectation::RBrace)))
        }
    } else {
        let rule = AtRule::Keyframes {
            span: input::span_since(input, start, q2),
            id,
            blocks: Vec::new(),
        };
        assert(keyframe_blocks_view(Seq::<KeyframeBlock>::empty()) =~= seq![]);
        Ok((rule, q2))
    }
}

#[verifier::rlimit(60)]
fn parse_keyframe_block_list(input: &Vec<TokenAndSpan>, pos: usize) -> (res: Result<
    (Vec<KeyframeBlock>, usize),
    Error,
>)
    requires
        pos <= input.len(),
    ensures
        match res {
            Ok((v, q)) => pos <= q <= input.len() && spec_parse_keyframe_block_list(
                tv(input),
                pos as int,
            ) == Ok::<(Seq<SpecKeyframeBlock>, nat), Error>(
                (keyframe_blocks_view(v@), (q - pos) as nat),
            ),
            Err(e) => spec_parse_keyframe_block_list(tv(input), pos as int) == Err::<
                (Seq<SpecKeyframeBlock>, nat),
                Error,
            >(e),
        },
    decreases input.len() - pos, 4int,
{
    let ghost t = tv(input);
    let mut items: Vec<KeyframeBlock> = Vec::new();
    let mut i = pos;
    proof {
        assert(keyframe_blocks_view(items@) =~= Seq::<SpecKeyframeBlock>::empty());
        match spec_parse_keyframe_block_list(t, pos as int) {
            Ok((xs, m)) => {
                assert(keyframe_blocks_view(items@) + xs =~= xs);
            },
            Err(_) => {},
        }
    }
    loop
        invariant
            pos <= i <= input.len(),
            t == tv(input),
            spec_parse_keyframe_block_list(t, pos as int) == prepend(
                keyframe_blocks_view(items@),
                pos as int,
                i as int,
                spec_parse_keyframe_block_list(t, i as int),
            ),
        decreases input.len() - i,
    {
        let q = input::skip_ws(input, i);
        if q >= input.len() || input::kind_is(input, q, TokenKind::RBrace) {
            assert(keyframe_blocks_view(items@) + seq![] =~= keyframe_blocks_view(items@));
            return Ok((items, q));
        }
        let (b, e) = match parse_keyframe_block(input, q) {
            Ok(v) => v,
            Err(er) => return Err(er),
        };
        let ghost before = items@;
        let ghost bv = b@;
        proof {
            lemma_keyframe_blocks_view_push(before, b);
        }
        items.push(b);
        let (more, r) = eat_keyframe_block_delimiter(input, e);
        if !more {
            assert(keyframe_blocks_view(before) + seq![bv] =~= keyframe_blocks_view(items@));
            return Ok((items, r));
        }
        proof {
            match spec_parse_keyframe_block_list(t, r as int) {
                Ok((xs, m)) => {
                    assert(keyframe_blocks_view(before) + (seq![bv] + xs) =~= keyframe_blocks_view(
                        items@,
                    ) + xs);
                },
                Err(_) => {},
            }
        }
        i = r;
    }
}

/// Parses a keyframe block at `pos`: its selectors, then its rule.
#[verifier::rlimit(60)]
pub fn parse_keyframe_block(input: &Vec<TokenAndSpan>, pos: usize) -> (res: Result<
    (KeyframeBlock, usize),
    Error,
>)
    requires
        pos <= input.len(),
    ensures
        agrees(res, pos, spec_parse_keyframe_block(tv(input), pos as int)),
        advances(res, pos, input.len()),
    decreases input.len() - pos, 3int,
{
    let start = input::cur_span(input, pos).lo;
    let (selector, e) = match parse_keyframe_selector_list(input, pos) {
        Ok(v) => v,
        Err(er) => return Err(er),
    };
    match parse_keyframe_block_rule(input, e) {
        Err(er) => Err(er),
        Ok((rule, e2)) => Ok(
            (KeyframeBlock { span: input::span_since(input, start, e2), selector, rule }, e2),
        ),
    }
}

/// Parses the rule of a keyframe block at `pos`: a nested at-rule at an
/// at-keyword, else a `{ ... }` block.
pub fn parse_keyframe_block_rule(input: &Vec<TokenAndSpan>, pos: usize) -> (res: Result<
    (KeyframeBlockRule, usize),
    Error,
>)
    requires
        pos <= input.len(),
    ensures
        agrees(res, pos, spec_parse_keyframe_block_rule(tv(input), pos as int)),
        advances(res, pos, input.len()),
    decreases input.len() - pos, 2int,
{
    if input::kind_is(input, pos, TokenKind::AtKeyword) {
        match parse_at_rule(input, pos) {
            Ok((r, e)) => Ok((KeyframeBlockRule::AtRule(Box::new(r)), e)),
            Err(er) => Err(er),
        }
    } else {
        match parse_simple_block(input, pos) {
            Ok((b, e)) => Ok((KeyframeBlockRule::Block(Box::new(b)), e)),
            Err(er) => Err(er),
        }
    }
}

fn parse_font_face_rule(input: &Vec<TokenAndSpan>, pos: usize) -> (res: Result<(AtRule, usize), Error>)
    requires
        pos < input.len(),
    ensures
        agrees(res, pos, spec_parse_font_face_rule(tv(input), pos as int)),
        advances(res, pos, input.len()),
{
    reveal(spec_parse_font_face_rule);
    let start = input[pos].span.lo;
    let q1 = input::skip_ws(input, pos + 1);
    match parse_simple_block(input, q1) {
        Ok((block, e)) => Ok((AtRule::FontFace { span: input::span_since(input, start, e), block }, e)),
        Err(er) => Err(er),
    }
}

fn parse_viewport_rule(input: &Vec<TokenAndSpan>, pos: usize) -> (res: Result<(AtRule, usize), Error>)
    requires
        pos < input.len(),
    ensures
        agrees(res, pos, spec_parse_viewport_rule(tv(input), pos as int)),
        advances(res, pos, input.len()),
{
    reveal(spec_parse_viewport_rule);
    let start = input[pos].span.lo;
    let q1 = input::skip_ws(input, pos + 1);
    match parse_simple_block(input, q1) {
        Ok((block, e)) => Ok((AtRule::Viewport { span: input::span_since(input, start, e), block }, e)),
        Err(er) => Err(er),
    }
}

fn parse_supports_rule(input: &Vec<TokenAndSpan>, pos: usize) -> (res: Result<(AtRule, usize), Error>)
    requires
        pos < input.len(),
    ensures
        agrees(res, pos, spec_parse_supports_rule(tv(input), pos as int)),
        advances(res, pos, input.len()),
{
    reveal(spec_parse_supports_rule);
    let start = input[pos].span.lo;
    let q1 = input::skip_ws(input, pos + 1);
    let (query, q2) = match parse_support_query(input, q1) {
        Ok(v) => v,
        Err(er) => return Err(er),
    };
    if !input::kind_is(input, q2, TokenKind::LBrace) {
        return Err(input::error_at(input, q2, ErrorKind::Expected(Expectation::LBrace)));
    }
    let (rules, q3) = parse_rule_list(input, q2 + 1);
    if input::kind_is(input, q3, TokenKind::RBrace) {
        Ok((AtRule::Supports { span: input::span_since(input, start, q3 + 1), query, rules }, q3 + 1))
    } else {
        Err(input::error_at(input, q3, ErrorKind::Expected(Expectation::RBrace)))
    }
}

fn parse_media_rule(input: &Vec<TokenAndSpan>, pos: usize) -> (res: Result<(AtRule, usize), Error>)
    requires
        pos < input.len(),
    ensures
        agrees(res, pos, spec_parse_media_rule(tv(input), pos as int)),
        advances(res, pos, input.len()),
{
    reveal(spec_parse_media_rule);
    let start = input[pos].span.lo;
    let q1 = input::skip_ws(input, pos + 1);
    let (query, q2) = match parse_media_query(input, q1, false) {
        Ok(v) => v,
        Err(er) => return Err(er),
    };
    if !input::kind_is(input, q2, TokenKind::LBrace) {
        return Err(input::error_at(input, q2, ErrorKind::Expected(Expectation::LBrace)));
    }
    let (rules, q3) = parse_rule_list(input, q2 + 1);
    if input::kind_is(input, q3, TokenKind::RBrace) {
        Ok((AtRule::Media { span: input::span_since(input, start, q3 + 1), query, rules }, q3 + 1))
    } else {
        Err(input::error_at(input, q3, ErrorKind::Expected(Expectation::RBrace)))
    }
}

fn parse_page_at_rule(input: &Vec<TokenAndSpan>, pos: usize) -> (res: Result<(AtRule, usize), Error>)
    requires
        pos < input.len(),
    ensures
        agrees(res, pos, spec_parse_page_at_rule(tv(input), pos as int)),
        advances(res, pos, input.len()),
{
    reveal(spec_parse_page_at_rule);
    let start = input[pos].span.lo;
    let q1 = input::skip_ws(input, pos + 1);
    match parse_page_rule(input, q1) {
        Ok((mut r, e)) => {
            r.span.lo = start;
            Ok((AtRule::Page(r), e))
        },
        Err(er) => Err(er),
    }
}

fn parse_document_at_rule(input: &Vec<TokenAndSpan>, pos: usize) -> (res: Result<(AtRule, usize), Error>)
    requires
        pos < input.len(),
    ensures
        agrees(res, pos, spec_parse_document_at_rule(tv(input), pos as int)),
        advances(res, pos, input.len()),
{
    reveal(spec_parse_document_at_rule);
    let start = input[pos].span.lo;
    let q1 = input::skip_ws(input, pos + 1);
    match parse_document_rule(input, q1) {
        Ok((mut r, e)) => {
            r.span.lo = start;
            Ok((AtRule::Document(r), e))
        },
        Err(er) => Err(er),
    }
}

fn parse_namespace_rule(input: &Vec<TokenAndSpan>, pos: usize) -> (res: Result<(AtRule, usize), Error>)
    requires
        pos < input.len(),
    ensures
        agrees(res, pos, spec_parse_namespace_rule(tv(input), pos as int)),
        advances(res, pos, input.len()),
{
    reveal(spec_parse_namespace_rule);
    let start = input[pos].span.lo;
    let q1 = input::skip_ws(input, pos + 1);
    let (prefix, q2) = if input::kind_is(input, q1, TokenKind::Ident) {
        let span = input::span_since(input, input[q1].span.lo, q1 + 1);
        (input::text_of(input, q1, span), input::skip_ws(input, q1 + 1))
    } else {
        (input::empty_text(), q1)
    };
    if q2 >= input.len() {
        return Err(input::error_at(input, q2, ErrorKind::Eof));
    }
    let vspan = input::span_since(input, input[q2].span.lo, q2 + 1);
    let k = input[q2].token.kind;
    let value = if k == TokenKind::Str {
        NamespaceValue::Str(input::text_of(input, q2, vspan))
    } else if k == TokenKind::Url {
        NamespaceValue::Url(
            UrlValue {
                span: vspan,
                url: input[q2].token.value.clone(),
                raw: input[q2].token.raw.clone(),
            },
        )
    } else {
        NamespaceValue::Str(Text { span: vspan, value: String::new(), raw: String::new() })
    };
    let q3 = input::eat(input, q2 + 1, TokenKind::Semi);
    Ok((AtRule::Namespace { span: input::span_since(input, start, q3), prefix, value }, q3))
}

fn parse_unknown_at_rule(input: &Vec<TokenAndSpan>, pos: usize, q: usize) -> (res: Result<
    (AtRule, usize),
    Error,
>)
    requires
        pos < q <= input.len(),
    ensures
        agrees(res, pos, spec_parse_unknown_at_rule(tv(input), pos as int, q as int)),
        advances(res, pos, input.len()),
{
    reveal(spec_parse_unknown_at_rule);
    let start = input[pos].span.lo;
    let name = input::text_of(input, pos, input::span_since(input, start, q));
    let q1 = input::skip_ws(input, q);
    let token_start = input::cur_span(input, q1).lo;
    if input::kind_is(input, q1, TokenKind::LBrace) {
        let close = matching_brace(input, q1 + 1);
        let r = if close < input.len() {
            close + 1
        } else {
            close
        };
        let tokens = copy_tokens(input, q1, r);
        let tokens = Tokens { span: input::span_since(input, token_start, r), tokens };
        Ok((AtRule::Unknown { span: input::span_since(input, start, r), name, tokens }, r))
    } else {
        let s = semi_end(input, q1);
        let r = if s < input.len() {
            s + 1
        } else {
            s
        };
        if r >= input.len() || input::kind_is(input, r, TokenKind::Semi) {
            let tokens = copy_tokens(input, q1, s);
            let tokens = Tokens { span: input::span_since(input, token_start, r), tokens };
            Ok((AtRule::Unknown { span: input::span_since(input, start, r), name, tokens }, r))
        } else {
            Err(
                Error {
                    span: input::span_since(input, start, r),
                    kind: ErrorKind::UnknownAtRuleNotTerminated,
                },
            )
        }
    }
}

/// Parses the matchers and rules of `@document` at `pos`.
pub fn parse_document_rule(input: &Vec<TokenAndSpan>, pos: usize) -> (res: Result<
    (DocumentRule, usize),
    Error,
>)
    requires
        pos <= input.len(),
    ensures
        agrees(res, pos, spec_parse_document_rule(tv(input), pos as int)),
        advances(res, pos, input.len()),
{
    let start = input::cur_span(input, pos).lo;
    let (selectors, q) = match parse_document_selectors(input, pos) {
        Ok(v) => v,
        Err(er) => return Err(er),
    };
    if !input::kind_is(input, q, TokenKind::LBrace) {
        return Err(input::error_at(input, q, ErrorKind::Expected(Expectation::LBrace)));
    }
    let (block, r) = parse_rule_list(input, q + 1);
    if input::kind_is(input, r, TokenKind::RBrace) {
        Ok((DocumentRule { span: input::span_since(input, start, r + 1), selectors, block }, r + 1))
    } else {
        Err(input::error_at(input, r, ErrorKind::Expected(Expectation::RBrace)))
    }
}

fn parse_document_selectors(input: &Vec<TokenAndSpan>, pos: usize) -> (res: Result<
    (Vec<FnValue>, usize),
    Error,
>)
    requires
        pos <= input.len(),
    ensures
        match res {
            Ok((v, q)) => pos < q <= input.len() && spec_parse_document_selectors(
                tv(input),
                pos as int,
            ) == Ok::<(Seq<SpecFnValue>, nat), Error>((fn_values_view(v@), (q - pos) as nat)),
            Err(e) => spec_parse_document_selectors(tv(input), pos as int) == Err::<
                (Seq<SpecFnValue>, nat),
                Error,
            >(e),
        },
{
    let ghost t = tv(input);
    let mut items: Vec<FnValue> = Vec::new();
    let mut i = pos;
    proof {
        match spec_parse_document_selectors(t, pos as int) {
            Ok((xs, m)) => {
                assert(fn_values_view(items@) + xs =~= xs);
            },
            Err(_) => {},
        }
    }
    loop
        invariant
            pos <= i <= input.len(),
            t == tv(input),
            spec_parse_document_selectors(t, pos as int) == prepend(
                fn_values_view(items@),
                pos as int,
                i as int,
                spec_parse_document_selectors(t, i as int),
            ),
        decreases input.len() - i,
    {
        let (v, e) = match parse_fn_value(input, i) {
            Ok(x) => x,
            Err(er) => return Err(er),
        };
        let ghost before = items@;
        items.push(v);
        proof {
            assert(fn_values_view(items@) =~= fn_values_view(before).push(v@));
        }
        let q = input::skip_ws(input, e);
        if input::kind_is(input, q, TokenKind::Comma) {
            proof {
                match spec_parse_document_selectors(t, q as int) {
                    Ok((xs, m)) => {
                        assert(fn_values_view(before) + (seq![v@] + xs) =~= fn_values_view(items@)
                            + xs);
                    },
                    Err(_) => {},
                }
            }
            i = q;
        } else {
            assert(fn_values_view(before) + seq![v@] =~= fn_values_view(items@));
            return Ok((items, q));
        }
    }
}

} // verus!
