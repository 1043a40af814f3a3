use lib::ast::{
    AtRule, FnValue, ImportSource, KeyframeBlockRule, KeyframeSelector, MediaQuery, NamespaceValue,
    PageRuleBlockItem, SupportQuery,
};
use lib::at_rule::{
    eat_keyframe_block_delimiter, eat_keyframe_selector_delimiter, parse_at_rule,
    parse_document_rule, parse_import_url, parse_keyframe_block, parse_keyframe_block_rule,
    parse_keyframe_selector,
};
use lib::error::{Error, ErrorKind, Expectation};
use lib::token::{Span, Token, TokenAndSpan, TokenKind};


/// Builds a token stream from kinds and texts, giving each token the span of
/// its text laid end to end from offset 0.
fn lex(items: &[(TokenKind, &str)]) -> Vec<TokenAndSpan> {
    let mut at = 0u32;
    let mut out = Vec::new();
    for (kind, text) in items {
        let len = text.chars().count() as u32;
        out.push(TokenAndSpan {
            span: Span { lo: at, hi: at + len },
            token: Token { kind: *kind, value: text.to_string(), raw: text.to_string() },
        });
        at += len;
    }
    out
}

const WS: (TokenKind, &str) = (TokenKind::WhiteSpace, " ");

fn text_of(t: &lib::ast::Text) -> &str {
    t.value.as_str()
}

#[test]
fn charset_with_string() {
    let input = lex(&[(TokenKind::AtKeyword, "charset"), WS, (TokenKind::Str, "utf-8"), (TokenKind::Semi, ";")]);
    let (rule, end) = parse_at_rule(&input, 0).unwrap();
    assert_eq!(end, 4);
    match rule {
        AtRule::Charset { span, charset } => {
            assert_eq!(span, Span { lo: 0, hi: 14 });
            assert_eq!(text_of(&charset), "utf-8");
            assert_eq!(charset.span, Span { lo: 8, hi: 13 });
        },
        other => panic!("unexpected {:?}", other),
    }
}

#[test]
fn charset_without_semicolon_at_end() {
    let input = lex(&[(TokenKind::AtKeyword, "charset"), WS, (TokenKind::Str, "utf-8")]);
    let (rule, end) = parse_at_rule(&input, 0).unwrap();
    assert_eq!(end, 3);
    assert!(matches!(rule, AtRule::Charset { .. }));
}

#[test]
fn charset_without_string_is_unknown() {
    let input = lex(&[(TokenKind::AtKeyword, "charset"), WS, (TokenKind::Ident, "x"), (TokenKind::Semi, ";")]);
    let (rule, end) = parse_at_rule(&input, 0).unwrap();
    assert_eq!(end, 4);
    match rule {
        AtRule::Unknown { name, tokens, span } => {
            assert_eq!(text_of(&name), "charset");
            // the name's span reaches over the whitespace already skipped
            assert_eq!(name.span, Span { lo: 0, hi: 8 });
            assert_eq!(tokens.tokens.len(), 1);
            assert_eq!(tokens.tokens[0].token.value, "x");
            assert_eq!(span, Span { lo: 0, hi: 10 });
        },
        other => panic!("unexpected {:?}", other),
    }
}

#[test]
fn dispatch_ignores_ascii_case() {
    let input = lex(&[(TokenKind::AtKeyword, "ChArSeT"), WS, (TokenKind::Str, "a")]);
    let (rule, _) = parse_at_rule(&input, 0).unwrap();
    assert!(matches!(rule, AtRule::Charset { .. }));
    let input = lex(&[(TokenKind::AtKeyword, "MEDIA"), WS, (TokenKind::Ident, "print"), (TokenKind::LBrace, "{"), (TokenKind::RBrace, "}")]);
    let (rule, _) = parse_at_rule(&input, 0).unwrap();
    assert!(matches!(rule, AtRule::Media { .. }));
}

#[test]
fn import_string_without_condition() {
    let input = lex(&[(TokenKind::AtKeyword, "import"), WS, (TokenKind::Str, "a.css"), (TokenKind::Semi, ";")]);
    let (rule, end) = parse_at_rule(&input, 0).unwrap();
    assert_eq!(end, 4);
    match rule {
        AtRule::Import { src: ImportSource::Str(s), condition: None, .. } => {
            assert_eq!(text_of(&s), "a.css")
        },
        other => panic!("unexpected {:?}", other),
    }
}

#[test]
fn import_url_function_with_media_condition() {
    let input = lex(&[
        (TokenKind::AtKeyword, "import"),
        WS,
        (TokenKind::Function, "URL"),
        (TokenKind::Str, "a.css"),
        (TokenKind::RParen, ")"),
        WS,
        (TokenKind::Ident, "screen"),
        (TokenKind::Semi, ";"),
    ]);
    let (rule, end) = parse_at_rule(&input, 0).unwrap();
    assert_eq!(end, 8);
    match rule {
        AtRule::Import { src: ImportSource::Fn(f), condition: Some(MediaQuery::Text(m)), .. } => {
            assert_eq!(text_of(&f.name), "URL");
            assert_eq!(f.value.len(), 1);
            assert_eq!(text_of(&m), "screen");
        },
        other => panic!("unexpected {:?}", other),
    }
}

#[test]
fn import_url_token() {
    let input = lex(&[(TokenKind::AtKeyword, "import"), WS, (TokenKind::Url, "a.css")]);
    let (rule, end) = parse_at_rule(&input, 0).unwrap();
    assert_eq!(end, 3);
    match rule {
        AtRule::Import { src: ImportSource::Url(u), condition: None, span } => {
            assert_eq!(u.url, "a.css");
            assert_eq!(span, Span { lo: 0, hi: 12 });
        },
        other => panic!("unexpected {:?}", other),
    }
}

#[test]
fn import_needs_a_source() {
    let input = lex(&[(TokenKind::AtKeyword, "import"), WS, (TokenKind::Ident, "x")]);
    let err = parse_at_rule(&input, 0).unwrap_err();
    assert_eq!(
        err,
        Error { span: Span { lo: 7, hi: 8 }, kind: ErrorKind::Expected(Expectation::ImportUrl) }
    );
}

#[test]
fn import_url_at_end_of_input() {
    let input = lex(&[(TokenKind::AtKeyword, "import"), WS]);
    assert_eq!(parse_import_url(&input, 2).unwrap_err(), Error { span: Span { lo: 7, hi: 7 }, kind: ErrorKind::Eof });
}

#[test]
fn import_other_function_is_not_a_url() {
    let input = lex(&[(TokenKind::Function, "src"), (TokenKind::Str, "a"), (TokenKind::RParen, ")")]);
    assert_eq!(
        parse_import_url(&input, 0).unwrap_err().kind,
        ErrorKind::Expected(Expectation::ImportUrl)
    );
}

#[test]
fn keyframes_with_blocks() {
    let input = lex(&[
        (TokenKind::AtKeyword, "keyframes"),
        WS,
        (TokenKind::Ident, "spin"),
        WS,
        (TokenKind::LBrace, "{"),
        WS,
        (TokenKind::Ident, "from"),
        (TokenKind::Comma, ","),
        WS,
        (TokenKind::Percent, "50"),
        WS,
        (TokenKind::LBrace, "{"),
        (TokenKind::Ident, "a"),
        (TokenKind::Colon, ":"),
        (TokenKind::Num, "1"),
        (TokenKind::RBrace, "}"),
        WS,
        (TokenKind::Ident, "to"),
        (TokenKind::LBrace, "{"),
        (TokenKind::RBrace, "}"),
        WS,
        (TokenKind::RBrace, "}"),
    ]);
    let (rule, end) = parse_at_rule(&input, 0).unwrap();
    assert_eq!(end, input.len());
    match rule {
        AtRule::Keyframes { id, blocks, .. } => {
            assert_eq!(text_of(&id), "spin");
            assert_eq!(blocks.len(), 2);
            assert_eq!(blocks[0].selector.len(), 2);
            assert!(matches!(&blocks[0].selector[0], KeyframeSelector::Id(t) if t.value == "from"));
            assert!(matches!(&blocks[0].selector[1], KeyframeSelector::Percent(p) if p.value == "50"));
            match &blocks[0].rule {
                KeyframeBlockRule::Block(b) => assert_eq!(b.tokens.len(), 3),
                other => panic!("unexpected {:?}", other),
            }
            assert_eq!(blocks[1].selector.len(), 1);
        },
        other => panic!("unexpected {:?}", other),
    }
}

#[test]
fn webkit_keyframes_without_block() {
    let input = lex(&[(TokenKind::AtKeyword, "-webkit-keyframes"), WS, (TokenKind::Str, "x"), (TokenKind::Semi, ";")]);
    let (rule, end) = parse_at_rule(&input, 0).unwrap();
    assert_eq!(end, 3);
    match rule {
        AtRule::Keyframes { id, blocks, .. } => {
            assert_eq!(text_of(&id), "x");
            assert!(blocks.is_empty());
        },
        other => panic!("unexpected {:?}", other),
    }
}

#[test]
fn keyframes_name_of_other_kind_is_skipped() {
    let input = lex(&[(TokenKind::AtKeyword, "keyframes"), WS, (TokenKind::Num, "1"), WS, (TokenKind::LBrace, "{"), (TokenKind::RBrace, "}")]);
    let (rule, end) = parse_at_rule(&input, 0).unwrap();
    assert_eq!(end, 6);
    match rule {
        AtRule::Keyframes { id, blocks, .. } => {
            assert_eq!(id.value, "");
            assert_eq!(id.span, Span { lo: 0, hi: 0 });
            assert!(blocks.is_empty());
        },
        other => panic!("unexpected {:?}", other),
    }
}

#[test]
fn keyframes_at_end_of_input() {
    let input = lex(&[(TokenKind::AtKeyword, "keyframes"), WS]);
    assert_eq!(parse_at_rule(&input, 0).unwrap_err().kind, ErrorKind::Eof);
}

#[test]
fn keyframes_bad_selector() {
    let input = lex(&[(TokenKind::AtKeyword, "keyframes"), WS, (TokenKind::Ident, "x"), (TokenKind::LBrace, "{"), (TokenKind::Num, "3"), (TokenKind::LBrace, "{"), (TokenKind::RBrace, "}"), (TokenKind::RBrace, "}")]);
    let err = parse_at_rule(&input, 0).unwrap_err();
    assert_eq!(err, Error { span: Span { lo: 12, hi: 13 }, kind: ErrorKind::InvalidKeyframeSelector });
}

#[test]
fn keyframes_unclosed() {
    let input = lex(&[(TokenKind::AtKeyword, "keyframes"), WS, (TokenKind::Ident, "x"), (TokenKind::LBrace, "{"), (TokenKind::Ident, "to"), (TokenKind::LBrace, "{"), (TokenKind::RBrace, "}")]);
    let err = parse_at_rule(&input, 0).unwrap_err();
    assert_eq!(err.kind, ErrorKind::Expected(Expectation::RBrace));
}

#[test]
fn keyframe_block_with_nested_at_rule() {
    let input = lex(&[(TokenKind::Ident, "to"), WS, (TokenKind::AtKeyword, "media"), WS, (TokenKind::Ident, "print"), (TokenKind::LBrace, "{"), (TokenKind::RBrace, "}")]);
    let (block, end) = parse_keyframe_block(&input, 0).unwrap();
    assert_eq!(end, 7);
    match block.rule {
        KeyframeBlockRule::AtRule(r) => assert!(matches!(*r, AtRule::Media { .. })),
        other => panic!("unexpected {:?}", other),
    }
}

#[test]
fn keyframe_block_rule_needs_a_block() {
    let input = lex(&[(TokenKind::Ident, "x")]);
    assert_eq!(
        parse_keyframe_block_rule(&input, 0).unwrap_err().kind,
        ErrorKind::Expected(Expectation::LBrace)
    );
}

#[test]
fn keyframe_selector_kinds() {
    let input = lex(&[(TokenKind::Percent, "10"), (TokenKind::Ident, "from"), (TokenKind::Str, "x")]);
    assert!(matches!(parse_keyframe_selector(&input, 0).unwrap(), (KeyframeSelector::Percent(_), 1)));
    assert!(matches!(parse_keyframe_selector(&input, 1).unwrap(), (KeyframeSelector::Id(_), 2)));
    assert_eq!(parse_keyframe_selector(&input, 2).unwrap_err().kind, ErrorKind::InvalidKeyframeSelector);
}

#[test]
fn keyframe_delimiters() {
    let input = lex(&[WS, (TokenKind::Comma, ","), WS, (TokenKind::Ident, "to"), WS, (TokenKind::RBrace, "}")]);
    assert_eq!(eat_keyframe_selector_delimiter(&input, 0), (true, 3));
    assert_eq!(eat_keyframe_selector_delimiter(&input, 4), (false, 5));
    assert_eq!(eat_keyframe_block_delimiter(&input, 4), (false, 5));
    assert_eq!(eat_keyframe_block_delimiter(&input, 0), (true, 1));
}

#[test]
fn font_face_and_viewport() {
    let input = lex(&[(TokenKind::AtKeyword, "font-face"), WS, (TokenKind::LBrace, "{"), (TokenKind::Ident, "a"), (TokenKind::RBrace, "}")]);
    match parse_at_rule(&input, 0).unwrap() {
        (AtRule::FontFace { block, span }, 5) => {
            assert_eq!(block.tokens.len(), 1);
            assert_eq!(block.span, Span { lo: 10, hi: 13 });
            assert_eq!(span, Span { lo: 0, hi: 13 });
        },
        other => panic!("unexpected {:?}", other),
    }
    let input = lex(&[(TokenKind::AtKeyword, "-ms-viewport"), (TokenKind::LBrace, "{"), (TokenKind::RBrace, "}")]);
    assert!(matches!(parse_at_rule(&input, 0).unwrap(), (AtRule::Viewport { .. }, 3)));
}

#[test]
fn font_face_needs_block() {
    let input = lex(&[(TokenKind::AtKeyword, "font-face"), WS, (TokenKind::Ident, "a")]);
    assert_eq!(
        parse_at_rule(&input, 0).unwrap_err(),
        Error { span: Span { lo: 10, hi: 11 }, kind: ErrorKind::Expected(Expectation::LBrace) }
    );
}

#[test]
fn font_face_unclosed_block() {
    let input = lex(&[(TokenKind::AtKeyword, "font-face"), (TokenKind::LBrace, "{"), (TokenKind::Ident, "a")]);
    assert_eq!(
        parse_at_rule(&input, 0).unwrap_err(),
        Error { span: Span { lo: 11, hi: 11 }, kind: ErrorKind::Expected(Expectation::RBrace) }
    );
}

#[test]
fn supports_with_and() {
    let input = lex(&[
        (TokenKind::AtKeyword, "supports"),
        WS,
        (TokenKind::LParen, "("),
        (TokenKind::Ident, "display"),
        (TokenKind::Colon, ":"),
        WS,
        (TokenKind::Ident, "flex"),
        (TokenKind::RParen, ")"),
        WS,
        (TokenKind::Ident, "and"),
        WS,
        (TokenKind::Ident, "not"),
        WS,
        (TokenKind::LParen, "("),
        (TokenKind::LParen, "("),
        (TokenKind::Ident, "a"),
        (TokenKind::Colon, ":"),
        (TokenKind::Ident, "b"),
        (TokenKind::RParen, ")"),
        (TokenKind::RParen, ")"),
        WS,
        (TokenKind::LBrace, "{"),
        (TokenKind::Ident, "p"),
        (TokenKind::LBrace, "{"),
        (TokenKind::RBrace, "}"),
        (TokenKind::RBrace, "}"),
    ]);
    let (rule, end) = parse_at_rule(&input, 0).unwrap();
    assert_eq!(end, input.len());
    match rule {
        AtRule::Supports { query: SupportQuery::And { left, right, .. }, rules, .. } => {
            match *left {
                SupportQuery::Declaration(d) => {
                    assert_eq!(d.property.value, "display");
                    assert_eq!(d.value.tokens.len(), 1);
                },
                other => panic!("unexpected {:?}", other),
            }
            match *right {
                SupportQuery::Not { query, .. } => assert!(matches!(*query, SupportQuery::Paren { .. })),
                other => panic!("unexpected {:?}", other),
            }
            assert_eq!(rules.tokens.len(), 3);
        },
        other => panic!("unexpected {:?}", other),
    }
}

#[test]
fn supports_invalid_condition() {
    let input = lex(&[(TokenKind::AtKeyword, "supports"), WS, (TokenKind::Ident, "x")]);
    assert_eq!(
        parse_at_rule(&input, 0).unwrap_err(),
        Error { span: Span { lo: 9, hi: 10 }, kind: ErrorKind::InvalidSupportQuery }
    );
}

#[test]
fn supports_declaration_needs_colon() {
    let input = lex(&[(TokenKind::AtKeyword, "supports"), WS, (TokenKind::LParen, "("), (TokenKind::Ident, "a"), (TokenKind::RParen, ")")]);
    assert_eq!(parse_at_rule(&input, 0).unwrap_err().kind, ErrorKind::Expected(Expectation::Colon));
}

#[test]
fn supports_condition_needs_closing_paren() {
    let input = lex(&[(TokenKind::AtKeyword, "supports"), WS, (TokenKind::LParen, "("), (TokenKind::LParen, "("), (TokenKind::Ident, "a"), (TokenKind::Colon, ":"), (TokenKind::Ident, "b"), (TokenKind::RParen, ")"), (TokenKind::LBrace, "{")]);
    assert_eq!(parse_at_rule(&input, 0).unwrap_err().kind, ErrorKind::Expected(Expectation::RParen));
}

#[test]
fn media_and_feature() {
    let input = lex(&[
        (TokenKind::AtKeyword, "media"),
        WS,
        (TokenKind::Ident, "only"),
        WS,
        (TokenKind::Ident, "screen"),
        WS,
        (TokenKind::Ident, "and"),
        WS,
        (TokenKind::LParen, "("),
        (TokenKind::Ident, "min-width"),
        (TokenKind::Colon, ":"),
        WS,
        (TokenKind::Dimension, "100px"),
        (TokenKind::RParen, ")"),
        WS,
        (TokenKind::LBrace, "{"),
        (TokenKind::RBrace, "}"),
    ]);
    let (rule, end) = parse_at_rule(&input, 0).unwrap();
    assert_eq!(end, input.len());
    match rule {
        AtRule::Media { query: MediaQuery::Only { query, .. }, .. } => match *query {
            MediaQuery::And { left, right, span } => {
                assert!(matches!(*left, MediaQuery::Text(ref t) if t.value == "screen"));
                match *right {
                    MediaQuery::Declaration(d) => {
                        assert_eq!(d.property.value, "min-width");
                        assert_eq!(d.value.tokens.len(), 1);
                        assert_eq!(d.span, Span { lo: 23, hi: 40 });
                    },
                    other => panic!("unexpected {:?}", other),
                }
                assert_eq!(span, Span { lo: 11, hi: 40 });
            },
            other => panic!("unexpected {:?}", other),
        },
        other => panic!("unexpected {:?}", other),
    }
}

#[test]
fn media_comma_list() {
    let input = lex(&[
        (TokenKind::AtKeyword, "media"),
        WS,
        (TokenKind::Ident, "screen"),
        (TokenKind::Comma, ","),
        WS,
        (TokenKind::Ident, "print"),
        (TokenKind::Comma, ","),
        (TokenKind::LParen, "("),
        (TokenKind::Ident, "color"),
        (TokenKind::RParen, ")"),
        (TokenKind::LBrace, "{"),
        (TokenKind::RBrace, "}"),
    ]);
    match parse_at_rule(&input, 0).unwrap() {
        (AtRule::Media { query: MediaQuery::Comma { queries, .. }, .. }, 12) => {
            assert_eq!(queries.len(), 3);
            assert!(matches!(&queries[2], MediaQuery::Text(t) if t.value == "color"));
        },
        other => panic!("unexpected {:?}", other),
    }
}

#[test]
fn media_invalid_query() {
    let input = lex(&[(TokenKind::AtKeyword, "media"), WS, (TokenKind::Num, "1")]);
    assert_eq!(
        parse_at_rule(&input, 0).unwrap_err(),
        Error { span: Span { lo: 6, hi: 7 }, kind: ErrorKind::InvalidMediaQuery }
    );
}

#[test]
fn media_missing_block() {
    let input = lex(&[(TokenKind::AtKeyword, "media"), WS, (TokenKind::Ident, "print"), (TokenKind::Semi, ";")]);
    assert_eq!(parse_at_rule(&input, 0).unwrap_err().kind, ErrorKind::Expected(Expectation::LBrace));
}

#[test]
fn page_with_margin_rule() {
    let input = lex(&[
        (TokenKind::AtKeyword, "page"),
        WS,
        (TokenKind::Colon, ":"),
        (TokenKind::Ident, "first"),
        WS,
        (TokenKind::LBrace, "{"),
        WS,
        (TokenKind::Ident, "margin"),
        (TokenKind::Colon, ":"),
        WS,
        (TokenKind::Dimension, "1in"),
        (TokenKind::Semi, ";"),
        WS,
        (TokenKind::AtKeyword, "top-left"),
        WS,
        (TokenKind::LBrace, "{"),
        (TokenKind::Ident, "content"),
        (TokenKind::Colon, ":"),
        (TokenKind::Str, "x"),
        (TokenKind::RBrace, "}"),
        WS,
        (TokenKind::RBrace, "}"),
    ]);
    let (rule, end) = parse_at_rule(&input, 0).unwrap();
    assert_eq!(end, input.len());
    match rule {
        AtRule::Page(p) => {
            assert_eq!(p.span.lo, 0);
            assert_eq!(p.prelude.len(), 1);
            assert!(p.prelude[0].ident.is_none());
            assert_eq!(p.prelude[0].pseudo.as_ref().unwrap().value, "first");
            assert_eq!(p.block.items.len(), 2);
            assert!(matches!(&p.block.items[0], PageRuleBlockItem::Declaration(d) if d.property.value == "margin"));
            match &p.block.items[1] {
                PageRuleBlockItem::Nested(n) => {
                    assert_eq!(n.prelude.tokens[0].token.value, "top-left");
                    assert_eq!(n.block.items.len(), 1);
                },
                other => panic!("unexpected {:?}", other),
            }
        },
        other => panic!("unexpected {:?}", other),
    }
}

#[test]
fn page_with_empty_block_and_selector_list() {
    let input = lex(&[(TokenKind::AtKeyword, "page"), WS, (TokenKind::Ident, "a"), (TokenKind::Comma, ","), (TokenKind::Ident, "b"), (TokenKind::Colon, ":"), (TokenKind::Ident, "left"), (TokenKind::LBrace, "{"), (TokenKind::RBrace, "}")]);
    match parse_at_rule(&input, 0).unwrap() {
        (AtRule::Page(p), 9) => {
            assert_eq!(p.prelude.len(), 2);
            assert_eq!(p.prelude[1].ident.as_ref().unwrap().value, "b");
            assert!(p.block.items.is_empty());
        },
        other => panic!("unexpected {:?}", other),
    }
}

#[test]
fn page_block_unclosed() {
    let input = lex(&[(TokenKind::AtKeyword, "page"), WS, (TokenKind::LBrace, "{"), (TokenKind::Ident, "a"), (TokenKind::Colon, ":"), (TokenKind::Ident, "b")]);
    assert_eq!(parse_at_rule(&input, 0).unwrap_err().kind, ErrorKind::Expected(Expectation::RBrace));
}

#[test]
fn document_rule() {
    let input = lex(&[
        (TokenKind::AtKeyword, "-moz-document"),
        WS,
        (TokenKind::Url, "http://x"),
        WS,
        (TokenKind::LBrace, "{"),
        (TokenKind::Ident, "a"),
        (TokenKind::LBrace, "{"),
        (TokenKind::RBrace, "}"),
        (TokenKind::RBrace, "}"),
    ]);
    match parse_at_rule(&input, 0).unwrap() {
        (AtRule::Document(d), 9) => {
            assert_eq!(d.span.lo, 0);
            assert_eq!(d.selectors.len(), 1);
            assert!(matches!(&d.selectors[0], FnValue::Url(u) if u.url == "http://x"));
            assert_eq!(d.block.tokens.len(), 3);
        },
        other => panic!("unexpected {:?}", other),
    }
}

#[test]
fn document_matchers_are_read_at_the_comma() {
    let input = lex(&[(TokenKind::Function, "url-prefix"), (TokenKind::Str, "a"), (TokenKind::RParen, ")"), (TokenKind::Comma, ","), (TokenKind::Url, "b"), (TokenKind::LBrace, "{"), (TokenKind::RBrace, "}")]);
    assert_eq!(
        parse_document_rule(&input, 0).unwrap_err(),
        Error { span: Span { lo: 12, hi: 13 }, kind: ErrorKind::Expected(Expectation::FnValue) }
    );
}

#[test]
fn document_function_unclosed() {
    let input = lex(&[(TokenKind::Function, "url-prefix"), (TokenKind::Str, "a")]);
    assert_eq!(parse_document_rule(&input, 0).unwrap_err().kind, ErrorKind::Expected(Expectation::RParen));
}

#[test]
fn namespace_with_prefix_and_url() {
    let input = lex(&[(TokenKind::AtKeyword, "namespace"), WS, (TokenKind::Ident, "svg"), WS, (TokenKind::Url, "http://w3"), (TokenKind::Semi, ";")]);
    match parse_at_rule(&input, 0).unwrap() {
        (AtRule::Namespace { prefix, value: NamespaceValue::Url(u), span }, 6) => {
            assert_eq!(prefix.value, "svg");
            assert_eq!(u.url, "http://w3");
            assert_eq!(span, Span { lo: 0, hi: 24 });
        },
        other => panic!("unexpected {:?}", other),
    }
}

#[test]
fn namespace_string_without_prefix() {
    let input = lex(&[(TokenKind::AtKeyword, "namespace"), WS, (TokenKind::Str, "x")]);
    match parse_at_rule(&input, 0).unwrap() {
        (AtRule::Namespace { prefix, value: NamespaceValue::Str(s), .. }, 3) => {
            assert_eq!(prefix.value, "");
            assert_eq!(s.value, "x");
        },
        other => panic!("unexpected {:?}", other),
    }
}

#[test]
fn namespace_other_value_becomes_empty_string() {
    let input = lex(&[(TokenKind::AtKeyword, "namespace"), WS, (TokenKind::Num, "1")]);
    match parse_at_rule(&input, 0).unwrap() {
        (AtRule::Namespace { value: NamespaceValue::Str(s), .. }, 3) => {
            assert_eq!(s.value, "");
            assert_eq!(s.span, Span { lo: 10, hi: 11 });
        },
        other => panic!("unexpected {:?}", other),
    }
}

#[test]
fn namespace_at_end_of_input() {
    let input = lex(&[(TokenKind::AtKeyword, "namespace"), WS, (TokenKind::Ident, "svg")]);
    assert_eq!(parse_at_rule(&input, 0).unwrap_err(), Error { span: Span { lo: 13, hi: 13 }, kind: ErrorKind::Eof });
}

#[test]
fn unknown_rule_with_block() {
    let input = lex(&[
        (TokenKind::AtKeyword, "foo"),
        WS,
        (TokenKind::LBrace, "{"),
        (TokenKind::Ident, "a"),
        (TokenKind::LBrace, "{"),
        (TokenKind::RBrace, "}"),
        (TokenKind::RBrace, "}"),
        (TokenKind::Ident, "after"),
    ]);
    match parse_at_rule(&input, 0).unwrap() {
        (AtRule::Unknown { name, tokens, span }, 7) => {
            assert_eq!(name.value, "foo");
            assert_eq!(tokens.tokens.len(), 5);
            assert_eq!(tokens.span, Span { lo: 4, hi: 9 });
            assert_eq!(span, Span { lo: 0, hi: 9 });
        },
        other => panic!("unexpected {:?}", other),
    }
}

#[test]
fn unknown_rule_block_to_end_of_input() {
    let input = lex(&[(TokenKind::AtKeyword, "foo"), (TokenKind::LBrace, "{"), (TokenKind::Ident, "a")]);
    match parse_at_rule(&input, 0).unwrap() {
        (AtRule::Unknown { tokens, .. }, 3) => assert_eq!(tokens.tokens.len(), 2),
        other => panic!("unexpected {:?}", other),
    }
}

#[test]
fn unknown_rule_without_block() {
    let input = lex(&[(TokenKind::AtKeyword, "Foo"), WS, (TokenKind::Ident, "bar"), WS, (TokenKind::Num, "1"), (TokenKind::Semi, ";")]);
    match parse_at_rule(&input, 0).unwrap() {
        (AtRule::Unknown { name, tokens, span }, 6) => {
            assert_eq!(name.value, "Foo");
            assert_eq!(tokens.tokens.len(), 3);
            assert_eq!(span, Span { lo: 0, hi: 10 });
        },
        other => panic!("unexpected {:?}", other),
    }
}

#[test]
fn unknown_rule_must_be_followed_by_semicolon_or_end() {
    let input = lex(&[(TokenKind::AtKeyword, "foo"), WS, (TokenKind::Ident, "bar"), (TokenKind::Semi, ";"), WS]);
    assert_eq!(
        parse_at_rule(&input, 0).unwrap_err(),
        Error { span: Span { lo: 0, hi: 8 }, kind: ErrorKind::UnknownAtRuleNotTerminated }
    );
    let input = lex(&[(TokenKind::AtKeyword, "foo"), (TokenKind::Semi, ";"), (TokenKind::Semi, ";")]);
    assert!(matches!(parse_at_rule(&input, 0).unwrap(), (AtRule::Unknown { .. }, 2)));
}

#[test]
fn at_end_of_input() {
    let input = lex(&[(TokenKind::Ident, "a")]);
    assert_eq!(parse_at_rule(&input, 1).unwrap_err(), Error { span: Span { lo: 1, hi: 1 }, kind: ErrorKind::Eof });
    let empty: Vec<TokenAndSpan> = Vec::new();
    assert_eq!(parse_at_rule(&empty, 0).unwrap_err(), Error { span: Span { lo: 0, hi: 0 }, kind: ErrorKind::Eof });
}

#[test]
fn at_rule_spans_its_tokens() {
    // spans laid end to end are ordered, so each rule spans from its keyword
    // to its last token
    let input = lex(&[
        (TokenKind::AtKeyword, "supports"),
        WS,
        (TokenKind::LParen, "("),
        (TokenKind::Ident, "a"),
        (TokenKind::Colon, ":"),
        (TokenKind::Ident, "b"),
        (TokenKind::RParen, ")"),
        (TokenKind::LBrace, "{"),
        (TokenKind::RBrace, "}"),
        WS,
    ]);
    let (rule, end) = parse_at_rule(&input, 0).unwrap();
    assert_eq!(end, 9);
    match rule {
        AtRule::Supports { span, .. } => {
            assert_eq!(span, Span { lo: input[0].span.lo, hi: input[end - 1].span.hi })
        },
        other => panic!("unexpected {:?}", other),
    }
}
