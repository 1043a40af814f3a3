use lib::ast::{AtRule, MediaQuery, SupportQuery};
use lib::at_rule::parse_at_rule;
use lib::page::parse_page_selector;
use lib::query::{parse_media_query, parse_support_query};
use lib::token::{Span, Token, TokenAndSpan, TokenKind};

fn lex(items: &[(TokenKind, &str)]) -> Vec<TokenAndSpan> {
    let mut at = 0u32;
    let mut out = Vec::new();
    for (kind, text) in items {
        let len = text.chars().count() as u32;
        out.push(TokenAndSpan {
            span: Span { lo: at, hi: at + len },
            token: Token { kind: *kind, value: text.to_string(), raw: text.to_string() },
        });
        at += len;
    }
    out
}

#[test]
fn name_case_gives_the_same_rule() {
    let rest = [
        (TokenKind::WhiteSpace, " "),
        (TokenKind::Ident, "print"),
        (TokenKind::LBrace, "{"),
        (TokenKind::Ident, "a"),
        (TokenKind::RBrace, "}"),
    ];
    let mut lower = vec![(TokenKind::AtKeyword, "media")];
    lower.extend_from_slice(&rest);
    let mut upper = vec![(TokenKind::AtKeyword, "MeDiA")];
    upper.extend_from_slice(&rest);
    let a = parse_at_rule(&lex(&lower), 0).unwrap();
    let b = parse_at_rule(&lex(&upper), 0).unwrap();
    assert_eq!(a, b);
}

#[test]
fn name_case_of_unknown_rule_keeps_its_text() {
    let a = parse_at_rule(&lex(&[(TokenKind::AtKeyword, "foo"), (TokenKind::Semi, ";")]), 0).unwrap();
    let b = parse_at_rule(&lex(&[(TokenKind::AtKeyword, "FOO"), (TokenKind::Semi, ";")]), 0).unwrap();
    match (a, b) {
        ((AtRule::Unknown { name: n1, tokens: t1, span: s1 }, e1), (AtRule::Unknown { name: n2, tokens: t2, span: s2 }, e2)) => {
            assert_eq!(n1.value, "foo");
            assert_eq!(n2.value, "FOO");
            assert_eq!(n1.span, n2.span);
            assert_eq!((t1, s1, e1), (t2, s2, e2));
        },
        other => panic!("unexpected {:?}", other),
    }
}

#[test]
fn leading_whitespace_before_queries() {
    let input = lex(&[
        (TokenKind::WhiteSpace, " "),
        (TokenKind::WhiteSpace, "\n"),
        (TokenKind::Ident, "not"),
        (TokenKind::WhiteSpace, " "),
        (TokenKind::Ident, "print"),
    ]);
    let (q0, e0) = parse_media_query(&input, 0, false).unwrap();
    let (q2, e2) = parse_media_query(&input, 2, false).unwrap();
    assert_eq!(q0, q2);
    assert_eq!(e0, e2);
    assert!(matches!(q0, MediaQuery::Not { .. }));

    let input = lex(&[
        (TokenKind::WhiteSpace, " "),
        (TokenKind::LParen, "("),
        (TokenKind::Ident, "a"),
        (TokenKind::Colon, ":"),
        (TokenKind::Ident, "b"),
        (TokenKind::RParen, ")"),
    ]);
    let (s0, e0) = parse_support_query(&input, 0).unwrap();
    let (s1, e1) = parse_support_query(&input, 1).unwrap();
    assert_eq!((s0, e0), (s1, e1));

    let input = lex(&[(TokenKind::WhiteSpace, " "), (TokenKind::Colon, ":"), (TokenKind::Ident, "first")]);
    assert_eq!(parse_page_selector(&input, 0).unwrap(), parse_page_selector(&input, 1).unwrap());
}

#[test]
fn no_comma_media_query_stops_at_comma() {
    let input = lex(&[(TokenKind::Ident, "a"), (TokenKind::Comma, ","), (TokenKind::Ident, "b")]);
    let (q, end) = parse_media_query(&input, 0, true).unwrap();
    assert!(matches!(q, MediaQuery::Text(ref t) if t.value == "a"));
    assert_eq!(end, 1);
    let (q, end) = parse_media_query(&input, 0, false).unwrap();
    match q {
        MediaQuery::Comma { queries, span } => {
            assert_eq!(queries.len(), 2);
            assert_eq!(span, Span { lo: 0, hi: 3 });
        },
        other => panic!("unexpected {:?}", other),
    }
    assert_eq!(end, 3);
}

#[test]
fn media_or_and_nested_parens() {
    let input = lex(&[
        (TokenKind::LParen, "("),
        (TokenKind::LParen, "("),
        (TokenKind::Ident, "color"),
        (TokenKind::RParen, ")"),
        (TokenKind::RParen, ")"),
        (TokenKind::WhiteSpace, " "),
        (TokenKind::Ident, "or"),
        (TokenKind::WhiteSpace, " "),
        (TokenKind::Ident, "print"),
    ]);
    let (q, end) = parse_media_query(&input, 0, false).unwrap();
    assert_eq!(end, 9);
    match q {
        MediaQuery::Or { left, right, span } => {
            assert!(matches!(*left, MediaQuery::Text(ref t) if t.value == "color"));
            assert!(matches!(*right, MediaQuery::Text(ref t) if t.value == "print"));
            assert_eq!(span, Span { lo: 0, hi: 18 });
        },
        other => panic!("unexpected {:?}", other),
    }
}

#[test]
fn support_query_or() {
    let input = lex(&[
        (TokenKind::LParen, "("),
        (TokenKind::Ident, "a"),
        (TokenKind::Colon, ":"),
        (TokenKind::Ident, "b"),
        (TokenKind::RParen, ")"),
        (TokenKind::WhiteSpace, " "),
        (TokenKind::Ident, "or"),
        (TokenKind::LParen, "("),
        (TokenKind::Ident, "c"),
        (TokenKind::Colon, ":"),
        (TokenKind::Ident, "d"),
        (TokenKind::RParen, ")"),
    ]);
    let (q, end) = parse_support_query(&input, 0).unwrap();
    assert_eq!(end, 12);
    match q {
        SupportQuery::Or { span, .. } => assert_eq!(span, Span { lo: 0, hi: 13 }),
        other => panic!("unexpected {:?}", other),
    }
}

#[test]
fn keyframe_blocks_each_have_a_selector() {
    let input = lex(&[
        (TokenKind::AtKeyword, "keyframes"),
        (TokenKind::WhiteSpace, " "),
        (TokenKind::Ident, "k"),
        (TokenKind::LBrace, "{"),
        (TokenKind::Ident, "from"),
        (TokenKind::LBrace, "{"),
        (TokenKind::RBrace, "}"),
        (TokenKind::Percent, "10"),
        (TokenKind::LBrace, "{"),
        (TokenKind::RBrace, "}"),
        (TokenKind::RBrace, "}"),
    ]);
    match parse_at_rule(&input, 0).unwrap() {
        (AtRule::Keyframes { blocks, .. }, 11) => {
            assert_eq!(blocks.len(), 2);
            assert!(blocks.iter().all(|b| !b.selector.is_empty()));
        },
        other => panic!("unexpected {:?}", other),
    }
}

#[test]
fn every_parse_consumes_a_token() {
    let input = lex(&[(TokenKind::AtKeyword, "x")]);
    let (_, end) = parse_at_rule(&input, 0).unwrap();
    assert_eq!(end, 1);
}
