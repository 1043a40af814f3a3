use lib::at_rule::parse_at_rule;
use lib::component::{
    parse_declaration, parse_function, parse_id, parse_percent, parse_rule_list, parse_str,
};
use lib::error::{Error, ErrorKind, Expectation};
use lib::token::{Span, Token, TokenAndSpan, TokenKind};

/// Token stream with spans laid end to end from offset 0.
fn stream(items: &[(TokenKind, &str)]) -> Vec<TokenAndSpan> {
    let mut at = 0u32;
    let mut out = Vec::new();
    for (kind, text) in items {
        let len = text.chars().count() as u32;
        out.push(TokenAndSpan {
            span: Span { lo: at, hi: at + len },
            token: Token { kind: *kind, value: text.to_string(), raw: text.to_string() },
        });
        at += len;
    }
    out
}

#[test]
fn id_expected() {
    let input = stream(&[(TokenKind::Str, "a")]);
    assert_eq!(
        parse_id(&input, 0),
        Err(Error { span: Span { lo: 0, hi: 1 }, kind: ErrorKind::Expected(Expectation::Ident) })
    );
}

#[test]
fn str_expected() {
    let input = stream(&[(TokenKind::Ident, "abc")]);
    assert_eq!(
        parse_str(&input, 0),
        Err(Error { span: Span { lo: 0, hi: 3 }, kind: ErrorKind::Expected(Expectation::Str) })
    );
}

#[test]
fn percent_expected() {
    let input = stream(&[(TokenKind::Num, "50")]);
    assert_eq!(
        parse_percent(&input, 0).unwrap_err().kind,
        ErrorKind::Expected(Expectation::Percent)
    );
}

#[test]
fn function_expected() {
    let input = stream(&[(TokenKind::Ident, "url")]);
    assert_eq!(
        parse_function(&input, 0).unwrap_err().kind,
        ErrorKind::Expected(Expectation::Function)
    );
}

#[test]
fn id_at_end_of_input_is_expected_at_last_position() {
    let input = stream(&[(TokenKind::Ident, "ab")]);
    assert_eq!(
        parse_id(&input, 1),
        Err(Error { span: Span { lo: 2, hi: 2 }, kind: ErrorKind::Expected(Expectation::Ident) })
    );
}

#[test]
fn function_with_nested_parentheses() {
    let input = stream(&[
        (TokenKind::Function, "calc"),
        (TokenKind::LParen, "("),
        (TokenKind::Num, "1"),
        (TokenKind::RParen, ")"),
        (TokenKind::RParen, ")"),
        (TokenKind::Semi, ";"),
    ]);
    let (f, end) = parse_function(&input, 0).unwrap();
    assert_eq!(end, 5);
    assert_eq!(f.name.value, "calc");
    assert_eq!(f.value.len(), 3);
    assert_eq!(f.span, Span { lo: 0, hi: 8 });
}

#[test]
fn declaration_value_runs_to_semicolon() {
    let input = stream(&[
        (TokenKind::Ident, "color"),
        (TokenKind::Colon, ":"),
        (TokenKind::WhiteSpace, " "),
        (TokenKind::Ident, "red"),
        (TokenKind::WhiteSpace, " "),
        (TokenKind::Semi, ";"),
    ]);
    let (d, end) = parse_declaration(&input, 0).unwrap();
    assert_eq!(end, 5);
    assert_eq!(d.property.value, "color");
    assert_eq!(d.span, Span { lo: 0, hi: 11 });
    assert_eq!(d.value.tokens.len(), 2);
    assert_eq!(d.value.span, Span { lo: 7, hi: 11 });
}

#[test]
fn rule_list_stops_at_closing_brace() {
    let input = stream(&[
        (TokenKind::LBrace, "{"),
        (TokenKind::Ident, "a"),
        (TokenKind::LBrace, "{"),
        (TokenKind::Ident, "b"),
        (TokenKind::RBrace, "}"),
        (TokenKind::RBrace, "}"),
    ]);
    let (rules, end) = parse_rule_list(&input, 1);
    assert_eq!(end, 5);
    assert_eq!(rules.tokens.len(), 4);
    assert_eq!(rules.span, Span { lo: 1, hi: 5 });
}

#[test]
fn page_pseudo_needs_an_identifier() {
    let input = stream(&[
        (TokenKind::AtKeyword, "page"),
        (TokenKind::WhiteSpace, " "),
        (TokenKind::Colon, ":"),
        (TokenKind::LBrace, "{"),
        (TokenKind::RBrace, "}"),
    ]);
    assert_eq!(
        parse_at_rule(&input, 0).unwrap_err(),
        Error { span: Span { lo: 6, hi: 7 }, kind: ErrorKind::Expected(Expectation::Ident) }
    );
}
