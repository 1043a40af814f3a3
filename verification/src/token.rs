use vstd::prelude::*;

verus! {

/// The kinds of CSS tokens the at-rule parser distinguishes.
#[derive(Clone, Copy, Debug, PartialEq, Eq, Structural)]
pub enum TokenKind {
    Ident,
    Function,
    AtKeyword,
    Hash,
    Str,
    BadStr,
    Url,
    BadUrl,
    Delim,
    Num,
    Percent,
    Dimension,
    WhiteSpace,
    Cdo,
    Cdc,
    Colon,
    Semi,
    Comma,
    LBracket,
    RBracket,
    LParen,
    RParen,
    LBrace,
    RBrace,
}

/// A region of the source text, as byte offsets `lo..hi`.
#[derive(Clone, Copy, Debug, PartialEq, Eq, Structural)]
pub struct Span {
    pub lo: u32,
    pub hi: u32,
}

/// A token: its kind, its unescaped `value` and the `raw` source text.
///
/// For an identifier, function name, at-keyword, hash, string or url the
/// value is its (unescaped) text; for a number, percentage or dimension it is
/// the numeric text; for a delimiter it is the delimiter character; for
/// punctuation and whitespace it is empty.
#[derive(Debug, PartialEq, Eq)]
pub struct Token {
    pub kind: TokenKind,
    pub value: String,
    pub raw: String,
}

/// A token with the span it was read from.
#[derive(Debug, PartialEq, Eq)]
pub struct TokenAndSpan {
    pub span: Span,
    pub token: Token,
}

/// The mathematical view of a token with its span.
pub struct SpecToken {
    pub span: Span,
    pub kind: TokenKind,
    pub value: Seq<char>,
    pub raw: Seq<char>,
}

impl View for TokenAndSpan {
    type V = SpecToken;

    open spec fn view(&self) -> SpecToken {
        SpecToken {
            span: self.span,
            kind: self.token.kind,
            value: self.token.value@,
            raw: self.token.raw@,
        }
    }
}

/// The view of a run of tokens.
pub open spec fn tokens_view(v: Seq<TokenAndSpan>) -> Seq<SpecToken> {
    v.map_values(|t: TokenAndSpan| t@)
}

/// Viewing a run extended by one token extends its view by that token's view.
pub proof fn lemma_tokens_view_push(s: Seq<TokenAndSpan>, t: TokenAndSpan)
    ensures
        tokens_view(s.push(t)) == tokens_view(s).push(t@),
{
    assert(tokens_view(s.push(t)) =~= tokens_view(s).push(t@));
}

/// Copies a token; the copy has the same view.
pub fn copy_token(t: &TokenAndSpan) -> (r: TokenAndSpan)
    ensures
        r@ == t@,
{
    TokenAndSpan {
        span: t.span,
        token: Token { kind: t.token.kind, value: t.token.value.clone(), raw: t.token.raw.clone() },
    }
}

/// Copies the tokens `input[from..to]`.
pub fn copy_tokens(input: &Vec<TokenAndSpan>, from: usize, to: usize) -> (r: Vec<TokenAndSpan>)
    requires
        from <= to <= input.len(),
    ensures
        tokens_view(r@) == tokens_view(input@).subrange(from as int, to as int),
{
    let mut r: Vec<TokenAndSpan> = Vec::new();
    let mut i = from;
    while i < to
        invariant
            from <= i <= to <= input.len(),
            tokens_view(r@) == tokens_view(input@).subrange(from as int, i as int),
        decreases to - i,
    {
        let t = copy_token(&input[i]);
        let ghost before = r@;
        r.push(t);
        proof {
            lemma_tokens_view_push(before, t);
            assert(tokens_view(input@).subrange(from as int, i + 1) =~= tokens_view(input@).subrange(
                from as int,
                i as int,
            ).push(input@[i as int]@));
        }
        i += 1;
    }
    r
}

} // verus!
