use vstd::prelude::*;
use crate::token::{Span, SpecToken, TokenAndSpan, tokens_view};

verus! {

// ---------------------------------------------------------------------------
// Leaves
// ---------------------------------------------------------------------------

/// An identifier or a string as it appears in a rule.
#[derive(Debug, PartialEq, Eq)]
pub struct Text {
    pub span: Span,
    pub value: String,
    pub raw: String,
}

/// A string; it has the same shape as [`Text`].
pub type Str = Text;

/// A `url(...)` token.
#[derive(Debug, PartialEq, Eq)]
pub struct UrlValue {
    pub span: Span,
    pub url: String,
    pub raw: String,
}

/// A percentage, such as `50%`; `value` is its numeric text.
#[derive(Debug, PartialEq, Eq)]
pub struct Percent {
    pub span: Span,
    pub value: String,
}

/// A run of tokens kept as they are, with the span it covers.
#[derive(Debug, PartialEq, Eq)]
pub struct Tokens {
    pub span: Span,
    pub tokens: Vec<TokenAndSpan>,
}

/// A `{ ... }` block: its span covers the braces, its tokens are those
/// between them.
pub type SimpleBlock = Tokens;

/// A function such as `url-prefix("x")`: its name and the tokens between the
/// parentheses.
#[derive(Debug, PartialEq, Eq)]
pub struct Function {
    pub span: Span,
    pub name: Text,
    pub value: Vec<TokenAndSpan>,
}

/// A document matcher of `@document`.
#[derive(Debug, PartialEq, Eq)]
pub enum FnValue {
    Function(Function),
    Url(UrlValue),
}

/// What `@import` imports.
#[derive(Debug, PartialEq, Eq)]
pub enum ImportSource {
    Str(Str),
    Fn(Function),
    Url(UrlValue),
}

/// `property: value`, the value kept as tokens.
#[derive(Debug, PartialEq, Eq)]
pub struct Declaration {
    pub span: Span,
    pub property: Text,
    pub value: Tokens,
}

/// The value of `@namespace`.
#[derive(Debug, PartialEq, Eq)]
pub enum NamespaceValue {
    Url(UrlValue),
    Str(Str),
}

/// A keyframe selector: `from`, `to` or a percentage.
#[derive(Debug, PartialEq, Eq)]
pub enum KeyframeSelector {
    Id(Text),
    Percent(Percent),
}

/// A page selector such as `:first` or `name:left`.
#[derive(Debug, PartialEq, Eq)]
pub struct PageSelector {
    pub span: Span,
    pub ident: Option<Text>,
    pub pseudo: Option<Text>,
}

// ---------------------------------------------------------------------------
// Queries and rules
// ---------------------------------------------------------------------------

/// A media query.
#[derive(Debug, PartialEq, Eq)]
pub enum MediaQuery {
    Text(Text),
    And { span: Span, left: Box<MediaQuery>, right: Box<MediaQuery> },
    Or { span: Span, left: Box<MediaQuery>, right: Box<MediaQuery> },
    Not { span: Span, query: Box<MediaQuery> },
    Only { span: Span, query: Box<MediaQuery> },
    Declaration(Declaration),
    Comma { span: Span, queries: Vec<MediaQuery> },
}

/// A `@supports` condition.
#[derive(Debug, PartialEq, Eq)]
pub enum SupportQuery {
    Not { span: Span, query: Box<SupportQuery> },
    And { span: Span, left: Box<SupportQuery>, right: Box<SupportQuery> },
    Or { span: Span, left: Box<SupportQuery>, right: Box<SupportQuery> },
    Paren { span: Span, query: Box<SupportQuery> },
    Declaration(Declaration),
}

/// One block of `@keyframes`: its selectors and its rule.
#[derive(Debug, PartialEq, Eq)]
pub struct KeyframeBlock {
    pub span: Span,
    pub selector: Vec<KeyframeSelector>,
    pub rule: KeyframeBlockRule,
}

/// The rule of a keyframe block: a block of declarations or a nested at-rule.
#[derive(Debug, PartialEq, Eq)]
pub enum KeyframeBlockRule {
    Block(Box<SimpleBlock>),
    AtRule(Box<AtRule>),
}

/// `@page selectors { ... }`.
#[derive(Debug, PartialEq, Eq)]
pub struct PageRule {
    pub span: Span,
    pub prelude: Vec<PageSelector>,
    pub block: PageRuleBlock,
}

/// The `{ ... }` of a page rule.
#[derive(Debug, PartialEq, Eq)]
pub struct PageRuleBlock {
    pub span: Span,
    pub items: Vec<PageRuleBlockItem>,
}

/// An item of a page rule block.
#[derive(Debug, PartialEq, Eq)]
pub enum PageRuleBlockItem {
    Declaration(Box<Declaration>),
    Nested(Box<NestedPageRule>),
}

/// A margin rule inside a page rule, such as `@top-left { ... }`.
#[derive(Debug, PartialEq, Eq)]
pub struct NestedPageRule {
    pub span: Span,
    pub prelude: Tokens,
    pub block: PageRuleBlock,
}

/// `@document matchers { rules }`.
#[derive(Debug, PartialEq, Eq)]
pub struct DocumentRule {
    pub span: Span,
    pub selectors: Vec<FnValue>,
    pub block: Tokens,
}

/// An at-rule.
#[derive(Debug, PartialEq, Eq)]
#[allow(inconsistent_fields)]
pub enum AtRule {
    Charset { span: Span, charset: Str },
    Import { span: Span, src: ImportSource, condition: Option<MediaQuery> },
    Keyframes { span: Span, id: Text, blocks: Vec<KeyframeBlock> },
    FontFace { span: Span, block: SimpleBlock },
    Supports { span: Span, query: SupportQuery, rules: Tokens },
    Media { span: Span, query: MediaQuery, rules: Tokens },
    Page(PageRule),
    Document(DocumentRule),
    Namespace { span: Span, prefix: Text, value: NamespaceValue },
    Viewport { span: Span, block: SimpleBlock },
    Unknown { span: Span, name: Text, tokens: Tokens },
}

// ---------------------------------------------------------------------------
// Mathematical views
// ---------------------------------------------------------------------------

pub struct SpecText {
    pub span: Span,
    pub value: Seq<char>,
    pub raw: Seq<char>,
}

pub struct SpecUrlValue {
    pub span: Span,
    pub url: Seq<char>,
    pub raw: Seq<char>,
}

pub struct SpecPercent {
    pub span: Span,
    pub value: Seq<char>,
}

pub struct SpecTokens {
    pub span: Span,
    pub tokens: Seq<SpecToken>,
}

pub struct SpecFunction {
    pub span: Span,
    pub name: SpecText,
    pub value: Seq<SpecToken>,
}

pub enum SpecFnValue {
    Function(SpecFunction),
    Url(SpecUrlValue),
}

pub enum SpecImportSource {
    Str(SpecText),
    Fn(SpecFunction),
    Url(SpecUrlValue),
}

pub struct SpecDeclaration {
    pub span: Span,
    pub property: SpecText,
    pub value: SpecTokens,
}

pub enum SpecNamespaceValue {
    Url(SpecUrlValue),
    Str(SpecText),
}

pub enum SpecKeyframeSelector {
    Id(SpecText),
    Percent(SpecPercent),
}

pub struct SpecPageSelector {
    pub span: Span,
    pub ident: Option<SpecText>,
    pub pseudo: Option<SpecText>,
}

pub enum SpecMediaQuery {
    Text(SpecText),
    And { span: Span, left: Box<SpecMediaQuery>, right: Box<SpecMediaQuery> },
    Or { span: Span, left: Box<SpecMediaQuery>, right: Box<SpecMediaQuery> },
    Not { span: Span, query: Box<SpecMediaQuery> },
    Only { span: Span, query: Box<SpecMediaQuery> },
    Declaration(SpecDeclaration),
    Comma { span: Span, queries: Seq<SpecMediaQuery> },
}

pub enum SpecSupportQuery {
    Not { span: Span, query: Box<SpecSupportQuery> },
    And { span: Span, left: Box<SpecSupportQuery>, right: Box<SpecSupportQuery> },
    Or { span: Span, left: Box<SpecSupportQuery>, right: Box<SpecSupportQuery> },
    Paren { span: Span, query: Box<SpecSupportQuery> },
    Declaration(SpecDeclaration),
}

pub struct SpecKeyframeBlock {
    pub span: Span,
    pub selector: Seq<SpecKeyframeSelector>,
    pub rule: SpecKeyframeBlockRule,
}

pub enum SpecKeyframeBlockRule {
    Block(SpecTokens),
    AtRule(Box<SpecAtRule>),
}

pub struct SpecPageRule {
    pub span: Span,
    pub prelude: Seq<SpecPageSelector>,
    pub block: SpecPageRuleBlock,
}

pub struct SpecPageRuleBlock {
    pub span: Span,
    pub items: Seq<SpecPageRuleBlockItem>,
}

pub enum SpecPageRuleBlockItem {
    Declaration(SpecDeclaration),
    Nested(Box<SpecNestedPageRule>),
}

pub struct SpecNestedPageRule {
    pub span: Span,
    pub prelude: SpecTokens,
    pub block: SpecPageRuleBlock,
}

pub struct SpecDocumentRule {
    pub span: Span,
    pub selectors: Seq<SpecFnValue>,
    pub block: SpecTokens,
}

#[allow(inconsistent_fields)]
pub enum SpecAtRule {
    Charset { span: Span, charset: SpecText },
    Import { span: Span, src: SpecImportSource, condition: Option<SpecMediaQuery> },
    Keyframes { span: Span, id: SpecText, blocks: Seq<SpecKeyframeBlock> },
    FontFace { span: Span, block: SpecTokens },
    Supports { span: Span, query: SpecSupportQuery, rules: SpecTokens },
    Media { span: Span, query: SpecMediaQuery, rules: SpecTokens },
    Page(SpecPageRule),
    Document(SpecDocumentRule),
    Namespace { span: Span, prefix: SpecText, value: SpecNamespaceValue },
    Viewport { span: Span, block: SpecTokens },
    Unknown { span: Span, name: SpecText, tokens: SpecTokens },
}

impl View for Text {
    type V = SpecText;

    open spec fn view(&self) -> SpecText {
        SpecText { span: self.span, value: self.value@, raw: self.raw@ }
    }
}

impl View for UrlValue {
    type V = SpecUrlValue;

    open spec fn view(&self) -> SpecUrlValue {
        SpecUrlValue { span: self.span, url: self.url@, raw: self.raw@ }
    }
}

impl View for Percent {
    type V = SpecPercent;

    open spec fn view(&self) -> SpecPercent {
        SpecPercent { span: self.span, value: self.value@ }
    }
}

impl View for Tokens {
    type V = SpecTokens;

    open spec fn view(&self) -> SpecTokens {
        SpecTokens { span: self.span, tokens: tokens_view(self.tokens@) }
    }
}

impl View for Function {
    type V = SpecFunction;

    open spec fn view(&self) -> SpecFunction {
        SpecFunction { span: self.span, name: self.name@, value: tokens_view(self.value@) }
    }
}

impl View for FnValue {
    type V = SpecFnValue;

    open spec fn view(&self) -> SpecFnValue {
        match self {
            FnValue::Function(f) => SpecFnValue::Function(f@),
            FnValue::Url(u) => SpecFnValue::Url(u@),
        }
    }
}

impl View for ImportSource {
    type V = SpecImportSource;

    open spec fn view(&self) -> SpecImportSource {
        match self {
            ImportSource::Str(s) => SpecImportSource::Str(s@),
            ImportSource::Fn(f) => SpecImportSource::Fn(f@),
            ImportSource::Url(u) => SpecImportSource::Url(u@),
        }
    }
}

impl View for Declaration {
    type V = SpecDeclaration;

    open spec fn view(&self) -> SpecDeclaration {
        SpecDeclaration { span: self.span, property: self.property@, value: self.value@ }
    }
}

impl View for NamespaceValue {
    type V = SpecNamespaceValue;

    open spec fn view(&self) -> SpecNamespaceValue {
        match self {
            NamespaceValue::Url(u) => SpecNamespaceValue::Url(u@),
            NamespaceValue::Str(s) => SpecNamespaceValue::Str(s@),
        }
    }
}

impl View for KeyframeSelector {
    type V = SpecKeyframeSelector;

    open spec fn view(&self) -> SpecKeyframeSelector {
        match self {
            KeyframeSelector::Id(t) => SpecKeyframeSelector::Id(t@),
            KeyframeSelector::Percent(p) => SpecKeyframeSelector::Percent(p@),
        }
    }
}

impl View for PageSelector {
    type V = SpecPageSelector;

    open spec fn view(&self) -> SpecPageSelector {
        SpecPageSelector {
            span: self.span,
            ident: match self.ident {
                Some(t) => Some(t@),
                None => None,
            },
            pseudo: match self.pseudo {
                Some(t) => Some(t@),
                None => None,
            },
        }
    }
}

/// The view of a run of keyframe selectors.
pub open spec fn keyframe_selectors_view(s: Seq<KeyframeSelector>) -> Seq<SpecKeyframeSelector> {
    s.map_values(|x: KeyframeSelector| x@)
}

/// The view of a run of page selectors.
pub open spec fn page_selectors_view(s: Seq<PageSelector>) -> Seq<SpecPageSelector> {
    s.map_values(|x: PageSelector| x@)
}

/// The view of a run of document matchers.
pub open spec fn fn_values_view(s: Seq<FnValue>) -> Seq<SpecFnValue> {
    s.map_values(|x: FnValue| x@)
}

pub open spec fn media_query_view(q: MediaQuery) -> SpecMediaQuery
    decreases q,
{
    match q {
        MediaQuery::Text(t) => SpecMediaQuery::Text(t@),
        MediaQuery::And { span, left, right } => SpecMediaQuery::And {
            span,
            left: Box::new(media_query_view(*left)),
            right: Box::new(media_query_view(*right)),
        },
        MediaQuery::Or { span, left, right } => SpecMediaQuery::Or {
            span,
            left: Box::new(media_query_view(*left)),
            right: Box::new(media_query_view(*right)),
        },
        MediaQuery::Not { span, query } => SpecMediaQuery::Not {
            span,
            query: Box::new(media_query_view(*query)),
        },
        MediaQuery::Only { span, query } => SpecMediaQuery::Only {
            span,
            query: Box::new(media_query_view(*query)),
        },
        MediaQuery::Declaration(d) => SpecMediaQuery::Declaration(d@),
        MediaQuery::Comma { span, queries } => SpecMediaQuery::Comma {
            span,
            queries: media_queries_view(queries@),
        },
    }
}

pub open spec fn media_queries_view(s: Seq<MediaQuery>) -> Seq<SpecMediaQuery>
    decreases s,
{
    if s.len() == 0 {
        Seq::empty()
    } else {
        media_queries_view(s.drop_last()).push(media_query_view(s.last()))
    }
}

impl View for MediaQuery {
    type V = SpecMediaQuery;

    open spec fn view(&self) -> SpecMediaQuery {
        media_query_view(*self)
    }
}

pub open spec fn support_query_view(q: SupportQuery) -> SpecSupportQuery
    decreases q,
{
    match q {
        SupportQuery::Not { span, query } => SpecSupportQuery::Not {
            span,
            query: Box::new(support_query_view(*query)),
        },
        SupportQuery::And { span, left, right } => SpecSupportQuery::And {
            span,
            left: Box::new(support_query_view(*left)),
            right: Box::new(support_query_view(*right)),
        },
        SupportQuery::Or { span, left, right } => SpecSupportQuery::Or {
            span,
            left: Box::new(support_query_view(*left)),
            right: Box::new(support_query_view(*right)),
        },
        SupportQuery::Paren { span, query } => SpecSupportQuery::Paren {
            span,
            query: Box::new(support_query_view(*query)),
        },
        SupportQuery::Declaration(d) => SpecSupportQuery::Declaration(d@),
    }
}

impl View for SupportQuery {
    type V = SpecSupportQuery;

    open spec fn view(&self) -> SpecSupportQuery {
        support_query_view(*self)
    }
}

pub open spec fn page_rule_block_view(b: PageRuleBlock) -> SpecPageRuleBlock
    decreases b,
{
    SpecPageRuleBlock { span: b.span, items: page_items_view(b.items@) }
}

pub open spec fn page_items_view(s: Seq<PageRuleBlockItem>) -> Seq<SpecPageRuleBlockItem>
    decreases s,
{
    if s.len() == 0 {
        Seq::empty()
    } else {
        page_items_view(s.drop_last()).push(page_item_view(s.last()))
    }
}

pub open spec fn page_item_view(i: PageRuleBlockItem) -> SpecPageRuleBlockItem
    decreases i,
{
    match i {
        PageRuleBlockItem::Declaration(d) => SpecPageRuleBlockItem::Declaration((*d)@),
        PageRuleBlockItem::Nested(n) => SpecPageRuleBlockItem::Nested(
            Box::new(nested_page_rule_view(*n)),
        ),
    }
}

pub open spec fn nested_page_rule_view(n: NestedPageRule) -> SpecNestedPageRule
    decreases n,
{
    SpecNestedPageRule { span: n.span, prelude: n.prelude@, block: page_rule_block_view(n.block) }
}

impl View for PageRuleBlock {
    type V = SpecPageRuleBlock;

    open spec fn view(&self) -> SpecPageRuleBlock {
        page_rule_block_view(*self)
    }
}

impl View for PageRuleBlockItem {
    type V = SpecPageRuleBlockItem;

    open spec fn view(&self) -> SpecPageRuleBlockItem {
        page_item_view(*self)
    }
}

impl View for NestedPageRule {
    type V = SpecNestedPageRule;

    open spec fn view(&self) -> SpecNestedPageRule {
        nested_page_rule_view(*self)
    }
}

impl View for PageRule {
    type V = SpecPageRule;

    open spec fn view(&self) -> SpecPageRule {
        SpecPageRule {
            span: self.span,
            prelude: page_selectors_view(self.prelude@),
            block: self.block@,
        }
    }
}

impl View for DocumentRule {
    type V = SpecDocumentRule;

    open spec fn view(&self) -> SpecDocumentRule {
        SpecDocumentRule {
            span: self.span,
            selectors: fn_values_view(self.selectors@),
            block: self.block@,
        }
    }
}

pub open spec fn at_rule_view(r: AtRule) -> SpecAtRule
    decreases r,
{
    match r {
        AtRule::Charset { span, charset } => SpecAtRule::Charset { span, charset: charset@ },
        AtRule::Import { span, src, condition } => SpecAtRule::Import {
            span,
            src: src@,
            condition: match condition {
                Some(c) => Some(c@),
                None => None,
            },
        },
        AtRule::Keyframes { span, id, blocks } => SpecAtRule::Keyframes {
            span,
            id: id@,
            blocks: keyframe_blocks_view(blocks@),
        },
        AtRule::FontFace { span, block } => SpecAtRule::FontFace { span, block: block@ },
        AtRule::Supports { span, query, rules } => SpecAtRule::Supports {
            span,
            query: query@,
            rules: rules@,
        },
        AtRule::Media { span, query, rules } => SpecAtRule::Media {
            span,
            query: query@,
            rules: rules@,
        },
        AtRule::Page(p) => SpecAtRule::Page(p@),
        AtRule::Document(d) => SpecAtRule::Document(d@),
        AtRule::Namespace { span, prefix, value } => SpecAtRule::Namespace {
            span,
            prefix: prefix@,
            value: value@,
        },
        AtRule::Viewport { span, block } => SpecAtRule::Viewport { span, block: block@ },
        AtRule::Unknown { span, name, tokens } => SpecAtRule::Unknown {
            span,
            name: name@,
            tokens: tokens@,
        },
    }
}

pub open spec fn keyframe_blocks_view(s: Seq<KeyframeBlock>) -> Seq<SpecKeyframeBlock>
    decreases s,
{
    if s.len() == 0 {
        Seq::empty()
    } else {
        keyframe_blocks_view(s.drop_last()).push(keyframe_block_view(s.last()))
    }
}

pub open spec fn keyframe_block_view(b: KeyframeBlock) -> SpecKeyframeBlock
    decreases b,
{
    SpecKeyframeBlock {
        span: b.span,
        selector: keyframe_selectors_view(b.selector@),
        rule: keyframe_block_rule_view(b.rule),
    }
}

pub open spec fn keyframe_block_rule_view(r: KeyframeBlockRule) -> SpecKeyframeBlockRule
    decreases r,
{
    match r {
        KeyframeBlockRule::Block(b) => SpecKeyframeBlockRule::Block((*b)@),
        KeyframeBlockRule::AtRule(a) => SpecKeyframeBlockRule::AtRule(Box::new(at_rule_view(*a))),
    }
}

impl View for AtRule {
    type V = SpecAtRule;

    open spec fn view(&self) -> SpecAtRule {
        at_rule_view(*self)
    }
}

impl View for KeyframeBlock {
    type V = SpecKeyframeBlock;

    open spec fn view(&self) -> SpecKeyframeBlock {
        keyframe_block_view(*self)
    }
}

impl View for KeyframeBlockRule {
    type V = SpecKeyframeBlockRule;

    open spec fn view(&self) -> SpecKeyframeBlockRule {
        keyframe_block_rule_view(*self)
    }
}

} // verus!
