# CSS at-rule parser, verified

A parser for CSS at-rules (`@charset`, `@import`, `@keyframes`, `@font-face`,
`@supports`, `@media`, `@page`, `@document`, `@namespace`, `@viewport` and
unknown at-rules) over a stream of CSS tokens, written in Verus.

Each parser comes twice: a specification parser (`spec_parse_*`) over the
mathematical view of the token stream, and an executable parser (`parse_*`)
whose `ensures` says that its result, by view, and the number of tokens it
consumed are exactly those of the specification parser, or that it fails with
the same error. Every successful parse consumes at least one token and ends
within the input.

## Layout

- `src/token.rs`: token kinds, spans, tokens and their views.
- `src/error.rs`: parse errors.
- `src/text.rs`: ASCII lower-casing of names.
- `src/ast.rs`: the syntax tree and its specification mirror.
- `src/cursor.rs`, `src/input.rs`: reading the token stream (whitespace,
  spans, errors), in specification and executable form.
- `src/component.rs`: identifiers, strings, percentages, functions, blocks,
  declarations.
- `src/query.rs`: media queries and `@supports` conditions.
- `src/page.rs`: `@page` selectors, blocks and margin rules.
- `src/at_rule.rs`: the dispatch on the at-keyword and each at-rule.
- `src/laws.rs`: properties across parsers: leading whitespace, comma-free
  media queries, rule spans, keyframe selectors, case of at-rule names.
- `src/frame.rs`: what each parser reads, used to compare two token streams.
- `tests/`: scenarios on concrete token streams.
