//! A verified parser for CSS at-rules (`@charset`, `@import`, `@keyframes`,
//! `@font-face`, `@supports`, `@media`, `@page`, `@document`, `@namespace`,
//! `@viewport` and unknown at-rules), working on a stream of CSS tokens.
//!
//! Every parser is an executable function whose result is proved equal to a
//! specification parser over the mathematical view of the token stream.
pub mod token;
pub mod error;
pub mod text;
pub mod ast;
pub mod cursor;
pub mod input;
pub mod component;
pub mod query;
pub mod page;
pub mod at_rule;
pub mod laws;
pub mod frame;
