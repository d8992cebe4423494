//! A tolerant parser for a component-template language: plain text, comments
//! and `{ ... }` mustache tags holding script expressions, turned into a
//! span-tracked syntax tree and an ordered list of diagnostics.
pub mod codegen;
pub mod cursor;
pub mod error;
pub mod expression;
pub mod nodes;
pub mod parser;
pub mod span;
pub mod state;
pub mod tokens;
