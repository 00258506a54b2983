//! Converts a restricted dialect of Markdown into HTML.
//!
//! The block parser walks the document line by line, hands each multi-line
//! element to its own sub-parser and formats the text inside the elements
//! with a fixed sequence of rewriting passes. The converter puts the
//! result into a page.
//!
//! Every function states what it computes as a function on sequences of
//! characters. What the `regex` and `syntect` crates compute is given a
//! name in those statements and is otherwise taken on trust.

pub mod text;
pub mod lines;
pub mod pattern;
pub mod inline;
pub mod element;
pub mod list;
pub mod nesting;
pub mod fence;
pub mod code_block;
pub mod math_block;
pub mod table;
pub mod parser;
pub mod laws;
pub mod error;
pub mod utils;
pub mod converter;
pub mod toc;
pub mod highlight;
