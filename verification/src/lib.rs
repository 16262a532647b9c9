//! UnTeX: tools for manipulating TeX and LaTeX documents.
//!
//! The crate is organised around a byte-level tokenizer for LaTeX sources
//! (`latex::token`), a family of highlighting state machines over the token
//! stream (`latex::highlight`), and formatters that rewrite the stream and
//! render it back to bytes (`latex::format`). A coarser TeX token set lives
//! in `token` with its lexers in `lexer`, a character stream with line
//! counting in `chars`, a recogniser for the overall document shape in
//! `parse`, and the classic table of TeX category codes in
//! `tex::category_codes`. The byte classes and run scanning the tokenizers
//! share sit in `scanning`; `span` holds the byte ranges every token is
//! paired with.

pub mod chars;
pub mod error;
pub mod latex;
pub mod lexer;
pub mod parse;
pub mod prelude;
pub mod scanning;
pub mod span;
pub mod tex;
pub mod token;
