//! A tree-walking interpreter for a small, dynamically typed expression
//! language: a scanner over grapheme clusters, a recursive-descent parser
//! that recovers at statement boundaries, and an evaluator.
//!
//! Every function is verified against a contract stated over mathematical
//! models of the data: sequences of characters for text, views of tokens and
//! syntax trees, and spec functions that define scanning, parsing and
//! evaluation.
pub mod ast;
pub mod ast_printer;
pub mod error_logger;
pub mod errors;
pub mod grammar;
pub mod interpreter;
pub mod language_utilities;
pub mod lexis;
pub mod parser;
pub mod scanner;
pub mod session;
pub mod source_file;
pub mod text;
pub mod token;
