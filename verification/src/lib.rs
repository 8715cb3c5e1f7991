//! A small transpiler: it parses a brace-delimited source language into a
//! typed abstract syntax tree and generates indentation-based target text
//! from that tree.
//!
//! The pipeline is `parse_bython_code` (text to AST) followed by
//! `generate_python_code` (AST to text). Both directions are specified
//! against spec-level grammar and generation functions, so the text a
//! program generates is pinned down exactly by its tree, and a parse
//! succeeds exactly on the texts the grammar accepts.

pub mod ast;
pub mod codegen;
pub mod grammar;
pub mod laws;
pub mod parser;

pub use ast::Block;
pub use ast::Expression;
pub use ast::Operator;
pub use ast::Program;
pub use ast::Statement;
pub use codegen::generate_python_code;
pub use parser::BythonParseError;
pub use parser::BythonParser;
pub use parser::ParseErrorKind;
pub use parser::parse_bython_code;
