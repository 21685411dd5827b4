//! A proof assistant for Peano arithmetic in the style of a typographical number theory:
//! terms and formulas, the inference rules that derive formulas from formulas, a lexer and
//! a parser for the textual syntax, and an interactive session that records a proof line by
//! line.

pub mod ast;
pub mod display;
pub mod error;
pub mod laws;
pub mod lexer;
pub mod parser;
pub mod repl;
pub mod text;
pub mod token;
