//! Parsing of arithmetic expressions (numbers, `+ - * / ^`, unary minus,
//! parentheses and implicit multiplication of adjacent groups) into a syntax tree.
pub mod ast;
pub mod laws;
pub mod parser;
pub mod token;
pub mod tokenizer;

pub use ast::Node;
pub use parser::{ParseError, Parser};
pub use token::{OperPrec, Token};
pub use tokenizer::Tokenizer;
