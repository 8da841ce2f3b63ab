//! Lexical analysis and expression parsing for a small scripting language.
//!
//! Source bytes are scanned into positioned tokens by the lexer, and a token
//! stream is turned into an expression tree by the parser. Every executable
//! function carries a contract over the mathematical models defined next to
//! it.

pub mod lexer;
pub mod message;
pub mod parser;
pub mod repl;
