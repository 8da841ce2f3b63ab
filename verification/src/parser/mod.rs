pub mod expression;
pub mod grammar;
pub mod laws;
pub mod parser;

pub use expression::Expression;
pub use grammar::{Level, MAX_DEPTH};
pub use parser::{ParseError, Parser};
