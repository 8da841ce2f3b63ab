pub mod lexer;
pub mod lexer_error;
pub mod scan;
pub mod token;

pub use lexer::Lexer;
pub use lexer_error::{LexErrorKind, LexerError, ParseTokenError};
pub use token::{Token, TokenKind};
