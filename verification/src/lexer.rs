pub mod chars;
pub mod lexer;
pub mod token;

pub use lexer::Lexer;
pub use token::{Token, TokenView};
