pub mod compiler;
pub mod lexer;
pub mod strings;
pub mod syntax_tree;

pub use compiler::{get_syntax_tree, to_json};
