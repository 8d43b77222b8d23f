pub mod grammar;
pub mod grammar_lemmas;
pub mod syntax_tree;

pub use syntax_tree::{ExpressionView, SyntaxError, SyntaxErrorView, SyntaxTree, ZodExpression};
