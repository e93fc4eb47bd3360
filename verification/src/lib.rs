//! A verified operator-precedence ("Pratt") parsing engine.
//!
//! The engine turns a stream of tokens into an expression tree by
//! associating each token *kind* with up to two rules: a prefix (null)
//! rule, used when the token starts an expression, and an infix (left)
//! rule, used when the token continues one. Binding powers attached to
//! the rules encode operator precedence and associativity.

pub mod errors;
pub mod lexer;
pub mod node;
pub mod parser;
pub mod precedence;
pub mod specification;
pub mod token;
