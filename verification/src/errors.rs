//! The error taxonomy threaded through every fallible parsing
//! operation.
//!
//! Every failure is an explicit return value; the engine performs no
//! blanket recovery. A caller may inspect an error and recover, for
//! example by treating a `ConsumeFailed` as evidence of an alternate
//! terminator rather than a hard error.

use vstd::prelude::*;
use crate::node::Node;

verus! {

/// Which rule table a failed lookup was made in.
#[derive(Clone, Copy, Debug, Eq, Hash, Ord, PartialEq, PartialOrd)]
pub enum RuleType {
    /// The prefix table, consulted when a token starts an expression.
    Null,
    /// The infix table, consulted when a token continues an expression.
    Left,
}

/// What went wrong during parsing.
#[derive(Debug, Eq, Hash, Ord, PartialEq, PartialOrd)]
pub enum ParseError<T> {
    /// A rule found the input it was handed semantically malformed.
    /// Reserved for grammar rules; the engine itself never returns it.
    MalformedSyntax { node: Node<T>, token: T },
    /// No rule is registered in the named table for the token's kind.
    MissingRule { token: T, ty: RuleType },
    /// The token stream ended while the parsing context still required
    /// a token.
    Incomplete,
    /// `consume` required a specific next token and found another.
    ConsumeFailed { expected: T, found: T },
}

} // verus!
