//! Named precedence ranks.
//!
//! Binding powers in the rule tables are plain `u32` values, so that a
//! grammar can place an operator's right binding power one notch under
//! its left binding power to make it right-associative. The ranks here
//! are a ladder of convenient named values, five apart, with `Root` as
//! the universal lower bound: a top-level parse runs at `Root` and so
//! consumes the maximal expression the grammar allows.

use vstd::prelude::*;

verus! {

/// A discrete, totally ordered set of binding-power ranks with a
/// defined minimum (`Root`).
#[derive(Clone, Copy, Debug, Eq, Hash, Ord, PartialEq, PartialOrd)]
pub enum PrecedenceLevel {
    Root,
    First,
    Second,
    Third,
    Fourth,
    Fifth,
    Sixth,
    Seventh,
    Eighth,
}

impl PrecedenceLevel {
    /// The binding power a rank stands for.
    pub open spec fn power_spec(self) -> u32 {
        match self {
            PrecedenceLevel::Root => 0,
            PrecedenceLevel::First => 5,
            PrecedenceLevel::Second => 10,
            PrecedenceLevel::Third => 15,
            PrecedenceLevel::Fourth => 20,
            PrecedenceLevel::Fifth => 25,
            PrecedenceLevel::Sixth => 30,
            PrecedenceLevel::Seventh => 35,
            PrecedenceLevel::Eighth => 40,
        }
    }

    /// Returns the binding power this rank stands for.
    pub fn power(self) -> (p: u32)
        ensures
            p == self.power_spec(),
    {
        match self {
            PrecedenceLevel::Root => 0,
            PrecedenceLevel::First => 5,
            PrecedenceLevel::Second => 10,
            PrecedenceLevel::Third => 15,
            PrecedenceLevel::Fourth => 20,
            PrecedenceLevel::Fifth => 25,
            PrecedenceLevel::Sixth => 30,
            PrecedenceLevel::Seventh => 35,
            PrecedenceLevel::Eighth => 40,
        }
    }
}

} // verus!
