//! The write-once rule table a grammar is declared through.
//!
//! A `ParserSpec` maps token kinds to rules, separately for the prefix
//! (null) role and the infix (left) role. At most one rule may stand
//! per kind per table: a second registration for the same kind is a
//! registration-time error, never a silent overwrite, which keeps a
//! grammar deterministic. Once a specification is handed to an engine
//! it is consumed, so the tables can never change mid-parse.

use vstd::prelude::*;
use std::collections::HashMap;
use crate::token::Token;

verus! {

broadcast use vstd::std_specs::hash::group_hash_axioms;

/// How a prefix (null) rule builds the start of an expression from the
/// token that carries it.
#[derive(Debug)]
pub enum NullRule<T> {
    /// The token is a complete operand by itself: it becomes a leaf.
    Leaf,
    /// A unary prefix operator: the engine parses one operand at the
    /// rule's binding power and wraps it under the token.
    PrefixOp,
    /// A grouping opener: the engine parses one full expression from
    /// the lowest threshold, consumes the held closing token, and
    /// returns the inner tree unchanged.
    Grouping(T),
}

impl<T: Token> NullRule<T> {
    /// Clones the rule; the copy provably equals the original.
    pub fn duplicate(&self) -> (r: Self)
        ensures
            r == *self,
    {
        match self {
            NullRule::Leaf => NullRule::Leaf,
            NullRule::PrefixOp => NullRule::PrefixOp,
            NullRule::Grouping(t) => NullRule::Grouping(t.clone_token()),
        }
    }
}

/// How an infix (left) rule extends an already-built left operand.
#[derive(Clone, Copy, Debug, Eq, PartialEq)]
pub enum LeftRule {
    /// A binary operator: the engine parses the right operand at the
    /// rule's right binding power and wraps both operands under the
    /// token.
    Binary,
    /// A postfix operator: the left operand alone is wrapped under the
    /// token; nothing more is consumed.
    Postfix,
}

/// A registration-time failure. Never raised during parsing.
#[derive(Clone, Debug, Eq, Hash, Ord, PartialEq, PartialOrd)]
pub enum SpecificationError<T> {
    /// A rule for this token's kind already stands in the table the
    /// registration addressed.
    TokenToRuleAlreadyDefined { tk: T },
}

/// The write-once mapping from token kind to rule, kept separately for
/// the prefix (null) and infix (left) roles. A prefix entry carries a
/// binding power; an infix entry carries a left and a right binding
/// power.
pub struct ParserSpec<T> {
    null_map: HashMap<u64, (u32, NullRule<T>)>,
    left_map: HashMap<u64, (u32, u32, LeftRule)>,
}

/// The effect of registering one prefix rule per token of `tokens`, in
/// order, stopping at the first token whose kind is already mapped:
/// the resulting table, and the offending token if one was hit.
pub open spec fn bulk_null_register<T: Token>(
    m: Map<u64, (u32, NullRule<T>)>,
    tokens: Seq<T>,
    bp: u32,
    rule: NullRule<T>,
) -> (Map<u64, (u32, NullRule<T>)>, Option<T>)
    decreases tokens.len(),
{
    if tokens.len() == 0 {
        (m, None)
    } else if m.contains_key(tokens[0].kind_spec()) {
        (m, Some(tokens[0]))
    } else {
        bulk_null_register(
            m.insert(tokens[0].kind_spec(), (bp, rule)),
            tokens.drop_first(),
            bp,
            rule,
        )
    }
}

/// The effect of registering one infix rule per token of `tokens`, in
/// order, stopping at the first token whose kind is already mapped.
pub open spec fn bulk_left_register<T: Token>(
    m: Map<u64, (u32, u32, LeftRule)>,
    tokens: Seq<T>,
    lbp: u32,
    rbp: u32,
    rule: LeftRule,
) -> (Map<u64, (u32, u32, LeftRule)>, Option<T>)
    decreases tokens.len(),
{
    if tokens.len() == 0 {
        (m, None)
    } else if m.contains_key(tokens[0].kind_spec()) {
        (m, Some(tokens[0]))
    } else {
        bulk_left_register(
            m.insert(tokens[0].kind_spec(), (lbp, rbp, rule)),
            tokens.drop_first(),
            lbp,
            rbp,
            rule,
        )
    }
}

impl<T: Token> ParserSpec<T> {
    /// The prefix (null) table as a mathematical map.
    pub closed spec fn null_table(self) -> Map<u64, (u32, NullRule<T>)> {
        self.null_map@
    }

    /// The infix (left) table as a mathematical map.
    pub closed spec fn left_table(self) -> Map<u64, (u32, u32, LeftRule)> {
        self.left_map@
    }

    /// A fresh specification with both tables empty.
    pub fn new() -> (s: ParserSpec<T>)
        ensures
            s.null_table() == Map::<u64, (u32, NullRule<T>)>::empty(),
            s.left_table() == Map::<u64, (u32, u32, LeftRule)>::empty(),
    {
        ParserSpec { null_map: HashMap::new(), left_map: HashMap::new() }
    }

    /// Registers a prefix rule for the kind of `token`. Fails, and
    /// leaves the specification unchanged, exactly when a prefix rule
    /// for that kind already stands.
    pub fn add_null_assoc(&mut self, token: T, bp: u32, rule: NullRule<T>) -> (r: Result<
        (),
        SpecificationError<T>,
    >)
        ensures
            match r {
                Ok(()) => !old(self).null_table().contains_key(token.kind_spec())
                    && final(self).null_table() == old(self).null_table().insert(
                    token.kind_spec(),
                    (bp, rule),
                ) && final(self).left_table() == old(self).left_table(),
                Err(e) => old(self).null_table().contains_key(token.kind_spec()) && *final(self)
                    == *old(self) && e == (SpecificationError::TokenToRuleAlreadyDefined {
                    tk: token,
                }),
            },
    {
        let k = token.kind();
        if !self.null_map.contains_key(&k) {
            self.null_map.insert(k, (bp, rule));
            Ok(())
        } else {
            Err(SpecificationError::TokenToRuleAlreadyDefined { tk: token })
        }
    }

    /// Registers an infix rule for the kind of `token` with one binding
    /// power for both sides: an ordinary left-associative operator.
    /// Fails, and leaves the specification unchanged, exactly when an
    /// infix rule for that kind already stands.
    pub fn add_left_assoc(&mut self, token: T, bp: u32, rule: LeftRule) -> (r: Result<
        (),
        SpecificationError<T>,
    >)
        ensures
            match r {
                Ok(()) => !old(self).left_table().contains_key(token.kind_spec())
                    && final(self).left_table() == old(self).left_table().insert(
                    token.kind_spec(),
                    (bp, bp, rule),
                ) && final(self).null_table() == old(self).null_table(),
                Err(e) => old(self).left_table().contains_key(token.kind_spec()) && *final(self)
                    == *old(self) && e == (SpecificationError::TokenToRuleAlreadyDefined {
                    tk: token,
                }),
            },
    {
        let k = token.kind();
        if !self.left_map.contains_key(&k) {
            self.left_map.insert(k, (bp, bp, rule));
            Ok(())
        } else {
            Err(SpecificationError::TokenToRuleAlreadyDefined { tk: token })
        }
    }

    /// Registers an infix rule for the kind of `token` with distinct
    /// left and right binding powers, which is how right-associative or
    /// custom-fixity operators are declared: a right power one notch
    /// under the left power lets the operator's own recursive parse
    /// accept a chain of operators of the same precedence.
    pub fn add_left_right_assoc(&mut self, token: T, lbp: u32, rbp: u32, rule: LeftRule) -> (r:
        Result<(), SpecificationError<T>>)
        ensures
            match r {
                Ok(()) => !old(self).left_table().contains_key(token.kind_spec())
                    && final(self).left_table() == old(self).left_table().insert(
                    token.kind_spec(),
                    (lbp, rbp, rule),
                ) && final(self).null_table() == old(self).null_table(),
                Err(e) => old(self).left_table().contains_key(token.kind_spec()) && *final(self)
                    == *old(self) && e == (SpecificationError::TokenToRuleAlreadyDefined {
                    tk: token,
                }),
            },
    {
        let k = token.kind();
        if !self.left_map.contains_key(&k) {
            self.left_map.insert(k, (lbp, rbp, rule));
            Ok(())
        } else {
            Err(SpecificationError::TokenToRuleAlreadyDefined { tk: token })
        }
    }

    /// Registers the same prefix rule for every token of `tokens`, in
    /// order, short-circuiting on the first duplicate kind.
    pub fn add_null_associations(&mut self, tokens: Vec<T>, bp: u32, rule: NullRule<T>) -> (r:
        Result<(), SpecificationError<T>>)
        ensures
            ({
                let (m2, dup) = bulk_null_register(old(self).null_table(), tokens@, bp, rule);
                &&& final(self).null_table() == m2
                &&& final(self).left_table() == old(self).left_table()
                &&& match r {
                    Ok(()) => dup is None,
                    Err(e) => dup matches Some(t) && e == (
                    SpecificationError::TokenToRuleAlreadyDefined { tk: t }),
                }
            }),
    {
        let n = tokens.len();
        let mut i: usize = 0;
        proof {
            assert(tokens@.skip(0) =~= tokens@);
        }
        while i < n
            invariant
                n == tokens@.len(),
                i <= n,
                self.left_table() == old(self).left_table(),
                bulk_null_register(old(self).null_table(), tokens@, bp, rule)
                    == bulk_null_register(self.null_table(), tokens@.skip(i as int), bp, rule),
            decreases n - i,
        {
            proof {
                assert(tokens@.skip(i as int)[0] == tokens@[i as int]);
                assert(tokens@.skip(i as int).drop_first() =~= tokens@.skip(i as int + 1));
            }
            let t = tokens[i].clone_token();
            match self.add_null_assoc(t, bp, rule.duplicate()) {
                Ok(()) => {},
                Err(e) => {
                    return Err(e);
                },
            }
            i = i + 1;
        }
        Ok(())
    }

    /// Registers the same left-associative infix rule for every token
    /// of `tokens`, in order, short-circuiting on the first duplicate
    /// kind.
    pub fn add_left_associations(&mut self, tokens: Vec<T>, bp: u32, rule: LeftRule) -> (r: Result<
        (),
        SpecificationError<T>,
    >)
        ensures
            ({
                let (m2, dup) = bulk_left_register(old(self).left_table(), tokens@, bp, bp, rule);
                &&& final(self).left_table() == m2
                &&& final(self).null_table() == old(self).null_table()
                &&& match r {
                    Ok(()) => dup is None,
                    Err(e) => dup matches Some(t) && e == (
                    SpecificationError::TokenToRuleAlreadyDefined { tk: t }),
                }
            }),
    {
        self.add_left_right_associations(tokens, bp, bp, rule)
    }

    /// Registers the same infix rule, with distinct left and right
    /// binding powers, for every token of `tokens`, in order,
    /// short-circuiting on the first duplicate kind.
    pub fn add_left_right_associations(
        &mut self,
        tokens: Vec<T>,
        lbp: u32,
        rbp: u32,
        rule: LeftRule,
    ) -> (r: Result<(), SpecificationError<T>>)
        ensures
            ({
                let (m2, dup) = bulk_left_register(old(self).left_table(), tokens@, lbp, rbp, rule);
                &&& final(self).left_table() == m2
                &&& final(self).null_table() == old(self).null_table()
                &&& match r {
                    Ok(()) => dup is None,
                    Err(e) => dup matches Some(t) && e == (
                    SpecificationError::TokenToRuleAlreadyDefined { tk: t }),
                }
            }),
    {
        let n = tokens.len();
        let mut i: usize = 0;
        proof {
            assert(tokens@.skip(0) =~= tokens@);
        }
        while i < n
            invariant
                n == tokens@.len(),
                i <= n,
                self.null_table() == old(self).null_table(),
                bulk_left_register(old(self).left_table(), tokens@, lbp, rbp, rule)
                    == bulk_left_register(
                    self.left_table(),
                    tokens@.skip(i as int),
                    lbp,
                    rbp,
                    rule,
                ),
            decreases n - i,
        {
            proof {
                assert(tokens@.skip(i as int)[0] == tokens@[i as int]);
                assert(tokens@.skip(i as int).drop_first() =~= tokens@.skip(i as int + 1));
            }
            let t = tokens[i].clone_token();
            match self.add_left_right_assoc(t, lbp, rbp, rule) {
                Ok(()) => {},
                Err(e) => {
                    return Err(e);
                },
            }
            i = i + 1;
        }
        Ok(())
    }

    /// Consumes the specification and hands out the two finished rule
    /// tables. This is the one-way hand-off to an engine: no rule can
    /// be added once the tables have left the builder.
    pub fn maps(self) -> (r: (
        HashMap<u64, (u32, NullRule<T>)>,
        HashMap<u64, (u32, u32, LeftRule)>,
    ))
        ensures
            r.0@ == self.null_table(),
            r.1@ == self.left_table(),
    {
        let ParserSpec { null_map, left_map } = self;
        (null_map, left_map)
    }
}

} // verus!
