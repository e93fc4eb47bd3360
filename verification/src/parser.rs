//! The precedence-climbing engine.
//!
//! `GeneralParser` owns the two finalized rule tables and the lexer and
//! runs the core loop: parse a prefix expression, then, while the next
//! token's infix rule binds tighter than the caller's threshold, absorb
//! it. An operator continues absorbing the current expression only if
//! its left binding power strictly exceeds the threshold; the right
//! operand is parsed at the operator's right binding power. Ties break
//! toward stopping, so equal powers give left associativity and a right
//! power registered under the left power gives right associativity.
//!
//! The contracts of the engine speak about the spec-level interpreter
//! `spec_parse_expr` / `spec_parse_loop`, which pins down, token by
//! token, the tree a parse returns and where it leaves the cursor.
//!
//! One policy point is settled here explicitly: the engine looks an
//! infix entry up once per absorbed token, so the "binds tighter" test
//! and the rule actually run can never disagree, and a missing infix
//! entry simply stops the loop.

use vstd::prelude::*;
use vstd::pervasive::unreached;
use std::collections::HashMap;
use crate::errors::{ParseError, RuleType};
use crate::lexer::Lexer;
use crate::node::{lemma_view_tree_composite, Node, TreeView};
use crate::precedence::PrecedenceLevel;
use crate::specification::{LeftRule, NullRule, ParserSpec};
use crate::token::Token;

verus! {

broadcast use vstd::std_specs::hash::group_hash_axioms;

/// Clamps a position into the window `[lo, len]`. The interpreter
/// applies it to positions returned by recursive calls; those positions
/// always lie in the window already (`lemma_parse_expr_pos`), so the
/// clamp changes nothing, but it makes termination of the interpreter
/// evident.
pub open spec fn step_pos(lo: int, len: int, p: int) -> int {
    if p < lo {
        lo
    } else if p > len {
        len
    } else {
        p
    }
}

/// What `consume(expected)` does at position `pos` of `toks`: succeed
/// and advance when the next token equals `expected`; fail with
/// `ConsumeFailed`, not moving, when it differs; fail with `Incomplete`,
/// not moving, when the stream is exhausted.
pub open spec fn spec_consume<T: Token>(toks: Seq<T>, pos: int, expected: T) -> (Result<
    (),
    ParseError<T>,
>, int) {
    if 0 <= pos < toks.len() {
        if toks[pos].eq_spec(expected) {
            (Ok(()), pos + 1)
        } else {
            (Err(ParseError::ConsumeFailed { expected, found: toks[pos] }), pos)
        }
    } else {
        (Err(ParseError::Incomplete), pos)
    }
}

/// Whether the engine's loop would absorb the token at `pos`: an infix
/// entry exists for its kind and the entry's left binding power strictly
/// exceeds the threshold `rbp`. False on an exhausted stream.
pub open spec fn spec_binds_tighter<T: Token>(
    lm: Map<u64, (u32, u32, LeftRule)>,
    toks: Seq<T>,
    pos: int,
    rbp: u32,
) -> bool {
    &&& 0 <= pos < toks.len()
    &&& lm.contains_key(toks[pos].kind_spec())
    &&& lm[toks[pos].kind_spec()].0 > rbp
}

/// The tree and final position `parse_expr(rbp)` produces from the
/// tables `nm` and `lm` on `toks` starting at `pos`: consume one token,
/// run its prefix rule, then absorb infix operators through
/// `spec_parse_loop`.
pub open spec fn spec_parse_expr<T: Token>(
    nm: Map<u64, (u32, NullRule<T>)>,
    lm: Map<u64, (u32, u32, LeftRule)>,
    toks: Seq<T>,
    pos: int,
    rbp: u32,
) -> (Result<TreeView<T>, ParseError<T>>, int)
    decreases toks.len() - pos, 1int,
{
    let len = toks.len() as int;
    if !(0 <= pos < len) {
        (Err(ParseError::Incomplete), pos)
    } else {
        let tok = toks[pos];
        if !nm.contains_key(tok.kind_spec()) {
            (Err(ParseError::MissingRule { token: tok, ty: RuleType::Null }), pos + 1)
        } else {
            let (bp, rule) = nm[tok.kind_spec()];
            match rule {
                NullRule::Leaf => spec_parse_loop(
                    nm,
                    lm,
                    toks,
                    pos + 1,
                    rbp,
                    TreeView::Simple(tok),
                ),
                NullRule::PrefixOp => {
                    let (r, p1) = spec_parse_expr(nm, lm, toks, pos + 1, bp);
                    match r {
                        Ok(operand) => spec_parse_loop(
                            nm,
                            lm,
                            toks,
                            step_pos(pos + 1, len, p1),
                            rbp,
                            TreeView::Composite { token: tok, children: seq![operand] },
                        ),
                        Err(e) => (Err(e), p1),
                    }
                },
                NullRule::Grouping(end) => {
                    let (r, p1) = spec_parse_expr(nm, lm, toks, pos + 1, 0);
                    match r {
                        Ok(inner) => {
                            let (c, p2) = spec_consume(toks, step_pos(pos + 1, len, p1), end);
                            match c {
                                Ok(()) => spec_parse_loop(
                                    nm,
                                    lm,
                                    toks,
                                    step_pos(pos + 1, len, p2),
                                    rbp,
                                    inner,
                                ),
                                Err(e) => (Err(e), p2),
                            }
                        },
                        Err(e) => (Err(e), p1),
                    }
                },
            }
        }
    }
}

/// The absorbing loop of `parse_expr`: while the token at `pos` has an
/// infix entry whose left binding power exceeds `rbp`, consume it, run
/// its rule on the expression built so far, and go on.
pub open spec fn spec_parse_loop<T: Token>(
    nm: Map<u64, (u32, NullRule<T>)>,
    lm: Map<u64, (u32, u32, LeftRule)>,
    toks: Seq<T>,
    pos: int,
    rbp: u32,
    left: TreeView<T>,
) -> (Result<TreeView<T>, ParseError<T>>, int)
    decreases toks.len() - pos, 0int,
{
    let len = toks.len() as int;
    if !spec_binds_tighter(lm, toks, pos, rbp) {
        (Ok(left), pos)
    } else {
        let tok = toks[pos];
        let (lbp, op_rbp, rule) = lm[tok.kind_spec()];
        match rule {
            LeftRule::Postfix => spec_parse_loop(
                nm,
                lm,
                toks,
                pos + 1,
                rbp,
                TreeView::Composite { token: tok, children: seq![left] },
            ),
            LeftRule::Binary => {
                let (r, p1) = spec_parse_expr(nm, lm, toks, pos + 1, op_rbp);
                match r {
                    Ok(right) => spec_parse_loop(
                        nm,
                        lm,
                        toks,
                        step_pos(pos + 1, len, p1),
                        rbp,
                        TreeView::Composite { token: tok, children: seq![left, right] },
                    ),
                    Err(e) => (Err(e), p1),
                }
            },
        }
    }
}

/// The interpreter never moves the cursor backward or past the end of
/// the stream, and `parse_expr` consumes at least one token whenever one
/// is there.
pub proof fn lemma_parse_expr_pos<T: Token>(
    nm: Map<u64, (u32, NullRule<T>)>,
    lm: Map<u64, (u32, u32, LeftRule)>,
    toks: Seq<T>,
    pos: int,
    rbp: u32,
)
    requires
        0 <= pos <= toks.len(),
    ensures
        pos <= spec_parse_expr(nm, lm, toks, pos, rbp).1 <= toks.len(),
        pos < toks.len() ==> pos + 1 <= spec_parse_expr(nm, lm, toks, pos, rbp).1,
    decreases toks.len() - pos, 1int,
{
    let len = toks.len() as int;
    if 0 <= pos < len {
        let tok = toks[pos];
        if nm.contains_key(tok.kind_spec()) {
            let (bp, rule) = nm[tok.kind_spec()];
            match rule {
                NullRule::Leaf => {
                    lemma_parse_loop_pos(nm, lm, toks, pos + 1, rbp, TreeView::Simple(tok));
                },
                NullRule::PrefixOp => {
                    lemma_parse_expr_pos(nm, lm, toks, pos + 1, bp);
                    let (r, p1) = spec_parse_expr(nm, lm, toks, pos + 1, bp);
                    if r is Ok {
                        lemma_parse_loop_pos(
                            nm,
                            lm,
                            toks,
                            step_pos(pos + 1, len, p1),
                            rbp,
                            TreeView::Composite {
                                token: tok,
                                children: seq![r->Ok_0],
                            },
                        );
                    }
                },
                NullRule::Grouping(end) => {
                    lemma_parse_expr_pos(nm, lm, toks, pos + 1, 0);
                    let (r, p1) = spec_parse_expr(nm, lm, toks, pos + 1, 0);
                    if r is Ok {
                        let (c, p2) = spec_consume(toks, step_pos(pos + 1, len, p1), end);
                        if c is Ok {
                            lemma_parse_loop_pos(
                                nm,
                                lm,
                                toks,
                                step_pos(pos + 1, len, p2),
                                rbp,
                                r->Ok_0,
                            );
                        }
                    }
                },
            }
        }
    }
}

/// The loop of the interpreter never moves the cursor backward or past
/// the end of the stream.
pub proof fn lemma_parse_loop_pos<T: Token>(
    nm: Map<u64, (u32, NullRule<T>)>,
    lm: Map<u64, (u32, u32, LeftRule)>,
    toks: Seq<T>,
    pos: int,
    rbp: u32,
    left: TreeView<T>,
)
    requires
        0 <= pos <= toks.len(),
    ensures
        pos <= spec_parse_loop(nm, lm, toks, pos, rbp, left).1 <= toks.len(),
    decreases toks.len() - pos, 0int,
{
    let len = toks.len() as int;
    if spec_binds_tighter(lm, toks, pos, rbp) {
        let tok = toks[pos];
        let (lbp, op_rbp, rule) = lm[tok.kind_spec()];
        match rule {
            LeftRule::Postfix => {
                lemma_parse_loop_pos(
                    nm,
                    lm,
                    toks,
                    pos + 1,
                    rbp,
                    TreeView::Composite { token: tok, children: seq![left] },
                );
            },
            LeftRule::Binary => {
                lemma_parse_expr_pos(nm, lm, toks, pos + 1, op_rbp);
                let (r, p1) = spec_parse_expr(nm, lm, toks, pos + 1, op_rbp);
                if r is Ok {
                    lemma_parse_loop_pos(
                        nm,
                        lm,
                        toks,
                        step_pos(pos + 1, len, p1),
                        rbp,
                        TreeView::Composite { token: tok, children: seq![left, r->Ok_0] },
                    );
                }
            },
        }
    }
}

/// The list of outcomes and final position `parse_sequence` produces:
/// parse expressions at threshold `level` one after another, appending
/// every outcome. After a success, when a separator is configured, it
/// is consumed; if instead of the separator the configured end token is
/// found, the end token is consumed and the list is done; any other
/// token ends the list with one final `ConsumeFailed`. A failed parse
/// ends the list, appended — except a clean `Incomplete` end-of-stream
/// when no end token is configured, which is not an error of the list.
pub open spec fn spec_parse_sequence<T: Token>(
    nm: Map<u64, (u32, NullRule<T>)>,
    lm: Map<u64, (u32, u32, LeftRule)>,
    toks: Seq<T>,
    pos: int,
    level: u32,
    sep: Option<T>,
    end_token: Option<T>,
) -> (Seq<Result<TreeView<T>, ParseError<T>>>, int)
    decreases toks.len() - pos,
{
    let len = toks.len() as int;
    let (r, p) = spec_parse_expr(nm, lm, toks, pos, level);
    match r {
        Err(e) => {
            if e is Incomplete && end_token is None {
                (seq![], p)
            } else {
                (seq![Err(e)], p)
            }
        },
        Ok(node) => {
            let pc = step_pos(pos + 1, len, p);
            match sep {
                None => {
                    let (rest, pf) = spec_parse_sequence(nm, lm, toks, pc, level, sep, end_token);
                    (seq![Ok(node)] + rest, pf)
                },
                Some(s) => {
                    let (c, p2) = spec_consume(toks, pc, s);
                    match c {
                        Ok(()) => {
                            let (rest, pf) = spec_parse_sequence(
                                nm,
                                lm,
                                toks,
                                step_pos(pos + 1, len, p2),
                                level,
                                sep,
                                end_token,
                            );
                            (seq![Ok(node)] + rest, pf)
                        },
                        Err(ce) => match ce {
                            ParseError::ConsumeFailed { expected, found } => {
                                if (match end_token {
                                    Some(e) => e.eq_spec(found),
                                    None => false,
                                }) {
                                    (seq![Ok(node)], pc + 1)
                                } else {
                                    (
                                        seq![
                                            Ok(node),
                                            Err(ParseError::ConsumeFailed { expected, found }),
                                        ],
                                        pc,
                                    )
                                }
                            },
                            _ => (seq![Ok(node), Err(ce)], p2),
                        },
                    }
                },
            }
        },
    }
}

/// On an exhausted stream `consume` always fails with `Incomplete`,
/// never with `ConsumeFailed`, whatever token it expects, and does not
/// move the cursor.
pub proof fn lemma_consume_exhausted<T: Token>(toks: Seq<T>, pos: int, expected: T)
    requires
        pos >= toks.len(),
    ensures
        spec_consume(toks, pos, expected) == (
            Err::<(), ParseError<T>>(ParseError::Incomplete),
            pos,
        ),
{
}

/// The identity grammar: under a prefix `Leaf` rule for the token's
/// kind, a one-token stream parses, at any threshold and whatever the
/// infix table holds, to the leaf for that token, leaving the stream
/// exhausted; a further parse against the exhausted stream returns
/// `Incomplete` and does not move.
pub proof fn lemma_identity_grammar<T: Token>(
    nm: Map<u64, (u32, NullRule<T>)>,
    lm: Map<u64, (u32, u32, LeftRule)>,
    t: T,
    rbp: u32,
)
    requires
        nm.contains_key(t.kind_spec()),
        nm[t.kind_spec()].1 is Leaf,
    ensures
        spec_parse_expr(nm, lm, seq![t], 0, rbp) == (
            Ok::<TreeView<T>, ParseError<T>>(TreeView::Simple(t)),
            1int,
        ),
        spec_parse_expr(nm, lm, seq![t], 1, rbp) == (
            Err::<TreeView<T>, ParseError<T>>(ParseError::Incomplete),
            1int,
        ),
{
    let toks = seq![t];
    assert(toks.len() == 1 && toks[0] == t);
    assert(spec_parse_loop(nm, lm, toks, 1, rbp, TreeView::Simple(t)) == (
        Ok::<TreeView<T>, ParseError<T>>(TreeView::Simple(t)),
        1int,
    ));
}

/// An operator of higher binding power binds tighter: on three leaf
/// operands joined by two left-associative infix operators, the second
/// operator's operands group inside the first's whenever the second's
/// power exceeds the first's. Both operators must bind past the
/// caller's threshold for the chain to be absorbed at all.
pub proof fn lemma_precedence_binds_tighter<T: Token>(
    nm: Map<u64, (u32, NullRule<T>)>,
    lm: Map<u64, (u32, u32, LeftRule)>,
    x1: T,
    x2: T,
    x3: T,
    o1: T,
    o2: T,
    rbp: u32,
)
    requires
        nm.contains_key(x1.kind_spec()) && nm[x1.kind_spec()].1 is Leaf,
        nm.contains_key(x2.kind_spec()) && nm[x2.kind_spec()].1 is Leaf,
        nm.contains_key(x3.kind_spec()) && nm[x3.kind_spec()].1 is Leaf,
        lm.contains_key(o1.kind_spec()) && lm[o1.kind_spec()].2 is Binary,
        lm.contains_key(o2.kind_spec()) && lm[o2.kind_spec()].2 is Binary,
        lm[o1.kind_spec()].0 == lm[o1.kind_spec()].1 > rbp,
        lm[o2.kind_spec()].0 == lm[o2.kind_spec()].1 > lm[o1.kind_spec()].1,
    ensures
        spec_parse_expr(nm, lm, seq![x1, o1, x2, o2, x3], 0, rbp) == (
            Ok::<TreeView<T>, ParseError<T>>(
                TreeView::Composite {
                    token: o1,
                    children: seq![
                        TreeView::Simple(x1),
                        TreeView::Composite {
                            token: o2,
                            children: seq![TreeView::Simple(x2), TreeView::Simple(x3)],
                        },
                    ],
                },
            ),
            5int,
        ),
{
    reveal_with_fuel(spec_parse_expr, 6);
    reveal_with_fuel(spec_parse_loop, 6);
    let toks = seq![x1, o1, x2, o2, x3];
    let p1 = lm[o1.kind_spec()].1;
    let p2 = lm[o2.kind_spec()].1;
    assert(toks.len() == 5 && toks[0] == x1 && toks[1] == o1 && toks[2] == x2 && toks[3] == o2
        && toks[4] == x3);
    let s2 = TreeView::Simple(x2);
    let s3 = TreeView::Simple(x3);
    let inner = TreeView::Composite { token: o2, children: seq![s2, s3] };
    assert(spec_parse_expr(nm, lm, toks, 4, p2) == (Ok::<TreeView<T>, ParseError<T>>(s3), 5int));
    assert(spec_parse_loop(nm, lm, toks, 3, p1, s2) == (
        Ok::<TreeView<T>, ParseError<T>>(inner),
        5int,
    ));
    assert(spec_parse_expr(nm, lm, toks, 2, p1) == (
        Ok::<TreeView<T>, ParseError<T>>(inner),
        5int,
    ));
}

/// Right associativity: an infix operator registered with a right
/// binding power under its left binding power chains to the right. On
/// three leaf operands joined by the operator twice, the second joint
/// groups inside the first.
pub proof fn lemma_right_associativity<T: Token>(
    nm: Map<u64, (u32, NullRule<T>)>,
    lm: Map<u64, (u32, u32, LeftRule)>,
    x1: T,
    x2: T,
    x3: T,
    o: T,
    rbp: u32,
)
    requires
        nm.contains_key(x1.kind_spec()) && nm[x1.kind_spec()].1 is Leaf,
        nm.contains_key(x2.kind_spec()) && nm[x2.kind_spec()].1 is Leaf,
        nm.contains_key(x3.kind_spec()) && nm[x3.kind_spec()].1 is Leaf,
        lm.contains_key(o.kind_spec()) && lm[o.kind_spec()].2 is Binary,
        lm[o.kind_spec()].0 > rbp,
        lm[o.kind_spec()].1 < lm[o.kind_spec()].0,
    ensures
        spec_parse_expr(nm, lm, seq![x1, o, x2, o, x3], 0, rbp) == (
            Ok::<TreeView<T>, ParseError<T>>(
                TreeView::Composite {
                    token: o,
                    children: seq![
                        TreeView::Simple(x1),
                        TreeView::Composite {
                            token: o,
                            children: seq![TreeView::Simple(x2), TreeView::Simple(x3)],
                        },
                    ],
                },
            ),
            5int,
        ),
{
    reveal_with_fuel(spec_parse_expr, 6);
    reveal_with_fuel(spec_parse_loop, 6);
    let toks = seq![x1, o, x2, o, x3];
    let r = lm[o.kind_spec()].1;
    assert(toks.len() == 5 && toks[0] == x1 && toks[1] == o && toks[2] == x2 && toks[3] == o
        && toks[4] == x3);
    let s2 = TreeView::Simple(x2);
    let s3 = TreeView::Simple(x3);
    let inner = TreeView::Composite { token: o, children: seq![s2, s3] };
    assert(spec_parse_expr(nm, lm, toks, 4, r) == (Ok::<TreeView<T>, ParseError<T>>(s3), 5int));
    assert(spec_parse_loop(nm, lm, toks, 3, r, s2) == (
        Ok::<TreeView<T>, ParseError<T>>(inner),
        5int,
    ));
    assert(spec_parse_expr(nm, lm, toks, 2, r) == (Ok::<TreeView<T>, ParseError<T>>(inner), 5int));
}

/// Left associativity: an infix operator registered with one binding
/// power for both sides chains to the left, because ties break toward
/// stopping. On three leaf operands joined by the operator twice, the
/// first joint groups inside the second.
pub proof fn lemma_left_associativity<T: Token>(
    nm: Map<u64, (u32, NullRule<T>)>,
    lm: Map<u64, (u32, u32, LeftRule)>,
    x1: T,
    x2: T,
    x3: T,
    o: T,
    rbp: u32,
)
    requires
        nm.contains_key(x1.kind_spec()) && nm[x1.kind_spec()].1 is Leaf,
        nm.contains_key(x2.kind_spec()) && nm[x2.kind_spec()].1 is Leaf,
        nm.contains_key(x3.kind_spec()) && nm[x3.kind_spec()].1 is Leaf,
        lm.contains_key(o.kind_spec()) && lm[o.kind_spec()].2 is Binary,
        lm[o.kind_spec()].0 > rbp,
        lm[o.kind_spec()].1 >= lm[o.kind_spec()].0,
    ensures
        spec_parse_expr(nm, lm, seq![x1, o, x2, o, x3], 0, rbp) == (
            Ok::<TreeView<T>, ParseError<T>>(
                TreeView::Composite {
                    token: o,
                    children: seq![
                        TreeView::Composite {
                            token: o,
                            children: seq![TreeView::Simple(x1), TreeView::Simple(x2)],
                        },
                        TreeView::Simple(x3),
                    ],
                },
            ),
            5int,
        ),
{
    reveal_with_fuel(spec_parse_expr, 6);
    reveal_with_fuel(spec_parse_loop, 6);
    let toks = seq![x1, o, x2, o, x3];
    let r = lm[o.kind_spec()].1;
    assert(toks.len() == 5 && toks[0] == x1 && toks[1] == o && toks[2] == x2 && toks[3] == o
        && toks[4] == x3);
    let s1 = TreeView::Simple(x1);
    let s2 = TreeView::Simple(x2);
    let s3 = TreeView::Simple(x3);
    let inner = TreeView::Composite { token: o, children: seq![s1, s2] };
    assert(spec_parse_expr(nm, lm, toks, 2, r) == (Ok::<TreeView<T>, ParseError<T>>(s2), 3int));
    assert(spec_parse_expr(nm, lm, toks, 4, r) == (Ok::<TreeView<T>, ParseError<T>>(s3), 5int));
    assert(spec_parse_loop(nm, lm, toks, 3, rbp, inner) == (
        Ok::<TreeView<T>, ParseError<T>>(
            TreeView::Composite { token: o, children: seq![inner, s3] },
        ),
        5int,
    ));
}

/// Whether an executable parse outcome stands for a spec-level one:
/// equal trees on success, equal errors on failure.
pub open spec fn result_matches<T>(
    r: Result<Node<T>, ParseError<T>>,
    s: Result<TreeView<T>, ParseError<T>>,
) -> bool {
    match (r, s) {
        (Ok(n), Ok(v)) => n.view_tree() == v,
        (Err(e), Err(se)) => e == se,
        _ => false,
    }
}

/// The interface a parsing engine offers to grammars: the entry point,
/// the threshold-bounded expression parser a rule re-enters, the
/// sequence helper, the lookahead test, and `consume`. The contracts
/// here say only that a well-formed engine stays well-formed; what the
/// calls return is pinned down by the contracts of the engine type
/// itself, so several engine variants can share one specification.
pub trait Parser<T: Token>: Sized {
    /// Whether the engine is in a usable state.
    spec fn inv(self) -> bool;

    /// Parses one complete expression from the lowest threshold.
    fn parse(&mut self) -> (r: Result<Node<T>, ParseError<T>>)
        requires
            old(self).inv(),
        ensures
            final(self).inv(),
    ;

    /// Parses one expression, absorbing infix operators only while
    /// they bind tighter than `rbp`.
    fn parse_expr(&mut self, rbp: u32) -> (r: Result<Node<T>, ParseError<T>>)
        requires
            old(self).inv(),
        ensures
            final(self).inv(),
    ;

    /// Parses expressions at `prec_level` one after another, with an
    /// optional separator between them and an optional end token after
    /// them, returning every outcome.
    fn parse_sequence(&mut self, prec_level: u32, sep: Option<T>, end_token: Option<T>) -> (res:
        Vec<Result<Node<T>, ParseError<T>>>)
        requires
            old(self).inv(),
        ensures
            final(self).inv(),
    ;

    /// Whether the next token's infix rule binds tighter than `rbp`;
    /// consumes nothing.
    fn next_binds_tighter_than(&mut self, rbp: u32) -> (r: bool)
        requires
            old(self).inv(),
        ensures
            final(self).inv(),
    ;

    /// Requires the next token to equal `end_token` and consumes it;
    /// fails without moving otherwise.
    fn consume(&mut self, end_token: T) -> (r: Result<(), ParseError<T>>)
        requires
            old(self).inv(),
        ensures
            final(self).inv(),
    ;
}

/// Clones an optional token; the copy provably equals the original.
fn duplicate_opt<T: Token>(o: &Option<T>) -> (r: Option<T>)
    ensures
        r == *o,
{
    match o {
        Some(t) => Some(t.clone_token()),
        None => None,
    }
}

/// The engine: the two finalized dispatch tables plus exclusive
/// ownership of the lexer.
pub struct GeneralParser<T, L> {
    null_map: HashMap<u64, (u32, NullRule<T>)>,
    left_map: HashMap<u64, (u32, u32, LeftRule)>,
    lexer: L,
}

impl<T: Token, L: Lexer<T>> GeneralParser<T, L> {
    /// The prefix (null) table as a mathematical map.
    pub closed spec fn null_table(self) -> Map<u64, (u32, NullRule<T>)> {
        self.null_map@
    }

    /// The infix (left) table as a mathematical map.
    pub closed spec fn left_table(self) -> Map<u64, (u32, u32, LeftRule)> {
        self.left_map@
    }

    /// The token stream the engine consumes.
    pub closed spec fn stream(self) -> Seq<T> {
        self.lexer.stream()
    }

    /// The index of the next not-yet-consumed token.
    pub closed spec fn pos(self) -> int {
        self.lexer.pos()
    }

    /// Well-formedness: the lexer is well-formed and its cursor lies
    /// inside its stream.
    pub closed spec fn wf(self) -> bool {
        &&& self.lexer.inv()
        &&& 0 <= self.lexer.pos() <= self.lexer.stream().len()
    }

    /// Builds an engine from a finished specification and a lexer. The
    /// specification is consumed: the hand-off transfers ownership of
    /// the tables, so nothing can change them during parsing.
    pub fn new(spec: ParserSpec<T>, lexer: L) -> (p: GeneralParser<T, L>)
        requires
            lexer.inv(),
        ensures
            p.wf(),
            p.null_table() == spec.null_table(),
            p.left_table() == spec.left_table(),
            p.stream() == lexer.stream(),
            p.pos() == lexer.pos(),
    {
        proof {
            lexer.lemma_inv_bounds();
        }
        let (null_map, left_map) = spec.maps();
        GeneralParser { null_map, left_map, lexer }
    }

    /// Peeks at the next token and reports whether an infix entry for
    /// its kind binds tighter than `rbp`, that is, whether `parse_expr`
    /// called with threshold `rbp` would absorb it. Consumes nothing.
    pub fn next_binds_tighter_than(&mut self, rbp: u32) -> (r: bool)
        requires
            old(self).wf(),
        ensures
            *final(self) == *old(self),
            r == spec_binds_tighter(
                old(self).left_table(),
                old(self).stream(),
                old(self).pos(),
                rbp,
            ),
    {
        match self.lexer.peek() {
            Some(tk) => {
                let k = tk.kind();
                match self.left_map.get(&k) {
                    Some(entry) => entry.0 > rbp,
                    None => false,
                }
            },
            None => false,
        }
    }

    /// Requires the next token to equal `end_token` (full value, not
    /// just kind): consumes it on a match, and otherwise fails without
    /// moving — `ConsumeFailed` on a different token, `Incomplete` on an
    /// exhausted stream.
    pub fn consume(&mut self, end_token: T) -> (r: Result<(), ParseError<T>>)
        requires
            old(self).wf(),
        ensures
            final(self).wf(),
            final(self).null_table() == old(self).null_table(),
            final(self).left_table() == old(self).left_table(),
            final(self).stream() == old(self).stream(),
            ({
                let (sr, sp) = spec_consume(old(self).stream(), old(self).pos(), end_token);
                &&& r == sr
                &&& final(self).pos() == sp
            }),
    {
        match self.lexer.peek() {
            Some(tk) => {
                if tk.eq_token(&end_token) {
                    self.lexer.next_token();
                    Ok(())
                } else {
                    Err(ParseError::ConsumeFailed { expected: end_token, found: tk })
                }
            },
            None => Err(ParseError::Incomplete),
        }
    }

    /// Parses one expression, absorbing infix operators only while
    /// their left binding power strictly exceeds the threshold `rbp`.
    /// The result and the final cursor position are exactly those of
    /// the interpreter `spec_parse_expr` on the engine's tables and
    /// stream.
    #[verifier::loop_isolation(false)]
    pub fn parse_expr(&mut self, rbp: u32) -> (r: Result<Node<T>, ParseError<T>>)
        requires
            old(self).wf(),
        ensures
            final(self).wf(),
            final(self).null_table() == old(self).null_table(),
            final(self).left_table() == old(self).left_table(),
            final(self).stream() == old(self).stream(),
            ({
                let (sr, sp) = spec_parse_expr(
                    old(self).null_table(),
                    old(self).left_table(),
                    old(self).stream(),
                    old(self).pos(),
                    rbp,
                );
                &&& result_matches(r, sr)
                &&& final(self).pos() == sp
            }),
        decreases old(self).stream().len() - old(self).pos(),
    {
        let ghost nm = old(self).null_table();
        let ghost lm = old(self).left_table();
        let ghost toks = old(self).stream();
        let ghost pos0 = old(self).pos();

        if self.lexer.peek().is_none() {
            return Err(ParseError::Incomplete);
        }
        let tk = self.lexer.next_token();
        let k = tk.kind();
        let (bp, rule) = match self.null_map.get(&k) {
            None => {
                return Err(ParseError::MissingRule { token: tk, ty: RuleType::Null });
            },
            Some(e) => (e.0, e.1.duplicate()),
        };
        let mut left: Node<T>;
        match rule {
            NullRule::Leaf => {
                left = Node::Simple(tk);
            },
            NullRule::PrefixOp => {
                proof {
                    lemma_parse_expr_pos(nm, lm, toks, pos0 + 1, bp);
                }
                let operand = match self.parse_expr(bp) {
                    Ok(n) => n,
                    Err(e) => {
                        return Err(e);
                    },
                };
                let children = vec![operand];
                proof {
                    lemma_view_tree_composite(tk, children);
                    let lnode = Node::Composite { token: tk, children };
                    match lnode.view_tree() {
                        TreeView::Composite { token: t2, children: c2 } => {
                            assert(c2 =~= seq![operand.view_tree()]);
                        },
                        _ => {
                            assert(false);
                        },
                    }
                }
                left = Node::Composite { token: tk, children };
            },
            NullRule::Grouping(end) => {
                proof {
                    lemma_parse_expr_pos(nm, lm, toks, pos0 + 1, 0);
                }
                let inner = match self.parse_expr(0) {
                    Ok(n) => n,
                    Err(e) => {
                        return Err(e);
                    },
                };
                match self.consume(end) {
                    Ok(()) => {},
                    Err(e) => {
                        return Err(e);
                    },
                }
                left = inner;
            },
        }
        while self.next_binds_tighter_than(rbp)
            invariant
                self.wf(),
                self.null_table() == nm,
                self.left_table() == lm,
                self.stream() == toks,
                pos0 < self.pos() <= toks.len(),
                spec_parse_loop(nm, lm, toks, self.pos(), rbp, left.view_tree())
                    == spec_parse_expr(nm, lm, toks, pos0, rbp),
            decreases toks.len() - self.pos(),
        {
            let ghost pos_it = self.pos();
            let ghost left_it = left.view_tree();
            let tk2 = self.lexer.next_token();
            let k2 = tk2.kind();
            // The loop condition saw an infix entry for this kind, and
            // nothing has changed since: the lookup cannot miss.
            let (op_rbp, lrule) = match self.left_map.get(&k2) {
                Some(e) => (e.1, e.2),
                None => unreached(),
            };
            match lrule {
                LeftRule::Postfix => {
                    let prev = left;
                    let children = vec![prev];
                    proof {
                        lemma_view_tree_composite(tk2, children);
                        let lnode = Node::Composite { token: tk2, children };
                        match lnode.view_tree() {
                            TreeView::Composite { token: t2, children: c2 } => {
                                assert(c2 =~= seq![left_it]);
                            },
                            _ => {
                                assert(false);
                            },
                        }
                    }
                    left = Node::Composite { token: tk2, children };
                },
                LeftRule::Binary => {
                    proof {
                        lemma_parse_expr_pos(nm, lm, toks, pos_it + 1, op_rbp);
                    }
                    let right = match self.parse_expr(op_rbp) {
                        Ok(n) => n,
                        Err(e) => {
                            return Err(e);
                        },
                    };
                    let prev = left;
                    let children = vec![prev, right];
                    proof {
                        lemma_view_tree_composite(tk2, children);
                        let lnode = Node::Composite { token: tk2, children };
                        match lnode.view_tree() {
                            TreeView::Composite { token: t2, children: c2 } => {
                                assert(c2 =~= seq![left_it, right.view_tree()]);
                            },
                            _ => {
                                assert(false);
                            },
                        }
                    }
                    left = Node::Composite { token: tk2, children };
                },
            }
        }
        Ok(left)
    }

    /// Parses one complete expression: `parse_expr` from the `Root`
    /// threshold, under which every registered operator binds tighter.
    pub fn parse(&mut self) -> (r: Result<Node<T>, ParseError<T>>)
        requires
            old(self).wf(),
        ensures
            final(self).wf(),
            final(self).null_table() == old(self).null_table(),
            final(self).left_table() == old(self).left_table(),
            final(self).stream() == old(self).stream(),
            ({
                let (sr, sp) = spec_parse_expr(
                    old(self).null_table(),
                    old(self).left_table(),
                    old(self).stream(),
                    old(self).pos(),
                    PrecedenceLevel::Root.power_spec(),
                );
                &&& result_matches(r, sr)
                &&& final(self).pos() == sp
            }),
    {
        self.parse_expr(PrecedenceLevel::Root.power())
    }

    /// Parses expressions at threshold `prec_level` one after another,
    /// returning every outcome in order; see `spec_parse_sequence` for
    /// the exact protocol around the optional separator and end token.
    /// Grammars implement repetition (argument lists, bodies) with this
    /// helper without the engine knowing the concrete grammar.
    pub fn parse_sequence(&mut self, prec_level: u32, sep: Option<T>, end_token: Option<T>) -> (res:
        Vec<Result<Node<T>, ParseError<T>>>)
        requires
            old(self).wf(),
        ensures
            final(self).wf(),
            final(self).null_table() == old(self).null_table(),
            final(self).left_table() == old(self).left_table(),
            final(self).stream() == old(self).stream(),
            ({
                let (sres, sp) = spec_parse_sequence(
                    old(self).null_table(),
                    old(self).left_table(),
                    old(self).stream(),
                    old(self).pos(),
                    prec_level,
                    sep,
                    end_token,
                );
                &&& final(self).pos() == sp
                &&& res@.len() == sres.len()
                &&& forall|i: int| 0 <= i < sres.len() ==> result_matches(res@[i], sres[i])
            }),
        decreases old(self).stream().len() - old(self).pos(),
    {
        let ghost nm = old(self).null_table();
        let ghost lm = old(self).left_table();
        let ghost toks = old(self).stream();
        let ghost pos0 = old(self).pos();

        let mut results: Vec<Result<Node<T>, ParseError<T>>> = Vec::new();
        proof {
            lemma_parse_expr_pos(nm, lm, toks, pos0, prec_level);
        }
        match self.parse_expr(prec_level) {
            Err(e) => {
                let stop = match (&e, &end_token) {
                    (ParseError::Incomplete, None) => true,
                    _ => false,
                };
                if !stop {
                    results.push(Err(e));
                }
                results
            },
            Ok(n) => {
                results.push(Ok(n));
                match &sep {
                    None => {
                        let mut rest = self.parse_sequence(prec_level, sep, end_token);
                        results.append(&mut rest);
                        results
                    },
                    Some(s) => {
                        let sc = s.clone_token();
                        match self.consume(sc) {
                            Ok(()) => {
                                let sep2 = duplicate_opt(&sep);
                                let end2 = duplicate_opt(&end_token);
                                let mut rest = self.parse_sequence(prec_level, sep2, end2);
                                results.append(&mut rest);
                                results
                            },
                            Err(ce) => {
                                let is_end = match (&ce, &end_token) {
                                    (
                                        ParseError::ConsumeFailed { expected: _, found },
                                        Some(e),
                                    ) => e.eq_token(found),
                                    _ => false,
                                };
                                if is_end {
                                    self.lexer.next_token();
                                } else {
                                    results.push(Err(ce));
                                }
                                results
                            },
                        }
                    },
                }
            },
        }
    }
}

impl<T: Token, L: Lexer<T>> Parser<T> for GeneralParser<T, L> {
    open spec fn inv(self) -> bool {
        self.wf()
    }

    fn parse(&mut self) -> (r: Result<Node<T>, ParseError<T>>) {
        GeneralParser::parse(self)
    }

    fn parse_expr(&mut self, rbp: u32) -> (r: Result<Node<T>, ParseError<T>>) {
        GeneralParser::parse_expr(self, rbp)
    }

    fn parse_sequence(&mut self, prec_level: u32, sep: Option<T>, end_token: Option<T>) -> (res: Vec<
        Result<Node<T>, ParseError<T>>,
    >) {
        GeneralParser::parse_sequence(self, prec_level, sep, end_token)
    }

    fn next_binds_tighter_than(&mut self, rbp: u32) -> (r: bool) {
        GeneralParser::next_binds_tighter_than(self, rbp)
    }

    fn consume(&mut self, end_token: T) -> (r: Result<(), ParseError<T>>) {
        GeneralParser::consume(self, end_token)
    }
}

} // verus!

