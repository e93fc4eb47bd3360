//! End-to-end runs of the precedence-climbing engine on small
//! grammars.

use prattle::errors::{ParseError, RuleType};
use prattle::lexer::LexerVec;
use prattle::node::Node;
use prattle::parser::GeneralParser;
use prattle::precedence::PrecedenceLevel;
use prattle::specification::{LeftRule, NullRule, ParserSpec};

fn s(text: &str) -> String {
    text.to_string()
}

fn leaf(text: &str) -> Node<String> {
    Node::Simple(s(text))
}

fn comp(text: &str, children: Vec<Node<String>>) -> Node<String> {
    Node::Composite { token: s(text), children }
}

/// An arithmetic grammar: identifiers and numbers are leaves, `+` and
/// `-` bind at `First`, `*`, `/` and `%` at `Second`, all
/// left-associative. A rule registered for "x" serves every
/// identifier, and one for "0" every number: registration goes by the
/// token's kind.
fn arithmetic_spec() -> ParserSpec<String> {
    let mut spec: ParserSpec<String> = ParserSpec::new();
    spec.add_null_associations(
        vec![s("x"), s("0")],
        PrecedenceLevel::Root.power(),
        NullRule::Leaf,
    )
    .unwrap();
    spec.add_left_associations(
        vec![s("+"), s("-")],
        PrecedenceLevel::First.power(),
        LeftRule::Binary,
    )
    .unwrap();
    spec.add_left_associations(
        vec![s("*"), s("/"), s("%")],
        PrecedenceLevel::Second.power(),
        LeftRule::Binary,
    )
    .unwrap();
    spec
}

#[test]
fn higher_power_binds_tighter() {
    let lexer = LexerVec::new(vec![s("a"), s("+"), s("b"), s("*"), s("c")]);
    let mut parser = GeneralParser::new(arithmetic_spec(), lexer);
    let res = parser.parse().unwrap();
    assert_eq!(
        res,
        comp("+", vec![leaf("a"), comp("*", vec![leaf("b"), leaf("c")])])
    );
}

#[test]
fn lower_right_power_gives_right_associativity() {
    let mut spec: ParserSpec<String> = ParserSpec::new();
    spec.add_null_assoc(s("ident"), 0, NullRule::Leaf).unwrap();
    spec.add_left_right_assoc(s("^"), 10, 9, LeftRule::Binary).unwrap();
    let lexer = LexerVec::new(vec![s("a"), s("^"), s("b"), s("^"), s("c")]);
    let mut parser = GeneralParser::new(spec, lexer);
    let res = parser.parse().unwrap();
    assert_eq!(
        res,
        comp("^", vec![leaf("a"), comp("^", vec![leaf("b"), leaf("c")])])
    );
}

#[test]
fn equal_powers_give_left_associativity() {
    let mut spec: ParserSpec<String> = ParserSpec::new();
    spec.add_null_assoc(s("ident"), 0, NullRule::Leaf).unwrap();
    spec.add_left_right_assoc(s("^"), 10, 10, LeftRule::Binary).unwrap();
    let lexer = LexerVec::new(vec![s("a"), s("^"), s("b"), s("^"), s("c")]);
    let mut parser = GeneralParser::new(spec, lexer);
    let res = parser.parse().unwrap();
    assert_eq!(
        res,
        comp("^", vec![comp("^", vec![leaf("a"), leaf("b")]), leaf("c")])
    );
}

#[test]
fn consume_on_exhausted_stream_is_incomplete() {
    let lexer = LexerVec::new(Vec::new());
    let mut parser = GeneralParser::new(arithmetic_spec(), lexer);
    let res = parser.consume(s("x"));
    assert!(matches!(res, Err(ParseError::Incomplete)));
}

#[test]
fn consume_after_last_token_is_incomplete() {
    let lexer = LexerVec::new(vec![s("a")]);
    let mut parser = GeneralParser::new(arithmetic_spec(), lexer);
    parser.parse().unwrap();
    let res = parser.consume(s("a"));
    assert!(matches!(res, Err(ParseError::Incomplete)));
}

#[test]
fn duplicate_prefix_rule_is_rejected_and_first_kept() {
    let mut spec: ParserSpec<String> = ParserSpec::new();
    spec.add_null_assoc(s("a"), 0, NullRule::Leaf).unwrap();
    // Another identifier shares the kind of "a": the registration must
    // fail and name the offending token.
    let res = spec.add_null_assoc(s("b"), 7, NullRule::PrefixOp);
    match res {
        Err(prattle::specification::SpecificationError::TokenToRuleAlreadyDefined { tk }) => {
            assert_eq!(tk, s("b"));
        }
        Ok(()) => panic!("duplicate registration was accepted"),
    }
    // The first registration still stands: identifiers parse as leaves.
    let lexer = LexerVec::new(vec![s("x")]);
    let mut parser = GeneralParser::new(spec, lexer);
    assert_eq!(parser.parse().unwrap(), leaf("x"));
}

#[test]
fn sequence_with_separator_and_end_token() {
    let lexer = LexerVec::new(vec![s("a"), s(","), s("b"), s(")")]);
    let mut parser = GeneralParser::new(arithmetic_spec(), lexer);
    let res = parser.parse_sequence(PrecedenceLevel::Root.power(), Some(s(",")), Some(s(")")));
    assert_eq!(res, vec![Ok(leaf("a")), Ok(leaf("b"))]);
    // The lexer stands just past the end token: nothing is left.
    assert!(matches!(parser.parse(), Err(ParseError::Incomplete)));
}

#[test]
fn identity_grammar_parses_one_token_then_is_incomplete() {
    let mut spec: ParserSpec<String> = ParserSpec::new();
    spec.add_null_associations(
        vec![s("x"), s("0"), s("+")],
        PrecedenceLevel::Root.power(),
        NullRule::Leaf,
    )
    .unwrap();
    let lexer = LexerVec::new(vec![s("a")]);
    let mut parser = GeneralParser::new(spec, lexer);
    assert_eq!(parser.parse().unwrap(), leaf("a"));
    assert!(matches!(parser.parse(), Err(ParseError::Incomplete)));
}

#[test]
fn grouping_overrides_precedence() {
    let mut spec = arithmetic_spec();
    spec.add_null_assoc(s("("), PrecedenceLevel::First.power(), NullRule::Grouping(s(")")))
        .unwrap();
    let lexer = LexerVec::new(vec![
        s("("),
        s("a"),
        s("+"),
        s("b"),
        s(")"),
        s("*"),
        s("c"),
    ]);
    let mut parser = GeneralParser::new(spec, lexer);
    let res = parser.parse().unwrap();
    assert_eq!(
        res,
        comp("*", vec![comp("+", vec![leaf("a"), leaf("b")]), leaf("c")])
    );
}

#[test]
fn grouping_without_close_is_incomplete() {
    let mut spec = arithmetic_spec();
    spec.add_null_assoc(s("("), PrecedenceLevel::First.power(), NullRule::Grouping(s(")")))
        .unwrap();
    let lexer = LexerVec::new(vec![s("("), s("a")]);
    let mut parser = GeneralParser::new(spec, lexer);
    assert!(matches!(parser.parse(), Err(ParseError::Incomplete)));
}

#[test]
fn prefix_operator_binds_its_operand() {
    let mut spec = arithmetic_spec();
    spec.add_null_assoc(s("!"), PrecedenceLevel::Fourth.power(), NullRule::PrefixOp)
        .unwrap();
    let lexer = LexerVec::new(vec![s("!"), s("a"), s("*"), s("b")]);
    let mut parser = GeneralParser::new(spec, lexer);
    let res = parser.parse().unwrap();
    assert_eq!(
        res,
        comp("*", vec![comp("!", vec![leaf("a")]), leaf("b")])
    );
}

#[test]
fn postfix_operator_wraps_the_left_operand() {
    let mut spec = arithmetic_spec();
    spec.add_left_assoc(s("?"), PrecedenceLevel::Sixth.power(), LeftRule::Postfix)
        .unwrap();
    let lexer = LexerVec::new(vec![s("a"), s("?"), s("*"), s("b")]);
    let mut parser = GeneralParser::new(spec, lexer);
    let res = parser.parse().unwrap();
    assert_eq!(
        res,
        comp("*", vec![comp("?", vec![leaf("a")]), leaf("b")])
    );
}

#[test]
fn missing_prefix_rule_is_reported_with_the_token() {
    let lexer = LexerVec::new(vec![s("+"), s("a")]);
    let mut parser = GeneralParser::new(arithmetic_spec(), lexer);
    let res = parser.parse();
    assert_eq!(
        res,
        Err(ParseError::MissingRule { token: s("+"), ty: RuleType::Null })
    );
}

#[test]
fn consume_of_wrong_token_names_both() {
    let lexer = LexerVec::new(vec![s("y")]);
    let mut parser = GeneralParser::new(arithmetic_spec(), lexer);
    let res = parser.consume(s("x"));
    assert_eq!(
        res,
        Err(ParseError::ConsumeFailed { expected: s("x"), found: s("y") })
    );
    // The failed consume did not move: the right token still consumes.
    assert_eq!(parser.consume(s("y")), Ok(()));
}

#[test]
fn parse_on_empty_stream_is_incomplete() {
    let lexer = LexerVec::new(Vec::new());
    let mut parser = GeneralParser::new(arithmetic_spec(), lexer);
    assert!(matches!(parser.parse(), Err(ParseError::Incomplete)));
}

#[test]
fn trailing_operator_is_incomplete() {
    let lexer = LexerVec::new(vec![s("a"), s("+")]);
    let mut parser = GeneralParser::new(arithmetic_spec(), lexer);
    assert!(matches!(parser.parse(), Err(ParseError::Incomplete)));
}

#[test]
fn malformed_syntax_carries_node_and_token() {
    let err = ParseError::MalformedSyntax { node: leaf("a"), token: s("+") };
    match err {
        ParseError::MalformedSyntax { node, token } => {
            assert_eq!(node, leaf("a"));
            assert_eq!(token, s("+"));
        }
        _ => panic!("wrong variant"),
    }
}
