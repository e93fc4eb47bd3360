//! The engine's parts one by one: the lexer, the token kinds, the
//! precedence ranks, the rule table, the sequence helper and the
//! lookahead test.

use prattle::errors::ParseError;
use prattle::lexer::{Lexer, LexerVec};
use prattle::node::Node;
use prattle::parser::GeneralParser;
use prattle::precedence::PrecedenceLevel;
use prattle::specification::{LeftRule, NullRule, ParserSpec, SpecificationError};
use prattle::token::Token;

fn s(text: &str) -> String {
    text.to_string()
}

#[test]
fn lexer_peek_does_not_move() {
    let lexer = LexerVec::new(vec![s("a"), s("b")]);
    assert_eq!(lexer.peek(), Some(s("a")));
    assert_eq!(lexer.peek(), Some(s("a")));
}

#[test]
fn lexer_next_token_walks_the_stream() {
    let mut lexer = LexerVec::new(vec![s("a"), s("b")]);
    assert_eq!(lexer.next_token(), s("a"));
    assert_eq!(lexer.peek(), Some(s("b")));
    assert_eq!(lexer.next_token(), s("b"));
    assert_eq!(lexer.peek(), None);
}

#[test]
fn lexer_prev_token_steps_back() {
    let mut lexer = LexerVec::new(vec![s("a"), s("b")]);
    lexer.next_token();
    assert_eq!(lexer.prev_token(), s("b"));
    assert_eq!(lexer.peek(), Some(s("a")));
}

#[test]
fn number_texts_share_one_kind() {
    assert_eq!(s("123").kind(), s("456").kind());
    assert_eq!(s("7").kind(), s("00").kind());
}

#[test]
fn identifier_texts_share_one_kind() {
    assert_eq!(s("a").kind(), s("b").kind());
    assert_eq!(s("a1").kind(), s("Zx").kind());
    assert_ne!(s("a").kind(), s("1").kind());
}

#[test]
fn literal_texts_have_their_own_kinds() {
    assert_ne!(s("+").kind(), s("-").kind());
    assert_ne!(s("+").kind(), s("*").kind());
    assert_ne!(s("(").kind(), s(")").kind());
    assert_ne!(s("+").kind(), s("a").kind());
    assert_ne!(s("+").kind(), s("1").kind());
    assert_ne!(s("").kind(), s("+").kind());
    assert_eq!(s("+").kind(), s("+").kind());
}

#[test]
fn token_equality_is_full_value_equality() {
    assert!(s("a").eq_token(&s("a")));
    assert!(!s("a").eq_token(&s("b")));
    assert!(!s("+").eq_token(&s("-")));
    assert_eq!(s("a").clone_token(), s("a"));
}

#[test]
fn u64_tokens_are_their_own_kinds() {
    let t: u64 = 42;
    assert_eq!(t.kind(), 42);
    assert!(t.eq_token(&42));
    assert!(!t.eq_token(&43));
    assert_eq!(t.clone_token(), 42);
}

#[test]
fn u64_token_grammar_parses() {
    let mut spec: ParserSpec<u64> = ParserSpec::new();
    spec.add_null_associations(vec![1, 2], PrecedenceLevel::Root.power(), NullRule::Leaf)
        .unwrap();
    spec.add_left_assoc(9, PrecedenceLevel::First.power(), LeftRule::Binary).unwrap();
    let lexer = LexerVec::new(vec![1, 9, 2]);
    let mut parser = GeneralParser::new(spec, lexer);
    assert_eq!(
        parser.parse().unwrap(),
        Node::Composite { token: 9, children: vec![Node::Simple(1), Node::Simple(2)] }
    );
}

#[test]
fn precedence_powers_climb_in_steps_of_five() {
    assert_eq!(PrecedenceLevel::Root.power(), 0);
    assert_eq!(PrecedenceLevel::First.power(), 5);
    assert_eq!(PrecedenceLevel::Second.power(), 10);
    assert_eq!(PrecedenceLevel::Third.power(), 15);
    assert_eq!(PrecedenceLevel::Fourth.power(), 20);
    assert_eq!(PrecedenceLevel::Fifth.power(), 25);
    assert_eq!(PrecedenceLevel::Sixth.power(), 30);
    assert_eq!(PrecedenceLevel::Seventh.power(), 35);
    assert_eq!(PrecedenceLevel::Eighth.power(), 40);
}

#[test]
fn bulk_registration_short_circuits_on_first_duplicate() {
    let mut spec: ParserSpec<String> = ParserSpec::new();
    let res = spec.add_left_associations(
        vec![s("+"), s("+"), s("-")],
        PrecedenceLevel::First.power(),
        LeftRule::Binary,
    );
    assert!(matches!(res, Err(SpecificationError::TokenToRuleAlreadyDefined { .. })));
    // The first "+" went in before the duplicate stopped the bulk
    // registration; "-" never did.
    assert!(matches!(
        spec.add_left_assoc(s("+"), 5, LeftRule::Binary),
        Err(SpecificationError::TokenToRuleAlreadyDefined { .. })
    ));
    assert!(spec.add_left_assoc(s("-"), 5, LeftRule::Binary).is_ok());
}

#[test]
fn duplicate_infix_rule_is_rejected() {
    let mut spec: ParserSpec<String> = ParserSpec::new();
    spec.add_left_assoc(s("+"), 5, LeftRule::Binary).unwrap();
    let res = spec.add_left_right_assoc(s("+"), 10, 9, LeftRule::Binary);
    match res {
        Err(SpecificationError::TokenToRuleAlreadyDefined { tk }) => assert_eq!(tk, s("+")),
        Ok(()) => panic!("duplicate registration was accepted"),
    }
}

#[test]
fn prefix_and_infix_tables_are_separate() {
    let mut spec: ParserSpec<String> = ParserSpec::new();
    spec.add_null_assoc(s("-"), 0, NullRule::PrefixOp).unwrap();
    // The same kind may carry an infix rule beside its prefix rule.
    assert!(spec.add_left_assoc(s("-"), 5, LeftRule::Binary).is_ok());
}

#[test]
fn next_binds_tighter_than_compares_the_left_power() {
    let mut spec: ParserSpec<String> = ParserSpec::new();
    spec.add_left_assoc(s("*"), PrecedenceLevel::Second.power(), LeftRule::Binary).unwrap();
    let lexer = LexerVec::new(vec![s("*")]);
    let mut parser = GeneralParser::new(spec, lexer);
    assert!(parser.next_binds_tighter_than(PrecedenceLevel::First.power()));
    assert!(!parser.next_binds_tighter_than(PrecedenceLevel::Second.power()));
    assert!(!parser.next_binds_tighter_than(PrecedenceLevel::Third.power()));
}

#[test]
fn next_binds_tighter_than_is_false_without_entry_or_input() {
    let mut spec: ParserSpec<String> = ParserSpec::new();
    spec.add_left_assoc(s("*"), PrecedenceLevel::Second.power(), LeftRule::Binary).unwrap();
    let lexer = LexerVec::new(vec![s("a")]);
    let mut parser = GeneralParser::new(spec, lexer);
    assert!(!parser.next_binds_tighter_than(0));

    let spec2: ParserSpec<String> = ParserSpec::new();
    let lexer2: LexerVec<String> = LexerVec::new(Vec::new());
    let mut parser2 = GeneralParser::new(spec2, lexer2);
    assert!(!parser2.next_binds_tighter_than(0));
}

#[test]
fn sequence_without_end_token_stops_cleanly_at_stream_end() {
    let mut spec: ParserSpec<String> = ParserSpec::new();
    spec.add_null_associations(vec![s("x")], 0, NullRule::Leaf).unwrap();
    let lexer = LexerVec::new(vec![s("a"), s(","), s("b")]);
    let mut parser = GeneralParser::new(spec, lexer);
    let res = parser.parse_sequence(0, Some(s(",")), None);
    // Both expressions parse; the clean end of the stream after "b" is
    // not reported as an error.
    assert_eq!(res.len(), 3);
    assert_eq!(res[0], Ok(Node::Simple(s("a"))));
    assert_eq!(res[1], Ok(Node::Simple(s("b"))));
    assert_eq!(res[2], Err(ParseError::Incomplete));
}

#[test]
fn sequence_without_separator_collects_until_stream_end() {
    let mut spec: ParserSpec<String> = ParserSpec::new();
    spec.add_null_associations(vec![s("x")], 0, NullRule::Leaf).unwrap();
    let lexer = LexerVec::new(vec![s("a"), s("b"), s("c")]);
    let mut parser = GeneralParser::new(spec, lexer);
    let res = parser.parse_sequence(0, None, None);
    assert_eq!(
        res,
        vec![
            Ok(Node::Simple(s("a"))),
            Ok(Node::Simple(s("b"))),
            Ok(Node::Simple(s("c"))),
        ]
    );
}

#[test]
fn sequence_reports_an_unexpected_token_after_an_item() {
    let mut spec: ParserSpec<String> = ParserSpec::new();
    spec.add_null_associations(vec![s("x")], 0, NullRule::Leaf).unwrap();
    let lexer = LexerVec::new(vec![s("a"), s(";"), s("b")]);
    let mut parser = GeneralParser::new(spec, lexer);
    let res = parser.parse_sequence(0, Some(s(",")), Some(s(")")));
    assert_eq!(res.len(), 2);
    assert_eq!(res[0], Ok(Node::Simple(s("a"))));
    assert_eq!(
        res[1],
        Err(ParseError::ConsumeFailed { expected: s(","), found: s(";") })
    );
}

#[test]
fn maps_hands_out_the_registered_tables() {
    let mut spec: ParserSpec<String> = ParserSpec::new();
    spec.add_null_assoc(s("x"), 3, NullRule::Leaf).unwrap();
    spec.add_left_right_assoc(s("+"), 10, 9, LeftRule::Binary).unwrap();
    let (null_map, left_map) = spec.maps();
    assert_eq!(null_map.len(), 1);
    assert_eq!(left_map.len(), 1);
    let null_entry = null_map.get(&s("y").kind()).unwrap();
    assert_eq!(null_entry.0, 3);
    assert!(matches!(null_entry.1, NullRule::Leaf));
    let left_entry = left_map.get(&s("+").kind()).unwrap();
    assert_eq!(left_entry.0, 10);
    assert_eq!(left_entry.1, 9);
    assert!(matches!(left_entry.2, LeftRule::Binary));
}
