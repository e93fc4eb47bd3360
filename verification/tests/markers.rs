//! The library's types stay usable across threads: these tests fail to
//! compile if a change costs a type its `Send` or `Sync` marker.

use prattle::errors::ParseError;
use prattle::lexer::LexerVec;
use prattle::node::Node;
use prattle::parser::GeneralParser;
use prattle::specification::ParserSpec;

fn assert_send<T: Send>() {}

fn assert_sync<T: Sync>() {}

#[test]
fn test_parseerror_send() {
    assert_send::<ParseError<String>>();
}

#[test]
fn test_parseerror_sync() {
    assert_sync::<ParseError<String>>();
}

#[test]
fn test_lexervec_send() {
    assert_send::<LexerVec<String>>();
}

#[test]
fn test_lexervec_sync() {
    assert_sync::<LexerVec<String>>();
}

#[test]
fn test_node_send() {
    assert_send::<Node<String>>();
}

#[test]
fn test_node_sync() {
    assert_sync::<Node<String>>();
}

#[test]
fn test_parser_send() {
    assert_send::<GeneralParser<String, LexerVec<String>>>();
}

#[test]
fn test_parser_sync() {
    assert_sync::<GeneralParser<String, LexerVec<String>>>();
}

#[test]
fn test_parserspec_send() {
    assert_send::<ParserSpec<String>>();
}

#[test]
fn test_parserspec_sync() {
    assert_sync::<ParserSpec<String>>();
}
