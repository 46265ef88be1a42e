//! Tests for the token cursor: peek and advance, punctuation expectation,
//! and descent into a group.

use variantgen::GenError;
use variantgen::token::{Cursor, Delim, Token, idents_of};

fn ident(s: &str) -> Token {
    Token::Ident(String::from(s))
}

#[test]
fn peek_and_advance_walk_the_sequence() {
    let toks = vec![ident("a"), Token::Punct(','), ident("b")];
    let mut cur = Cursor::new(&toks);
    assert!(matches!(cur.peek(), Some(Token::Ident(s)) if s == "a"));
    assert!(matches!(cur.advance(), Some(Token::Ident(s)) if s == "a"));
    assert!(matches!(cur.advance(), Some(Token::Punct(','))));
    assert!(matches!(cur.advance(), Some(Token::Ident(s)) if s == "b"));
    assert!(cur.peek().is_none());
    assert!(cur.advance().is_none());
}

#[test]
fn expect_punct_consumes_only_on_match() {
    let toks = vec![Token::Punct(':'), ident("x")];
    let mut cur = Cursor::new(&toks);
    assert!(cur.expect_punct(':').is_ok());
    assert_eq!(cur.expect_punct(','), Err(GenError::UnexpectedToken));
    assert!(matches!(cur.advance(), Some(Token::Ident(s)) if s == "x"));
}

#[test]
fn descend_group_hands_out_children() {
    let toks = vec![Token::Group(Delim::Brace, vec![ident("A"), Token::Punct(','), ident("B")])];
    let mut cur = Cursor::new(&toks);
    let children = cur.descend_group().unwrap();
    assert_eq!(idents_of(children), vec!["A", "B"]);
    // The identifier walk restarts from the same children at any time.
    assert_eq!(idents_of(children), vec!["A", "B"]);
}

#[test]
fn descend_group_rejects_non_groups() {
    let toks = vec![ident("A")];
    let mut cur = Cursor::new(&toks);
    assert_eq!(cur.descend_group().unwrap_err(), GenError::MissingGroup);
    assert!(matches!(cur.advance(), Some(Token::Ident(s)) if s == "A"));
}
