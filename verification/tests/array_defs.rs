//! Tests for the string-array and mesh-index generators.

use variantgen::GenError;
use variantgen::arrays::{meshes_indexes, str_array};
use variantgen::token::Token;

fn ident(s: &str) -> Token {
    Token::Ident(String::from(s))
}

fn lit(s: &str) -> Token {
    Token::Lit(String::from(s))
}

#[test]
fn str_array_with_prefix() {
    let toks = vec![ident("ARRAY"), Token::Punct(','), lit("4"), Token::Punct(','), ident("i_")];
    let d = str_array(&toks).unwrap();
    assert_eq!(d.name, "ARRAY");
    assert_eq!(d.prefix, "i_");
    assert_eq!(d.strings, vec!["i_0", "i_1", "i_2", "i_3"]);
}

#[test]
fn str_array_without_prefix() {
    let toks = vec![ident("NAMES"), Token::Punct(','), lit("3")];
    let d = str_array(&toks).unwrap();
    assert_eq!(d.strings, vec!["0", "1", "2"]);
}

#[test]
fn str_array_rejects_bad_count_and_trailing_tokens() {
    let bad_count = vec![ident("A"), Token::Punct(','), lit("4x")];
    assert_eq!(str_array(&bad_count).unwrap_err(), GenError::UnexpectedToken);
    let too_big = vec![ident("A"), Token::Punct(','), lit("70000")];
    assert_eq!(str_array(&too_big).unwrap_err(), GenError::UnexpectedToken);
    let trailing = vec![
        ident("A"),
        Token::Punct(','),
        lit("4"),
        Token::Punct(','),
        ident("i_"),
        Token::Punct(','),
    ];
    assert_eq!(str_array(&trailing).unwrap_err(), GenError::UnexpectedToken);
}

#[test]
fn meshes_indexes_builds_triangle_fan() {
    let toks = vec![ident("INDEXES"), Token::Punct(','), lit("3")];
    let d = meshes_indexes(&toks).unwrap();
    assert_eq!(d.name, "INDEXES");
    assert_eq!(d.size, 3);
    assert_eq!(d.indexes, vec![0, 1, 2, 0, 2, 3, 0, 3, 4]);
}

#[test]
fn meshes_indexes_rejects_malformed_requests() {
    let no_comma = vec![ident("INDEXES"), ident("x"), lit("3")];
    assert_eq!(meshes_indexes(&no_comma).unwrap_err(), GenError::UnexpectedToken);
    let short = vec![ident("INDEXES"), Token::Punct(',')];
    assert_eq!(meshes_indexes(&short).unwrap_err(), GenError::UnexpectedToken);
}
