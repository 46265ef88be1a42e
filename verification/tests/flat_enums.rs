//! Tests for flat-enum extraction, the size constant, the index
//! conversion and the sized restartable iterator.

use variantgen::GenError;
use variantgen::enums::{enum_from_usize, enum_iter, enum_size};
use variantgen::token::{Delim, Token};

fn ident(s: &str) -> Token {
    Token::Ident(String::from(s))
}

fn flat_enum(name: &str, variants: &[&str]) -> Vec<Token> {
    let mut children = Vec::new();
    for (i, v) in variants.iter().enumerate() {
        if i > 0 {
            children.push(Token::Punct(','));
        }
        children.push(ident(v));
    }
    vec![
        ident("pub"),
        ident("enum"),
        ident(name),
        Token::Group(Delim::Brace, children),
    ]
}

#[test]
fn size_constant_counts_variants_exactly() {
    let d = enum_size(&flat_enum("Color", &["Red", "Green", "Blue"])).unwrap();
    assert_eq!(d.name, "Color");
    assert_eq!(d.size, 3);
}

#[test]
fn size_constant_of_empty_enum_is_zero() {
    let d = enum_size(&flat_enum("Nothing", &[])).unwrap();
    assert_eq!(d.size, 0);
}

#[test]
fn missing_enum_keyword_is_reported() {
    let toks = vec![ident("struct"), ident("Color")];
    assert_eq!(enum_size(&toks).unwrap_err(), GenError::MissingKeyword);
}

#[test]
fn keyword_without_name_is_unexpected() {
    let toks = vec![ident("enum"), Token::Punct('{')];
    assert_eq!(enum_size(&toks).unwrap_err(), GenError::UnexpectedToken);
}

#[test]
fn name_without_group_is_missing_group() {
    let toks = vec![ident("enum"), ident("Color"), Token::Punct(';')];
    assert_eq!(enum_size(&toks).unwrap_err(), GenError::MissingGroup);
}

#[test]
fn from_index_round_trips_every_declared_index() {
    let d = enum_from_usize(&flat_enum("Tool", &["Draw", "Entity", "Paint", "Zoom"])).unwrap();
    assert_eq!(d.name, "Tool");
    for i in 0..4 {
        let variant = d.from_index(i).unwrap().clone();
        assert_eq!(d.index_of(&variant), Some(i));
    }
}

#[test]
fn from_index_rejects_out_of_range() {
    let d = enum_from_usize(&flat_enum("Tool", &["Draw", "Entity"])).unwrap();
    assert_eq!(d.from_index(2).unwrap_err(), GenError::OutOfRangeIndex);
    assert_eq!(d.from_index(100).unwrap_err(), GenError::OutOfRangeIndex);
}

#[test]
fn iterator_yields_in_declaration_order_with_exact_remaining() {
    let d = enum_iter(&flat_enum("Color", &["Red", "Green", "Blue"])).unwrap();
    let mut it = d.iter();
    assert_eq!(it.remaining(), 3);
    assert_eq!(it.next().unwrap(), "Red");
    assert_eq!(it.remaining(), 2);
    assert_eq!(it.next().unwrap(), "Green");
    assert_eq!(it.remaining(), 1);
    assert_eq!(it.next().unwrap(), "Blue");
    assert_eq!(it.remaining(), 0);
    assert!(it.next().is_none());
    assert_eq!(it.remaining(), 0);
}

#[test]
fn iterator_is_restartable() {
    let d = enum_iter(&flat_enum("Color", &["Red", "Green"])).unwrap();
    let mut first = d.iter();
    let collected_first = [first.next().cloned(), first.next().cloned()];
    let mut second = d.iter();
    assert_eq!(second.remaining(), 2);
    let collected_second = [second.next().cloned(), second.next().cloned()];
    assert_eq!(collected_first, collected_second);
    assert_eq!(collected_first[0].as_deref(), Some("Red"));
    assert_eq!(collected_first[1].as_deref(), Some("Green"));
}
