//! Tests for the height allocator and the color generator: sectioned
//! parsing, aliases, the layered height pipeline and its fail-fast order
//! checks.

use variantgen::GenError;
use variantgen::color::color_enum;
use variantgen::height::allocate;
use variantgen::token::Token;

fn ident(s: &str) -> Token {
    Token::Ident(String::from(s))
}

fn comma() -> Token {
    Token::Punct(',')
}

fn colon() -> Token {
    Token::Punct(':')
}

/// `clear: Hull, extensions: Ext, grid: Lines, entities: Ent | Alias, Thing, ui: Hover`
fn sample_sections() -> Vec<Token> {
    vec![
        ident("clear"),
        colon(),
        ident("Hull"),
        comma(),
        ident("extensions"),
        colon(),
        ident("Ext"),
        comma(),
        ident("grid"),
        colon(),
        ident("Lines"),
        comma(),
        ident("entities"),
        colon(),
        ident("Ent"),
        Token::Punct('|'),
        ident("Alias"),
        comma(),
        ident("Thing"),
        comma(),
        ident("ui"),
        colon(),
        ident("Hover"),
    ]
}

#[test]
fn allocate_bands_of_two_and_three_with_gap_one() {
    // Sections of sizes [2, 3], interval 1, starting at 1, with a gap of 1
    // between the passes: {1, 2} then {4, 5, 6}, no height repeated.
    let (first, next) = allocate(2, 1, 1);
    assert_eq!(first, vec![1, 2]);
    assert_eq!(next, 3);
    let gap = 1;
    let (second, after) = allocate(3, next + gap, 1);
    assert_eq!(second, vec![4, 5, 6]);
    assert_eq!(after, 7);
    for a in &first {
        for b in &second {
            assert_ne!(a, b);
        }
    }
}

#[test]
fn color_enum_assembles_arms_and_heights() {
    let d = color_enum(&sample_sections(), 2).unwrap();
    assert_eq!(d.sections.clear, "Hull");
    assert_eq!(d.sections.extensions, "Ext");
    assert_eq!(d.sections.grid.len(), 1);
    assert_eq!(d.sections.entities.len(), 2);
    assert_eq!(d.sections.ui.len(), 1);

    // Arms cover every identifier, aliases included, in declaration order.
    let idents: Vec<&str> = d.key_arms.iter().map(|a| a.ident.as_str()).collect();
    assert_eq!(idents, ["Hull", "Ext", "Lines", "Ent", "Alias", "Thing", "Hover"]);
    let keys: Vec<&str> = d.key_arms.iter().map(|a| a.text.as_str()).collect();
    assert_eq!(keys, ["hull", "ext", "lines", "ent", "alias", "thing", "hover"]);
    let labels: Vec<&str> = d.label_arms.iter().map(|a| a.text.as_str()).collect();
    assert_eq!(labels, ["Hull", "Ext", "Lines", "Ent", "Alias", "Thing", "Hover"]);

    // Entity pass: interval 3 (texture interval 2 plus 1), one height per
    // slot: the alias shares its slot.
    assert_eq!(d.entity_heights, vec![1, 4]);
    assert_eq!(d.clip_height, 7);
    // Line pass: grid, extensions, entities, ui: five slots from 8 on.
    assert_eq!(d.line_heights, vec![8, 9, 10, 11, 12]);
    assert_eq!(d.thing_angle_height, 13);
    // Square-highlight pass: ui slots only, past the indicator pair.
    assert_eq!(d.square_hgl_heights, vec![15]);

    // No height is assigned twice anywhere in the pipeline.
    let mut all: Vec<u64> = Vec::new();
    all.extend(&d.entity_heights);
    all.extend(&d.line_heights);
    all.push(d.thing_angle_height);
    all.push(d.thing_angle_height + 1);
    all.extend(&d.square_hgl_heights);
    for i in 0..all.len() {
        for j in 0..all.len() {
            if i != j {
                assert_ne!(all[i], all[j]);
            }
        }
    }
}

#[test]
fn alias_occupies_one_slot_but_gets_own_strings() {
    let d = color_enum(&sample_sections(), 0).unwrap();
    // Two entity slots despite three entity identifiers.
    assert_eq!(d.sections.entities.len(), 2);
    assert_eq!(d.sections.entities[0].primary, "Ent");
    assert_eq!(d.sections.entities[0].aliases, vec![String::from("Alias")]);
    assert_eq!(d.entity_heights.len(), 2);
    // Both the primary and the alias carry their own key and label.
    assert!(d.key_arms.iter().any(|a| a.ident == "Ent" && a.text == "ent"));
    assert!(d.key_arms.iter().any(|a| a.ident == "Alias" && a.text == "alias"));
    assert!(d.label_arms.iter().any(|a| a.ident == "Alias" && a.text == "Alias"));
}

#[test]
fn out_of_order_keywords_fail_fast() {
    // The declaration must open with `clear`.
    let mut toks = sample_sections();
    toks[0] = ident("grid");
    assert_eq!(color_enum(&toks, 1).unwrap_err(), GenError::UnexpectedToken);

    // A section keyword other than the expected terminator inside a body.
    let mut reordered = sample_sections();
    reordered[12] = ident("ui");
    assert_eq!(color_enum(&reordered, 1).unwrap_err(), GenError::UnexpectedToken);
}

#[test]
fn truncated_section_loses_its_keyword() {
    let mut toks = sample_sections();
    toks.truncate(12);
    assert_eq!(color_enum(&toks, 1).unwrap_err(), GenError::MissingKeyword);
}

#[test]
fn alias_marker_needs_a_preceding_slot_and_a_following_identifier() {
    let mut toks = sample_sections();
    toks.insert(10, Token::Punct('|'));
    assert_eq!(color_enum(&toks, 1).unwrap_err(), GenError::UnexpectedToken);
    let mut tail = sample_sections();
    tail.push(Token::Punct('|'));
    assert_eq!(color_enum(&tail, 1).unwrap_err(), GenError::UnexpectedToken);
}
