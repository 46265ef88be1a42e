//! Tests for the tool, subtool and bind generators.

use variantgen::GenError;
use variantgen::token::{Delim, Token};
use variantgen::tools::{bind_enum, declare_tool_enum, subtool_enum, tools_common};

fn ident(s: &str) -> Token {
    Token::Ident(String::from(s))
}

fn flat_enum(name: &str, variants: &[&str]) -> Vec<Token> {
    let mut children = Vec::new();
    for (i, v) in variants.iter().enumerate() {
        if i > 0 {
            children.push(Token::Punct(','));
        }
        children.push(ident(v));
    }
    vec![ident("enum"), ident(name), Token::Group(Delim::Brace, children)]
}

#[test]
fn tools_common_builds_header_and_icon() {
    let (header, icon) = tools_common("MoveThing", " TOOL");
    assert_eq!(header, "MOVE THING TOOL");
    assert_eq!(icon, "move_thing.png");
}

#[test]
fn tool_enum_arms() {
    let d = declare_tool_enum(&flat_enum("Tool", &["Draw", "MoveThing"])).unwrap();
    assert_eq!(d.arms.len(), 2);
    assert_eq!(d.arms[0].ident, "Draw");
    assert_eq!(d.arms[0].label, "Draw");
    assert_eq!(d.arms[0].header, "DRAW TOOL");
    assert_eq!(d.arms[0].icon_file_name, "draw.png");
    assert_eq!(d.arms[1].label, "Move Thing");
    assert_eq!(d.arms[1].header, "MOVE THING TOOL");
    assert_eq!(d.arms[1].icon_file_name, "move_thing.png");
}

#[test]
fn tool_enum_must_be_named_tool() {
    let e = declare_tool_enum(&flat_enum("Widget", &["Draw"])).unwrap_err();
    assert_eq!(e, GenError::UnexpectedToken);
}

#[test]
fn subtool_enum_splits_tool_label_and_bind() {
    let d = subtool_enum(&flat_enum("SubTool", &["VertexInsert", "PathFreeDraw"])).unwrap();
    let a = &d.arms[0];
    assert_eq!(a.ident, "VertexInsert");
    assert_eq!(a.tool, "Vertex");
    assert_eq!(a.label, "Insert");
    assert_eq!(a.bind_key, "vertex_insert");
    assert_eq!(a.header, "VERTEX INSERT SUBTOOL");
    assert_eq!(a.icon_file_name, "vertex_insert.png");
    assert_eq!(a.bind_file_name, "vertex_insert.md");
    let b = &d.arms[1];
    assert_eq!(b.tool, "Path");
    assert_eq!(b.label, "Free Draw");
    assert_eq!(b.bind_key, "path_free_draw");
}

#[test]
fn subtool_enum_must_be_named_subtool() {
    let e = subtool_enum(&flat_enum("Tool", &["VertexInsert"])).unwrap_err();
    assert_eq!(e, GenError::UnexpectedToken);
}

#[test]
fn bind_enum_builds_labels_and_keys() {
    let toks = vec![Token::Group(
        Delim::Brace,
        vec![
            ident("ToggleGrid"),
            Token::Punct(','),
            ident("Snap"),
            Token::Punct(','),
            ident("soft_clip"),
        ],
    )];
    let d = bind_enum(&toks).unwrap();
    assert_eq!(d.arms.len(), 3);
    assert_eq!(d.arms[0].ident, "ToggleGrid");
    assert_eq!(d.arms[0].label, "Toggle Grid");
    assert_eq!(d.arms[0].key, "toggle_grid");
    assert_eq!(d.arms[1].label, "Snap");
    assert_eq!(d.arms[1].key, "snap");
    assert_eq!(d.arms[2].label, "soft clip");
    assert_eq!(d.arms[2].key, "soft_clip");
}

#[test]
fn bind_enum_without_group_is_missing_group() {
    assert_eq!(bind_enum(&vec![ident("Bind")]).unwrap_err(), GenError::MissingGroup);
    assert_eq!(bind_enum(&Vec::new()).unwrap_err(), GenError::MissingGroup);
}
