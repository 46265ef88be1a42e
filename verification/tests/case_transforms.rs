//! Tests for the identifier case transformer.

use variantgen::case::{bind_key, bind_label, file_name, header, key, label, pascal, to_lowercase, to_uppercase};

#[test]
fn label_splits_case_boundaries() {
    assert_eq!(label("MoveThing"), "Move Thing");
    assert_eq!(label("Entity"), "Entity");
    assert_eq!(label("A"), "A");
    assert_eq!(label("FreeDrawSquare"), "Free Draw Square");
}

#[test]
fn key_lowercases_with_underscores() {
    assert_eq!(key("MoveThing"), "move_thing");
    assert_eq!(key("Entity"), "entity");
    assert_eq!(key("FreeDrawSquare"), "free_draw_square");
}

#[test]
fn key_of_reworded_label_is_key() {
    // Lowercasing the label and replacing its spaces with underscores,
    // then taking the key of the result, reproduces the key directly.
    for id in ["MoveThing", "Entity", "FreeDrawSquare", "Ui", "SoftClip"] {
        let reworded = label(id).to_lowercase().replace(' ', "_");
        assert_eq!(key(&reworded), key(id));
        assert_eq!(reworded, key(id));
    }
}

#[test]
fn header_uppercases_label_and_appends_suffix() {
    assert_eq!(header("MoveThing", " TOOL"), "MOVE THING TOOL");
    assert_eq!(header("Clip", " SUBTOOL"), "CLIP SUBTOOL");
}

#[test]
fn file_name_appends_extension_to_key() {
    assert_eq!(file_name("MoveThing", ".png"), "move_thing.png");
    assert_eq!(file_name("Clip", ".md"), "clip.md");
}

#[test]
fn bind_forms_treat_underscores_as_boundaries() {
    assert_eq!(bind_label("ToggleGrid"), "Toggle Grid");
    assert_eq!(bind_key("ToggleGrid"), "toggle_grid");
    assert_eq!(bind_label("snap_toggle"), "snap toggle");
    assert_eq!(bind_key("snap_toggle"), "snap_toggle");
}

#[test]
fn pascal_recovers_identifier_from_phrase() {
    assert_eq!(pascal("move thing", ' '), "MoveThing");
    assert_eq!(pascal("vertex_insert", '_'), "VertexInsert");
    assert_eq!(pascal("entity", ' '), "Entity");
}

#[test]
fn case_folding_helpers() {
    assert_eq!(to_lowercase(&String::from("MOVE THING")), "move thing");
    assert_eq!(to_uppercase(&String::from("move thing")), "MOVE THING");
}
