//! Tests for the template emitter.

use variantgen::Arm;
use variantgen::arrays::str_array;
use variantgen::emit::{render_arms, render_size_const, render_str_array};
use variantgen::enums::SizeConst;
use variantgen::token::Token;

#[test]
fn size_constant_text() {
    let d = SizeConst { name: String::from("Tool"), size: 14 };
    assert_eq!(render_size_const(&d), "impl Tool { pub const SIZE: usize = 14; }");
}

#[test]
fn match_arm_text() {
    let arms = vec![
        Arm { ident: String::from("MoveThing"), text: String::from("move_thing") },
        Arm { ident: String::from("Zoom"), text: String::from("zoom") },
    ];
    assert_eq!(
        render_arms(&arms),
        "Self::MoveThing => \"move_thing\",\nSelf::Zoom => \"zoom\",\n"
    );
    assert_eq!(render_arms(&Vec::new()), "");
}

#[test]
fn string_array_text() {
    let toks = vec![
        Token::Ident(String::from("ARRAY")),
        Token::Punct(','),
        Token::Lit(String::from("3")),
        Token::Punct(','),
        Token::Ident(String::from("i_")),
    ];
    let d = str_array(&toks).unwrap();
    assert_eq!(
        render_str_array(&d),
        "const ARRAY: [&'static str; 3] = [\"i_0\", \"i_1\", \"i_2\", ];"
    );
}
