//! Scalar and enum codec behaviour: token parsing, enum code tables,
//! the open font-style fallback and closed-enum rejection.

use srv3_ttml::codec::{
    anchor_point_from_code, edge_type_from_code, font_style_from_code, font_style_to_code,
    justify_from_code, justify_to_code, mode_hint_from_code, rotation_from_code,
    ruby_style_from_code, text_emphasis_from_code, text_offset_from_code,
};
use srv3_ttml::model::{AnchorPoint, EdgeType, FontStyle, Justify, ModeHint, RubyStyle,
    TextEmphasis, TextOffset};
use srv3_ttml::token::{parse_bool_str, parse_color_str, parse_i32_str, parse_u32_str,
    parse_u64_str};
use srv3_ttml::model::Color;

#[test]
fn parse_u64_tokens() {
    assert_eq!(parse_u64_str("0"), Some(0));
    assert_eq!(parse_u64_str("42"), Some(42));
    assert_eq!(parse_u64_str("18446744073709551615"), Some(u64::MAX));
    assert_eq!(parse_u64_str("18446744073709551616"), None);
    assert_eq!(parse_u64_str(""), None);
    assert_eq!(parse_u64_str("12a"), None);
    assert_eq!(parse_u64_str("-3"), None);
}

#[test]
fn parse_i32_tokens() {
    assert_eq!(parse_i32_str("-15"), Some(-15));
    assert_eq!(parse_i32_str("2147483647"), Some(i32::MAX));
    assert_eq!(parse_i32_str("-2147483648"), Some(i32::MIN));
    assert_eq!(parse_i32_str("2147483648"), None);
    assert_eq!(parse_i32_str("-"), None);
    assert_eq!(parse_u32_str("4294967295"), Some(u32::MAX));
    assert_eq!(parse_u32_str("4294967296"), None);
}

#[test]
fn parse_bool_tokens() {
    assert_eq!(parse_bool_str("1"), Some(true));
    assert_eq!(parse_bool_str("0"), Some(false));
    assert_eq!(parse_bool_str("true"), None);
    assert_eq!(parse_bool_str(""), None);
}

#[test]
fn parse_color_tokens() {
    assert_eq!(
        parse_color_str("#FF8000"),
        Some(Color { r: 255, g: 128, b: 0 })
    );
    assert_eq!(
        parse_color_str("#ff8000"),
        Some(Color { r: 255, g: 128, b: 0 })
    );
    assert_eq!(parse_color_str("#FF800"), None);
    assert_eq!(parse_color_str("FF8000"), None);
    assert_eq!(parse_color_str("#GG0000"), None);
}

#[test]
fn justify_codes() {
    assert_eq!(justify_from_code(0), Some(Justify::Left));
    assert_eq!(justify_from_code(1), Some(Justify::Right));
    assert_eq!(justify_from_code(2), Some(Justify::Center));
    assert_eq!(justify_from_code(3), None);
    assert_eq!(justify_to_code(Justify::Center), 2);
}

#[test]
fn ruby_style_codes_skip_three() {
    assert_eq!(ruby_style_from_code(0), Some(RubyStyle::NoRuby));
    assert_eq!(ruby_style_from_code(1), Some(RubyStyle::Base));
    assert_eq!(ruby_style_from_code(2), Some(RubyStyle::Parenthesis));
    assert_eq!(ruby_style_from_code(3), None);
    assert_eq!(ruby_style_from_code(4), Some(RubyStyle::BeforeText));
    assert_eq!(ruby_style_from_code(5), Some(RubyStyle::AfterText));
}

#[test]
fn closed_enum_tables() {
    assert_eq!(edge_type_from_code(4), Some(EdgeType::SoftShadow));
    assert_eq!(edge_type_from_code(5), None);
    assert_eq!(anchor_point_from_code(8), Some(AnchorPoint::BottomRight));
    assert_eq!(anchor_point_from_code(9), None);
    assert_eq!(mode_hint_from_code(2), Some(ModeHint::Scroll));
    assert_eq!(mode_hint_from_code(3), None);
    assert_eq!(rotation_from_code(3), Some(srv3_ttml::model::Rotation::TwoSeventy));
    assert_eq!(rotation_from_code(4), None);
    assert_eq!(text_emphasis_from_code(1), Some(TextEmphasis::Allow));
    assert_eq!(text_emphasis_from_code(0), None);
    assert_eq!(text_offset_from_code(2), Some(TextOffset::Subscript));
    assert_eq!(text_offset_from_code(3), None);
}

#[test]
fn font_style_is_open() {
    assert_eq!(font_style_from_code(7), FontStyle::SmallCaps);
    // An uncatalogued code falls back to the default face instead of
    // failing, and re-encodes as the canonical default code.
    assert_eq!(font_style_from_code(99), FontStyle::Default);
    assert_eq!(font_style_to_code(font_style_from_code(99)), 0);
    assert_eq!(font_style_to_code(font_style_from_code(5)), 5);
}
