//! Attribute codecs: the scalar translations between textual XML attribute
//! tokens and typed values.
//!
//! Every codec comes in an exec form with an exact contract over a spec
//! function, so that the decoder and the encoder provably apply the same
//! rules. Closed enums reject unknown codes; the font-style enum is open
//! and falls back to its default face; the default-suppression policy
//! (opacity 255, mode hint "none") is centralized here.

use vstd::prelude::*;
use crate::model::{
    AnchorPoint, Color, EdgeType, FontStyle, Justify, ModeHint, Rotation, RubyStyle,
    TextEmphasis, TextOffset,
};

verus! {

// ---------------------------------------------------------------------
// Closed enum code tables
// ---------------------------------------------------------------------

/// Wire code of a [`Justify`] value.
pub open spec fn justify_code(v: Justify) -> u32 {
    match v {
        Justify::Left => 0,
        Justify::Right => 1,
        Justify::Center => 2,
    }
}

/// The [`Justify`] value of a wire code; `None` outside the closed set.
pub open spec fn justify_of_code(c: u32) -> Option<Justify> {
    if c == 0 {
        Some(Justify::Left)
    } else if c == 1 {
        Some(Justify::Right)
    } else if c == 2 {
        Some(Justify::Center)
    } else {
        None
    }
}

pub fn justify_to_code(v: Justify) -> (c: u32)
    ensures
        c == justify_code(v),
{
    match v {
        Justify::Left => 0,
        Justify::Right => 1,
        Justify::Center => 2,
    }
}

pub fn justify_from_code(c: u32) -> (r: Option<Justify>)
    ensures
        r == justify_of_code(c),
{
    if c == 0 {
        Some(Justify::Left)
    } else if c == 1 {
        Some(Justify::Right)
    } else if c == 2 {
        Some(Justify::Center)
    } else {
        None
    }
}

/// Decoding the code a value encodes to yields that value back.
pub proof fn lemma_justify_round_trip(v: Justify)
    ensures
        justify_of_code(justify_code(v)) == Some(v),
{
}

/// Wire code of a [`TextEmphasis`] value.
pub open spec fn text_emphasis_code(v: TextEmphasis) -> u32 {
    match v {
        TextEmphasis::Allow => 1,
        TextEmphasis::Deny => 2,
    }
}

/// The [`TextEmphasis`] value of a wire code; `None` outside the closed set.
pub open spec fn text_emphasis_of_code(c: u32) -> Option<TextEmphasis> {
    if c == 1 {
        Some(TextEmphasis::Allow)
    } else if c == 2 {
        Some(TextEmphasis::Deny)
    } else {
        None
    }
}

pub fn text_emphasis_to_code(v: TextEmphasis) -> (c: u32)
    ensures
        c == text_emphasis_code(v),
{
    match v {
        TextEmphasis::Allow => 1,
        TextEmphasis::Deny => 2,
    }
}

pub fn text_emphasis_from_code(c: u32) -> (r: Option<TextEmphasis>)
    ensures
        r == text_emphasis_of_code(c),
{
    if c == 1 {
        Some(TextEmphasis::Allow)
    } else if c == 2 {
        Some(TextEmphasis::Deny)
    } else {
        None
    }
}

/// Decoding the code a value encodes to yields that value back.
pub proof fn lemma_text_emphasis_round_trip(v: TextEmphasis)
    ensures
        text_emphasis_of_code(text_emphasis_code(v)) == Some(v),
{
}

/// Wire code of a [`TextOffset`] value.
pub open spec fn text_offset_code(v: TextOffset) -> u32 {
    match v {
        TextOffset::Superscript => 1,
        TextOffset::Subscript => 2,
    }
}

/// The [`TextOffset`] value of a wire code; `None` outside the closed set.
pub open spec fn text_offset_of_code(c: u32) -> Option<TextOffset> {
    if c == 1 {
        Some(TextOffset::Superscript)
    } else if c == 2 {
        Some(TextOffset::Subscript)
    } else {
        None
    }
}

pub fn text_offset_to_code(v: TextOffset) -> (c: u32)
    ensures
        c == text_offset_code(v),
{
    match v {
        TextOffset::Superscript => 1,
        TextOffset::Subscript => 2,
    }
}

pub fn text_offset_from_code(c: u32) -> (r: Option<TextOffset>)
    ensures
        r == text_offset_of_code(c),
{
    if c == 1 {
        Some(TextOffset::Superscript)
    } else if c == 2 {
        Some(TextOffset::Subscript)
    } else {
        None
    }
}

/// Decoding the code a value encodes to yields that value back.
pub proof fn lemma_text_offset_round_trip(v: TextOffset)
    ensures
        text_offset_of_code(text_offset_code(v)) == Some(v),
{
}

/// Wire code of a [`RubyStyle`] value. The code 3 is unassigned in the
/// dialect, so the table skips it.
pub open spec fn ruby_style_code(v: RubyStyle) -> u32 {
    match v {
        RubyStyle::NoRuby => 0,
        RubyStyle::Base => 1,
        RubyStyle::Parenthesis => 2,
        RubyStyle::BeforeText => 4,
        RubyStyle::AfterText => 5,
    }
}

/// The [`RubyStyle`] value of a wire code; `None` outside the closed set.
pub open spec fn ruby_style_of_code(c: u32) -> Option<RubyStyle> {
    if c == 0 {
        Some(RubyStyle::NoRuby)
    } else if c == 1 {
        Some(RubyStyle::Base)
    } else if c == 2 {
        Some(RubyStyle::Parenthesis)
    } else if c == 4 {
        Some(RubyStyle::BeforeText)
    } else if c == 5 {
        Some(RubyStyle::AfterText)
    } else {
        None
    }
}

pub fn ruby_style_to_code(v: RubyStyle) -> (c: u32)
    ensures
        c == ruby_style_code(v),
{
    match v {
        RubyStyle::NoRuby => 0,
        RubyStyle::Base => 1,
        RubyStyle::Parenthesis => 2,
        RubyStyle::BeforeText => 4,
        RubyStyle::AfterText => 5,
    }
}

pub fn ruby_style_from_code(c: u32) -> (r: Option<RubyStyle>)
    ensures
        r == ruby_style_of_code(c),
{
    if c == 0 {
        Some(RubyStyle::NoRuby)
    } else if c == 1 {
        Some(RubyStyle::Base)
    } else if c == 2 {
        Some(RubyStyle::Parenthesis)
    } else if c == 4 {
        Some(RubyStyle::BeforeText)
    } else if c == 5 {
        Some(RubyStyle::AfterText)
    } else {
        None
    }
}

/// Decoding the code a value encodes to yields that value back.
pub proof fn lemma_ruby_style_round_trip(v: RubyStyle)
    ensures
        ruby_style_of_code(ruby_style_code(v)) == Some(v),
{
}

/// Wire code of an [`EdgeType`] value.
pub open spec fn edge_type_code(v: EdgeType) -> u32 {
    match v {
        EdgeType::NoEdge => 0,
        EdgeType::HardShadow => 1,
        EdgeType::Bevel => 2,
        EdgeType::Glow => 3,
        EdgeType::SoftShadow => 4,
    }
}

/// The [`EdgeType`] value of a wire code; `None` outside the closed set.
pub open spec fn edge_type_of_code(c: u32) -> Option<EdgeType> {
    if c == 0 {
        Some(EdgeType::NoEdge)
    } else if c == 1 {
        Some(EdgeType::HardShadow)
    } else if c == 2 {
        Some(EdgeType::Bevel)
    } else if c == 3 {
        Some(EdgeType::Glow)
    } else if c == 4 {
        Some(EdgeType::SoftShadow)
    } else {
        None
    }
}

pub fn edge_type_to_code(v: EdgeType) -> (c: u32)
    ensures
        c == edge_type_code(v),
{
    match v {
        EdgeType::NoEdge => 0,
        EdgeType::HardShadow => 1,
        EdgeType::Bevel => 2,
        EdgeType::Glow => 3,
        EdgeType::SoftShadow => 4,
    }
}

pub fn edge_type_from_code(c: u32) -> (r: Option<EdgeType>)
    ensures
        r == edge_type_of_code(c),
{
    if c == 0 {
        Some(EdgeType::NoEdge)
    } else if c == 1 {
        Some(EdgeType::HardShadow)
    } else if c == 2 {
        Some(EdgeType::Bevel)
    } else if c == 3 {
        Some(EdgeType::Glow)
    } else if c == 4 {
        Some(EdgeType::SoftShadow)
    } else {
        None
    }
}

/// Decoding the code a value encodes to yields that value back.
pub proof fn lemma_edge_type_round_trip(v: EdgeType)
    ensures
        edge_type_of_code(edge_type_code(v)) == Some(v),
{
}

/// Wire code of an [`AnchorPoint`] value.
pub open spec fn anchor_point_code(v: AnchorPoint) -> u32 {
    match v {
        AnchorPoint::TopLeft => 0,
        AnchorPoint::TopCenter => 1,
        AnchorPoint::TopRight => 2,
        AnchorPoint::MiddleLeft => 3,
        AnchorPoint::Center => 4,
        AnchorPoint::MiddleRight => 5,
        AnchorPoint::BottomLeft => 6,
        AnchorPoint::BottomCenter => 7,
        AnchorPoint::BottomRight => 8,
    }
}

/// The [`AnchorPoint`] value of a wire code; `None` outside the closed set.
pub open spec fn anchor_point_of_code(c: u32) -> Option<AnchorPoint> {
    if c == 0 {
        Some(AnchorPoint::TopLeft)
    } else if c == 1 {
        Some(AnchorPoint::TopCenter)
    } else if c == 2 {
        Some(AnchorPoint::TopRight)
    } else if c == 3 {
        Some(AnchorPoint::MiddleLeft)
    } else if c == 4 {
        Some(AnchorPoint::Center)
    } else if c == 5 {
        Some(AnchorPoint::MiddleRight)
    } else if c == 6 {
        Some(AnchorPoint::BottomLeft)
    } else if c == 7 {
        Some(AnchorPoint::BottomCenter)
    } else if c == 8 {
        Some(AnchorPoint::BottomRight)
    } else {
        None
    }
}

pub fn anchor_point_to_code(v: AnchorPoint) -> (c: u32)
    ensures
        c == anchor_point_code(v),
{
    match v {
        AnchorPoint::TopLeft => 0,
        AnchorPoint::TopCenter => 1,
        AnchorPoint::TopRight => 2,
        AnchorPoint::MiddleLeft => 3,
        AnchorPoint::Center => 4,
        AnchorPoint::MiddleRight => 5,
        AnchorPoint::BottomLeft => 6,
        AnchorPoint::BottomCenter => 7,
        AnchorPoint::BottomRight => 8,
    }
}

pub fn anchor_point_from_code(c: u32) -> (r: Option<AnchorPoint>)
    ensures
        r == anchor_point_of_code(c),
{
    if c == 0 {
        Some(AnchorPoint::TopLeft)
    } else if c == 1 {
        Some(AnchorPoint::TopCenter)
    } else if c == 2 {
        Some(AnchorPoint::TopRight)
    } else if c == 3 {
        Some(AnchorPoint::MiddleLeft)
    } else if c == 4 {
        Some(AnchorPoint::Center)
    } else if c == 5 {
        Some(AnchorPoint::MiddleRight)
    } else if c == 6 {
        Some(AnchorPoint::BottomLeft)
    } else if c == 7 {
        Some(AnchorPoint::BottomCenter)
    } else if c == 8 {
        Some(AnchorPoint::BottomRight)
    } else {
        None
    }
}

/// Decoding the code a value encodes to yields that value back.
pub proof fn lemma_anchor_point_round_trip(v: AnchorPoint)
    ensures
        anchor_point_of_code(anchor_point_code(v)) == Some(v),
{
}

/// Wire code of a [`ModeHint`] value.
pub open spec fn mode_hint_code(v: ModeHint) -> u32 {
    match v {
        ModeHint::NoHint => 0,
        ModeHint::Default => 1,
        ModeHint::Scroll => 2,
    }
}

/// The [`ModeHint`] value of a wire code; `None` outside the closed set.
pub open spec fn mode_hint_of_code(c: u32) -> Option<ModeHint> {
    if c == 0 {
        Some(ModeHint::NoHint)
    } else if c == 1 {
        Some(ModeHint::Default)
    } else if c == 2 {
        Some(ModeHint::Scroll)
    } else {
        None
    }
}

pub fn mode_hint_to_code(v: ModeHint) -> (c: u32)
    ensures
        c == mode_hint_code(v),
{
    match v {
        ModeHint::NoHint => 0,
        ModeHint::Default => 1,
        ModeHint::Scroll => 2,
    }
}

pub fn mode_hint_from_code(c: u32) -> (r: Option<ModeHint>)
    ensures
        r == mode_hint_of_code(c),
{
    if c == 0 {
        Some(ModeHint::NoHint)
    } else if c == 1 {
        Some(ModeHint::Default)
    } else if c == 2 {
        Some(ModeHint::Scroll)
    } else {
        None
    }
}

/// Decoding the code a value encodes to yields that value back.
pub proof fn lemma_mode_hint_round_trip(v: ModeHint)
    ensures
        mode_hint_of_code(mode_hint_code(v)) == Some(v),
{
}

/// Wire code of a [`Rotation`] value.
pub open spec fn rotation_code(v: Rotation) -> u32 {
    match v {
        Rotation::Zero => 0,
        Rotation::Ninety => 1,
        Rotation::OneEighty => 2,
        Rotation::TwoSeventy => 3,
    }
}

/// The [`Rotation`] value of a wire code; `None` outside the closed set.
pub open spec fn rotation_of_code(c: u32) -> Option<Rotation> {
    if c == 0 {
        Some(Rotation::Zero)
    } else if c == 1 {
        Some(Rotation::Ninety)
    } else if c == 2 {
        Some(Rotation::OneEighty)
    } else if c == 3 {
        Some(Rotation::TwoSeventy)
    } else {
        None
    }
}

pub fn rotation_to_code(v: Rotation) -> (c: u32)
    ensures
        c == rotation_code(v),
{
    match v {
        Rotation::Zero => 0,
        Rotation::Ninety => 1,
        Rotation::OneEighty => 2,
        Rotation::TwoSeventy => 3,
    }
}

pub fn rotation_from_code(c: u32) -> (r: Option<Rotation>)
    ensures
        r == rotation_of_code(c),
{
    if c == 0 {
        Some(Rotation::Zero)
    } else if c == 1 {
        Some(Rotation::Ninety)
    } else if c == 2 {
        Some(Rotation::OneEighty)
    } else if c == 3 {
        Some(Rotation::TwoSeventy)
    } else {
        None
    }
}

/// Decoding the code a value encodes to yields that value back.
pub proof fn lemma_rotation_round_trip(v: Rotation)
    ensures
        rotation_of_code(rotation_code(v)) == Some(v),
{
}

// ---------------------------------------------------------------------
// The open enum: font style
// ---------------------------------------------------------------------

/// Canonical wire code of a [`FontStyle`] value.
pub open spec fn font_style_code(v: FontStyle) -> u32 {
    match v {
        FontStyle::Default => 0,
        FontStyle::MonoSerif => 1,
        FontStyle::ProportionalSerif => 2,
        FontStyle::MonoSans => 3,
        FontStyle::ProportionalSans => 4,
        FontStyle::Casual => 5,
        FontStyle::Cursive => 6,
        FontStyle::SmallCaps => 7,
    }
}

/// The [`FontStyle`] of a wire code. This decode is total: any code
/// outside the catalogued set yields [`FontStyle::Default`], because
/// producers emit forward-compatible codes for faces not yet catalogued.
pub open spec fn font_style_of_code(c: u32) -> FontStyle {
    if c == 1 {
        FontStyle::MonoSerif
    } else if c == 2 {
        FontStyle::ProportionalSerif
    } else if c == 3 {
        FontStyle::MonoSans
    } else if c == 4 {
        FontStyle::ProportionalSans
    } else if c == 5 {
        FontStyle::Casual
    } else if c == 6 {
        FontStyle::Cursive
    } else if c == 7 {
        FontStyle::SmallCaps
    } else {
        FontStyle::Default
    }
}

pub fn font_style_to_code(v: FontStyle) -> (c: u32)
    ensures
        c == font_style_code(v),
{
    match v {
        FontStyle::Default => 0,
        FontStyle::MonoSerif => 1,
        FontStyle::ProportionalSerif => 2,
        FontStyle::MonoSans => 3,
        FontStyle::ProportionalSans => 4,
        FontStyle::Casual => 5,
        FontStyle::Cursive => 6,
        FontStyle::SmallCaps => 7,
    }
}

pub fn font_style_from_code(c: u32) -> (r: FontStyle)
    ensures
        r == font_style_of_code(c),
{
    if c == 1 {
        FontStyle::MonoSerif
    } else if c == 2 {
        FontStyle::ProportionalSerif
    } else if c == 3 {
        FontStyle::MonoSans
    } else if c == 4 {
        FontStyle::ProportionalSans
    } else if c == 5 {
        FontStyle::Casual
    } else if c == 6 {
        FontStyle::Cursive
    } else if c == 7 {
        FontStyle::SmallCaps
    } else {
        FontStyle::Default
    }
}

/// The open-enum fallback law: every code decodes to some face, a code
/// outside the catalogued set decodes to the default face, and re-encoding
/// the decoded face emits the canonical code — the original code for a
/// catalogued face, the default code 0 for any other.
pub proof fn lemma_font_style_fallback(c: u32)
    ensures
        c > 7 ==> font_style_of_code(c) == FontStyle::Default,
        c <= 7 ==> font_style_code(font_style_of_code(c)) == c,
        c > 7 ==> font_style_code(font_style_of_code(c)) == 0,
{
}

/// Decoding the canonical code a face encodes to yields that face back.
pub proof fn lemma_font_style_round_trip(v: FontStyle)
    ensures
        font_style_of_code(font_style_code(v)) == v,
{
}

} // verus!
