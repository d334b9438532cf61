//! The decoder: maps a parsed XML tree onto the document model.
//!
//! Record attributes are read through exact spec-level codecs over
//! attribute lists, so that what the decoder accepts and what the
//! encoder emits are provably two sides of the same table. The body
//! grammar is closed: a child tag outside {p, s, br, div, text} fails
//! the decode.

use vstd::prelude::*;
use vstd::string::*;
use crate::model::{
    BodyElementV, BodyV, DecodeError, HeadV, ParagraphV, Pen, SpanV, TimedTextV, WindowPosition,
    WindowStyleV,
};
use crate::model::{AnchorPoint, Color, EdgeType, FontStyle, Justify, ModeHint, Rotation,
    RubyStyle, TextEmphasis, TextOffset};
use crate::codec::{
    anchor_point_of_code, edge_type_of_code, font_style_of_code, justify_of_code,
    mode_hint_of_code, rotation_of_code, ruby_style_of_code, text_emphasis_of_code,
    text_offset_of_code,
};
use crate::token::{
    parse_bool_token, parse_color_token, parse_i32_token, parse_u32_token, parse_u64_token,
    parse_u8_token,
};
use crate::token::{parse_bool_str, parse_color_str, parse_i32_str, parse_u32_str, parse_u64_str,
    parse_u8_str};
use crate::xml::{XmlAttr, XmlElement, XmlElementV, XmlNode, XmlNodeV};

verus! {

broadcast use
    vstd::seq::group_seq_axioms,
    vstd::std_specs::vec::axiom_vec_index_decreases,
    vstd::std_specs::vec::axiom_vec_decreases_to_view;

// ---------------------------------------------------------------------
// Attribute lookup
// ---------------------------------------------------------------------

/// The value of the first attribute named `name`, if any.
pub open spec fn find_attr_p(a: Seq<(Seq<char>, Seq<char>)>, name: Seq<char>) -> Option<Seq<char>>
    decreases a.len(),
{
    if a.len() == 0 {
        None
    } else if a.first().0 == name {
        Some(a.first().1)
    } else {
        find_attr_p(a.drop_first(), name)
    }
}

/// Where the first `i` entries miss `name` and entry `i` (if any)
/// carries it, the lookup result is decided.
proof fn lemma_find_attr_at(a: Seq<(Seq<char>, Seq<char>)>, name: Seq<char>, i: int)
    requires
        0 <= i <= a.len(),
        forall|j: int| 0 <= j < i ==> (#[trigger] a[j]).0 != name,
        i == a.len() || a[i].0 == name,
    ensures
        find_attr_p(a, name) == if i == a.len() {
            None::<Seq<char>>
        } else {
            Some(a[i].1)
        },
    decreases i,
{
    if i == 0 {
    } else {
        assert(a.first().0 != name);
        assert forall|j: int| 0 <= j < i - 1 implies (#[trigger] a.drop_first()[j]).0 != name by {
            assert(a.drop_first()[j] == a[j + 1]);
        }
        lemma_find_attr_at(a.drop_first(), name, i - 1);
        if i < a.len() {
            assert(a.drop_first()[i - 1] == a[i]);
        }
    }
}

/// Find the first attribute named `name`.
fn find_attr<'a>(attrs: &'a Vec<XmlAttr>, name: &str) -> (r: Option<&'a String>)
    ensures
        match r {
            Some(v) => find_attr_p(crate::xml::attrs_pairs(attrs@), name@) == Some(v@),
            None => find_attr_p(crate::xml::attrs_pairs(attrs@), name@) is None,
        },
{
    let n = attrs.len();
    let mut i: usize = 0;
    while i < n
        invariant
            0 <= i <= n,
            n == attrs@.len(),
            forall|j: int| 0 <= j < i ==> (#[trigger] crate::xml::attrs_pairs(attrs@)[j]).0 != name@,
        decreases n - i,
    {
        if crate::xml::str_eq(attrs[i].name.as_str(), name) {
            proof {
                lemma_find_attr_at(crate::xml::attrs_pairs(attrs@), name@, i as int);
            }
            return Some(&attrs[i].value);
        }
        proof {
            assert(crate::xml::attrs_pairs(attrs@)[i as int].0 == attrs@[i as int].name@);
        }
        i = i + 1;
    }
    proof {
        lemma_find_attr_at(crate::xml::attrs_pairs(attrs@), name@, n as int);
    }
    None
}

// ---------------------------------------------------------------------
// Field codecs over attribute lists
//
// Each reads one named attribute. An absent optional field is `None`;
// an unparsable scalar is malformed; a closed-enum code outside its set
// is an unrecognized enum value.
// ---------------------------------------------------------------------

/// An optional boolean field.
pub open spec fn dec_bool_field(a: Seq<(Seq<char>, Seq<char>)>, name: Seq<char>) -> Result<
    Option<bool>,
    DecodeError,
> {
    match find_attr_p(a, name) {
        None => Ok(None),
        Some(v) => match parse_bool_token(v) {
            Some(b) => Ok(Some(b)),
            None => Err(DecodeError::MalformedMarkup),
        },
    }
}

/// An optional unsigned 32-bit field.
pub open spec fn dec_u32_field(a: Seq<(Seq<char>, Seq<char>)>, name: Seq<char>) -> Result<
    Option<u32>,
    DecodeError,
> {
    match find_attr_p(a, name) {
        None => Ok(None),
        Some(v) => match parse_u32_token(v) {
            Some(x) => Ok(Some(x)),
            None => Err(DecodeError::MalformedMarkup),
        },
    }
}

/// An optional unsigned 8-bit field.
pub open spec fn dec_u8_field(a: Seq<(Seq<char>, Seq<char>)>, name: Seq<char>) -> Result<
    Option<u8>,
    DecodeError,
> {
    match find_attr_p(a, name) {
        None => Ok(None),
        Some(v) => match parse_u8_token(v) {
            Some(x) => Ok(Some(x)),
            None => Err(DecodeError::MalformedMarkup),
        },
    }
}

/// An optional signed 32-bit field.
pub open spec fn dec_i32_field(a: Seq<(Seq<char>, Seq<char>)>, name: Seq<char>) -> Result<
    Option<i32>,
    DecodeError,
> {
    match find_attr_p(a, name) {
        None => Ok(None),
        Some(v) => match parse_i32_token(v) {
            Some(x) => Ok(Some(x)),
            None => Err(DecodeError::MalformedMarkup),
        },
    }
}

/// An optional color field.
pub open spec fn dec_color_field(a: Seq<(Seq<char>, Seq<char>)>, name: Seq<char>) -> Result<
    Option<Color>,
    DecodeError,
> {
    match find_attr_p(a, name) {
        None => Ok(None),
        Some(v) => match parse_color_token(v) {
            Some(c) => Ok(Some(c)),
            None => Err(DecodeError::MalformedMarkup),
        },
    }
}

/// An optional 32-bit opacity. The explicit default 255 reads the same
/// as absence: both are `None` to callers.
pub open spec fn dec_opacity_u32_field(a: Seq<(Seq<char>, Seq<char>)>, name: Seq<char>) -> Result<
    Option<u32>,
    DecodeError,
> {
    match dec_u32_field(a, name) {
        Ok(Some(x)) => if x == 255 {
            Ok(None)
        } else {
            Ok(Some(x))
        },
        r => r,
    }
}

/// An optional 8-bit opacity. The explicit default 255 reads the same
/// as absence: both are `None` to callers.
pub open spec fn dec_opacity_u8_field(a: Seq<(Seq<char>, Seq<char>)>, name: Seq<char>) -> Result<
    Option<u8>,
    DecodeError,
> {
    match dec_u8_field(a, name) {
        Ok(Some(x)) => if x == 255 {
            Ok(None)
        } else {
            Ok(Some(x))
        },
        r => r,
    }
}

/// A required unsigned 32-bit field (a record id).
pub open spec fn dec_req_u32(a: Seq<(Seq<char>, Seq<char>)>, name: Seq<char>) -> Result<
    u32,
    DecodeError,
> {
    match find_attr_p(a, name) {
        None => Err(DecodeError::MissingRequiredAttribute),
        Some(v) => match parse_u32_token(v) {
            Some(x) => Ok(x),
            None => Err(DecodeError::MalformedMarkup),
        },
    }
}

/// A required unsigned 64-bit field (a timestamp or duration).
pub open spec fn dec_req_u64(a: Seq<(Seq<char>, Seq<char>)>, name: Seq<char>) -> Result<
    u64,
    DecodeError,
> {
    match find_attr_p(a, name) {
        None => Err(DecodeError::MissingRequiredAttribute),
        Some(v) => match parse_u64_token(v) {
            Some(x) => Ok(x),
            None => Err(DecodeError::MalformedMarkup),
        },
    }
}

/// Exec form of [`dec_bool_field`].
fn get_bool_field(attrs: &Vec<XmlAttr>, name: &str) -> (r: Result<Option<bool>, DecodeError>)
    ensures
        r == dec_bool_field(crate::xml::attrs_pairs(attrs@), name@),
{
    match find_attr(attrs, name) {
        None => Ok(None),
        Some(v) => match parse_bool_str(v.as_str()) {
            Some(b) => Ok(Some(b)),
            None => Err(DecodeError::MalformedMarkup),
        },
    }
}

/// Exec form of [`dec_u32_field`].
fn get_u32_field(attrs: &Vec<XmlAttr>, name: &str) -> (r: Result<Option<u32>, DecodeError>)
    ensures
        r == dec_u32_field(crate::xml::attrs_pairs(attrs@), name@),
{
    match find_attr(attrs, name) {
        None => Ok(None),
        Some(v) => match parse_u32_str(v.as_str()) {
            Some(x) => Ok(Some(x)),
            None => Err(DecodeError::MalformedMarkup),
        },
    }
}

/// Exec form of [`dec_u8_field`].
fn get_u8_field(attrs: &Vec<XmlAttr>, name: &str) -> (r: Result<Option<u8>, DecodeError>)
    ensures
        r == dec_u8_field(crate::xml::attrs_pairs(attrs@), name@),
{
    match find_attr(attrs, name) {
        None => Ok(None),
        Some(v) => match parse_u8_str(v.as_str()) {
            Some(x) => Ok(Some(x)),
            None => Err(DecodeError::MalformedMarkup),
        },
    }
}

/// Exec form of [`dec_i32_field`].
fn get_i32_field(attrs: &Vec<XmlAttr>, name: &str) -> (r: Result<Option<i32>, DecodeError>)
    ensures
        r == dec_i32_field(crate::xml::attrs_pairs(attrs@), name@),
{
    match find_attr(attrs, name) {
        None => Ok(None),
        Some(v) => match parse_i32_str(v.as_str()) {
            Some(x) => Ok(Some(x)),
            None => Err(DecodeError::MalformedMarkup),
        },
    }
}

/// Exec form of [`dec_color_field`].
fn get_color_field(attrs: &Vec<XmlAttr>, name: &str) -> (r: Result<Option<Color>, DecodeError>)
    ensures
        r == dec_color_field(crate::xml::attrs_pairs(attrs@), name@),
{
    match find_attr(attrs, name) {
        None => Ok(None),
        Some(v) => match parse_color_str(v.as_str()) {
            Some(c) => Ok(Some(c)),
            None => Err(DecodeError::MalformedMarkup),
        },
    }
}

/// Exec form of [`dec_opacity_u32_field`].
fn get_opacity_u32_field(attrs: &Vec<XmlAttr>, name: &str) -> (r: Result<
    Option<u32>,
    DecodeError,
>)
    ensures
        r == dec_opacity_u32_field(crate::xml::attrs_pairs(attrs@), name@),
{
    match get_u32_field(attrs, name) {
        Ok(Some(x)) => if x == 255 {
            Ok(None)
        } else {
            Ok(Some(x))
        },
        r => r,
    }
}

/// Exec form of [`dec_opacity_u8_field`].
fn get_opacity_u8_field(attrs: &Vec<XmlAttr>, name: &str) -> (r: Result<Option<u8>, DecodeError>)
    ensures
        r == dec_opacity_u8_field(crate::xml::attrs_pairs(attrs@), name@),
{
    match get_u8_field(attrs, name) {
        Ok(Some(x)) => if x == 255 {
            Ok(None)
        } else {
            Ok(Some(x))
        },
        r => r,
    }
}

/// Exec form of [`dec_req_u32`].
fn get_req_u32(attrs: &Vec<XmlAttr>, name: &str) -> (r: Result<u32, DecodeError>)
    ensures
        r == dec_req_u32(crate::xml::attrs_pairs(attrs@), name@),
{
    match find_attr(attrs, name) {
        None => Err(DecodeError::MissingRequiredAttribute),
        Some(v) => match parse_u32_str(v.as_str()) {
            Some(x) => Ok(x),
            None => Err(DecodeError::MalformedMarkup),
        },
    }
}

/// Exec form of [`dec_req_u64`].
fn get_req_u64(attrs: &Vec<XmlAttr>, name: &str) -> (r: Result<u64, DecodeError>)
    ensures
        r == dec_req_u64(crate::xml::attrs_pairs(attrs@), name@),
{
    match find_attr(attrs, name) {
        None => Err(DecodeError::MissingRequiredAttribute),
        Some(v) => match parse_u64_str(v.as_str()) {
            Some(x) => Ok(x),
            None => Err(DecodeError::MalformedMarkup),
        },
    }
}


// ---------------------------------------------------------------------
// Enum field codecs
// ---------------------------------------------------------------------

/// An optional justification field; a code outside the closed set is an
/// unrecognized enum value.
pub open spec fn dec_justify_field(a: Seq<(Seq<char>, Seq<char>)>, name: Seq<char>) -> Result<
    Option<Justify>,
    DecodeError,
> {
    match dec_u32_field(a, name) {
        Ok(Some(c)) => match justify_of_code(c) {
            Some(v) => Ok(Some(v)),
            None => Err(DecodeError::UnrecognizedEnumValue),
        },
        Ok(None) => Ok(None),
        Err(e) => Err(e),
    }
}

/// An optional text-emphasis field.
pub open spec fn dec_text_emphasis_field(a: Seq<(Seq<char>, Seq<char>)>, name: Seq<char>) -> Result<
    Option<TextEmphasis>,
    DecodeError,
> {
    match dec_u32_field(a, name) {
        Ok(Some(c)) => match text_emphasis_of_code(c) {
            Some(v) => Ok(Some(v)),
            None => Err(DecodeError::UnrecognizedEnumValue),
        },
        Ok(None) => Ok(None),
        Err(e) => Err(e),
    }
}

/// An optional text-offset field.
pub open spec fn dec_text_offset_field(a: Seq<(Seq<char>, Seq<char>)>, name: Seq<char>) -> Result<
    Option<TextOffset>,
    DecodeError,
> {
    match dec_u32_field(a, name) {
        Ok(Some(c)) => match text_offset_of_code(c) {
            Some(v) => Ok(Some(v)),
            None => Err(DecodeError::UnrecognizedEnumValue),
        },
        Ok(None) => Ok(None),
        Err(e) => Err(e),
    }
}

/// An optional ruby-style field.
pub open spec fn dec_ruby_style_field(a: Seq<(Seq<char>, Seq<char>)>, name: Seq<char>) -> Result<
    Option<RubyStyle>,
    DecodeError,
> {
    match dec_u32_field(a, name) {
        Ok(Some(c)) => match ruby_style_of_code(c) {
            Some(v) => Ok(Some(v)),
            None => Err(DecodeError::UnrecognizedEnumValue),
        },
        Ok(None) => Ok(None),
        Err(e) => Err(e),
    }
}

/// An optional edge-type field.
pub open spec fn dec_edge_type_field(a: Seq<(Seq<char>, Seq<char>)>, name: Seq<char>) -> Result<
    Option<EdgeType>,
    DecodeError,
> {
    match dec_u32_field(a, name) {
        Ok(Some(c)) => match edge_type_of_code(c) {
            Some(v) => Ok(Some(v)),
            None => Err(DecodeError::UnrecognizedEnumValue),
        },
        Ok(None) => Ok(None),
        Err(e) => Err(e),
    }
}

/// An optional anchor-point field.
pub open spec fn dec_anchor_point_field(a: Seq<(Seq<char>, Seq<char>)>, name: Seq<char>) -> Result<
    Option<AnchorPoint>,
    DecodeError,
> {
    match dec_u32_field(a, name) {
        Ok(Some(c)) => match anchor_point_of_code(c) {
            Some(v) => Ok(Some(v)),
            None => Err(DecodeError::UnrecognizedEnumValue),
        },
        Ok(None) => Ok(None),
        Err(e) => Err(e),
    }
}

/// An optional rotation field.
pub open spec fn dec_rotation_field(a: Seq<(Seq<char>, Seq<char>)>, name: Seq<char>) -> Result<
    Option<Rotation>,
    DecodeError,
> {
    match dec_u32_field(a, name) {
        Ok(Some(c)) => match rotation_of_code(c) {
            Some(v) => Ok(Some(v)),
            None => Err(DecodeError::UnrecognizedEnumValue),
        },
        Ok(None) => Ok(None),
        Err(e) => Err(e),
    }
}

/// The mode-hint field: absence decodes to the default [`ModeHint::NoHint`],
/// the explicit default therefore reads the same as absence.
pub open spec fn dec_mode_hint_field(a: Seq<(Seq<char>, Seq<char>)>, name: Seq<char>) -> Result<
    ModeHint,
    DecodeError,
> {
    match dec_u32_field(a, name) {
        Ok(Some(c)) => match mode_hint_of_code(c) {
            Some(v) => Ok(v),
            None => Err(DecodeError::UnrecognizedEnumValue),
        },
        Ok(None) => Ok(ModeHint::NoHint),
        Err(e) => Err(e),
    }
}

/// The open font-style field: any code decodes, an uncatalogued one to
/// the default face. This is the one enum that never yields
/// [`DecodeError::UnrecognizedEnumValue`].
pub open spec fn dec_font_style_field(a: Seq<(Seq<char>, Seq<char>)>, name: Seq<char>) -> Result<
    Option<FontStyle>,
    DecodeError,
> {
    match dec_u32_field(a, name) {
        Ok(Some(c)) => Ok(Some(font_style_of_code(c))),
        Ok(None) => Ok(None),
        Err(e) => Err(e),
    }
}

/// Exec form of [`dec_justify_field`].
fn get_justify_field(attrs: &Vec<XmlAttr>, name: &str) -> (r: Result<Option<Justify>, DecodeError>)
    ensures
        r == dec_justify_field(crate::xml::attrs_pairs(attrs@), name@),
{
    match get_u32_field(attrs, name) {
        Ok(Some(c)) => match crate::codec::justify_from_code(c) {
            Some(v) => Ok(Some(v)),
            None => Err(DecodeError::UnrecognizedEnumValue),
        },
        Ok(None) => Ok(None),
        Err(e) => Err(e),
    }
}

/// Exec form of [`dec_text_emphasis_field`].
fn get_text_emphasis_field(attrs: &Vec<XmlAttr>, name: &str) -> (r: Result<
    Option<TextEmphasis>,
    DecodeError,
>)
    ensures
        r == dec_text_emphasis_field(crate::xml::attrs_pairs(attrs@), name@),
{
    match get_u32_field(attrs, name) {
        Ok(Some(c)) => match crate::codec::text_emphasis_from_code(c) {
            Some(v) => Ok(Some(v)),
            None => Err(DecodeError::UnrecognizedEnumValue),
        },
        Ok(None) => Ok(None),
        Err(e) => Err(e),
    }
}

/// Exec form of [`dec_text_offset_field`].
fn get_text_offset_field(attrs: &Vec<XmlAttr>, name: &str) -> (r: Result<
    Option<TextOffset>,
    DecodeError,
>)
    ensures
        r == dec_text_offset_field(crate::xml::attrs_pairs(attrs@), name@),
{
    match get_u32_field(attrs, name) {
        Ok(Some(c)) => match crate::codec::text_offset_from_code(c) {
            Some(v) => Ok(Some(v)),
            None => Err(DecodeError::UnrecognizedEnumValue),
        },
        Ok(None) => Ok(None),
        Err(e) => Err(e),
    }
}

/// Exec form of [`dec_ruby_style_field`].
fn get_ruby_style_field(attrs: &Vec<XmlAttr>, name: &str) -> (r: Result<
    Option<RubyStyle>,
    DecodeError,
>)
    ensures
        r == dec_ruby_style_field(crate::xml::attrs_pairs(attrs@), name@),
{
    match get_u32_field(attrs, name) {
        Ok(Some(c)) => match crate::codec::ruby_style_from_code(c) {
            Some(v) => Ok(Some(v)),
            None => Err(DecodeError::UnrecognizedEnumValue),
        },
        Ok(None) => Ok(None),
        Err(e) => Err(e),
    }
}

/// Exec form of [`dec_edge_type_field`].
fn get_edge_type_field(attrs: &Vec<XmlAttr>, name: &str) -> (r: Result<
    Option<EdgeType>,
    DecodeError,
>)
    ensures
        r == dec_edge_type_field(crate::xml::attrs_pairs(attrs@), name@),
{
    match get_u32_field(attrs, name) {
        Ok(Some(c)) => match crate::codec::edge_type_from_code(c) {
            Some(v) => Ok(Some(v)),
            None => Err(DecodeError::UnrecognizedEnumValue),
        },
        Ok(None) => Ok(None),
        Err(e) => Err(e),
    }
}

/// Exec form of [`dec_anchor_point_field`].
fn get_anchor_point_field(attrs: &Vec<XmlAttr>, name: &str) -> (r: Result<
    Option<AnchorPoint>,
    DecodeError,
>)
    ensures
        r == dec_anchor_point_field(crate::xml::attrs_pairs(attrs@), name@),
{
    match get_u32_field(attrs, name) {
        Ok(Some(c)) => match crate::codec::anchor_point_from_code(c) {
            Some(v) => Ok(Some(v)),
            None => Err(DecodeError::UnrecognizedEnumValue),
        },
        Ok(None) => Ok(None),
        Err(e) => Err(e),
    }
}

/// Exec form of [`dec_rotation_field`].
fn get_rotation_field(attrs: &Vec<XmlAttr>, name: &str) -> (r: Result<
    Option<Rotation>,
    DecodeError,
>)
    ensures
        r == dec_rotation_field(crate::xml::attrs_pairs(attrs@), name@),
{
    match get_u32_field(attrs, name) {
        Ok(Some(c)) => match crate::codec::rotation_from_code(c) {
            Some(v) => Ok(Some(v)),
            None => Err(DecodeError::UnrecognizedEnumValue),
        },
        Ok(None) => Ok(None),
        Err(e) => Err(e),
    }
}

/// Exec form of [`dec_mode_hint_field`].
fn get_mode_hint_field(attrs: &Vec<XmlAttr>, name: &str) -> (r: Result<ModeHint, DecodeError>)
    ensures
        r == dec_mode_hint_field(crate::xml::attrs_pairs(attrs@), name@),
{
    match get_u32_field(attrs, name) {
        Ok(Some(c)) => match crate::codec::mode_hint_from_code(c) {
            Some(v) => Ok(v),
            None => Err(DecodeError::UnrecognizedEnumValue),
        },
        Ok(None) => Ok(ModeHint::NoHint),
        Err(e) => Err(e),
    }
}

/// Exec form of [`dec_font_style_field`].
fn get_font_style_field(attrs: &Vec<XmlAttr>, name: &str) -> (r: Result<
    Option<FontStyle>,
    DecodeError,
>)
    ensures
        r == dec_font_style_field(crate::xml::attrs_pairs(attrs@), name@),
{
    match get_u32_field(attrs, name) {
        Ok(Some(c)) => Ok(Some(crate::codec::font_style_from_code(c))),
        Ok(None) => Ok(None),
        Err(e) => Err(e),
    }
}


// ---------------------------------------------------------------------
// Record codecs
// ---------------------------------------------------------------------

/// What a pen record's attribute list decodes to.
#[verifier::opaque]
pub open spec fn pen_of_attrs(a: Seq<(Seq<char>, Seq<char>)>) -> Result<Pen, DecodeError> {
    match dec_req_u32(a, "id"@) {
        Err(e) => Err(e),
        Ok(id) => match dec_bool_field(a, "b"@) {
            Err(e) => Err(e),
            Ok(bold) => match dec_bool_field(a, "i"@) {
                Err(e) => Err(e),
                Ok(italic) => match dec_bool_field(a, "u"@) {
                    Err(e) => Err(e),
                    Ok(underline) => match dec_color_field(a, "fc"@) {
                        Err(e) => Err(e),
                        Ok(fc) => match dec_opacity_u32_field(a, "fo"@) {
                            Err(e) => Err(e),
                            Ok(fo) => match dec_color_field(a, "bc"@) {
                                Err(e) => Err(e),
                                Ok(bc) => match dec_opacity_u8_field(a, "bo"@) {
                                    Err(e) => Err(e),
                                    Ok(bo) => match dec_color_field(a, "ec"@) {
                                        Err(e) => Err(e),
                                        Ok(ec) => match dec_edge_type_field(a, "et"@) {
                                            Err(e) => Err(e),
                                            Ok(et) => match dec_u32_field(a, "sz"@) {
                                                Err(e) => Err(e),
                                                Ok(sz) => match dec_font_style_field(a, "fs"@) {
                                                    Err(e) => Err(e),
                                                    Ok(fs) => match dec_ruby_style_field(a, "rb"@) {
                                                        Err(e) => Err(e),
                                                        Ok(rb) => match dec_u32_field(a, "hg"@) {
                                                            Err(e) => Err(e),
                                                            Ok(hg) => match dec_text_offset_field(a, "of"@) {
                                                                Err(e) => Err(e),
                                                                Ok(of) => match dec_text_emphasis_field(a, "te"@) {
                                                                    Err(e) => Err(e),
                                                                    Ok(te) => Ok(Pen {
                                                                        id,
                                                                        bold,
                                                                        italic,
                                                                        underline,
                                                                        foreground_color: fc,
                                                                        foreground_opacity: fo,
                                                                        background_color: bc,
                                                                        background_opacity: bo,
                                                                        edge_color: ec,
                                                                        edge_type: et,
                                                                        font_size: sz,
                                                                        font_style: fs,
                                                                        ruby: rb,
                                                                        packing: hg,
                                                                        text_offset: of,
                                                                        text_emphasis: te,
                                                                    }),
                                                                },
                                                            },
                                                        },
                                                    },
                                                },
                                            },
                                        },
                                    },
                                },
                            },
                        },
                    },
                },
            },
        },
    }
}

/// Decode a pen record from its attributes.
#[verifier::rlimit(100)]
pub fn pen_from_attrs(attrs: &Vec<XmlAttr>) -> (r: Result<Pen, DecodeError>)
    ensures
        r == pen_of_attrs(crate::xml::attrs_pairs(attrs@)),
{
    proof {
        reveal(pen_of_attrs);
    }
    let id = match get_req_u32(attrs, "id") {
        Ok(v) => v,
        Err(e) => {
            return Err(e);
        },
    };
    let bold = match get_bool_field(attrs, "b") {
        Ok(v) => v,
        Err(e) => {
            return Err(e);
        },
    };
    let italic = match get_bool_field(attrs, "i") {
        Ok(v) => v,
        Err(e) => {
            return Err(e);
        },
    };
    let underline = match get_bool_field(attrs, "u") {
        Ok(v) => v,
        Err(e) => {
            return Err(e);
        },
    };
    let fc = match get_color_field(attrs, "fc") {
        Ok(v) => v,
        Err(e) => {
            return Err(e);
        },
    };
    let fo = match get_opacity_u32_field(attrs, "fo") {
        Ok(v) => v,
        Err(e) => {
            return Err(e);
        },
    };
    let bc = match get_color_field(attrs, "bc") {
        Ok(v) => v,
        Err(e) => {
            return Err(e);
        },
    };
    let bo = match get_opacity_u8_field(attrs, "bo") {
        Ok(v) => v,
        Err(e) => {
            return Err(e);
        },
    };
    let ec = match get_color_field(attrs, "ec") {
        Ok(v) => v,
        Err(e) => {
            return Err(e);
        },
    };
    let et = match get_edge_type_field(attrs, "et") {
        Ok(v) => v,
        Err(e) => {
            return Err(e);
        },
    };
    let sz = match get_u32_field(attrs, "sz") {
        Ok(v) => v,
        Err(e) => {
            return Err(e);
        },
    };
    let fs = match get_font_style_field(attrs, "fs") {
        Ok(v) => v,
        Err(e) => {
            return Err(e);
        },
    };
    let rb = match get_ruby_style_field(attrs, "rb") {
        Ok(v) => v,
        Err(e) => {
            return Err(e);
        },
    };
    let hg = match get_u32_field(attrs, "hg") {
        Ok(v) => v,
        Err(e) => {
            return Err(e);
        },
    };
    let of = match get_text_offset_field(attrs, "of") {
        Ok(v) => v,
        Err(e) => {
            return Err(e);
        },
    };
    let te = match get_text_emphasis_field(attrs, "te") {
        Ok(v) => v,
        Err(e) => {
            return Err(e);
        },
    };
    Ok(Pen {
        id,
        bold,
        italic,
        underline,
        foreground_color: fc,
        foreground_opacity: fo,
        background_color: bc,
        background_opacity: bo,
        edge_color: ec,
        edge_type: et,
        font_size: sz,
        font_style: fs,
        ruby: rb,
        packing: hg,
        text_offset: of,
        text_emphasis: te,
    })
}

/// What a window-position record's attribute list decodes to.
#[verifier::opaque]
pub open spec fn wp_of_attrs(a: Seq<(Seq<char>, Seq<char>)>) -> Result<
    WindowPosition,
    DecodeError,
> {
    match dec_req_u32(a, "id"@) {
        Err(e) => Err(e),
        Ok(id) => match dec_anchor_point_field(a, "ap"@) {
            Err(e) => Err(e),
            Ok(ap) => match dec_i32_field(a, "ah"@) {
                Err(e) => Err(e),
                Ok(ah) => match dec_i32_field(a, "av"@) {
                    Err(e) => Err(e),
                    Ok(av) => match dec_u8_field(a, "rc"@) {
                        Err(e) => Err(e),
                        Ok(rc) => match dec_u8_field(a, "cc"@) {
                            Err(e) => Err(e),
                            Ok(cc) => Ok(WindowPosition {
                                id,
                                anchor_point: ap,
                                horizontal_offset: ah,
                                vertical_offset: av,
                                rows_total: rc,
                                columns_total: cc,
                            }),
                        },
                    },
                },
            },
        },
    }
}

/// Decode a window-position record from its attributes.
pub fn wp_from_attrs(attrs: &Vec<XmlAttr>) -> (r: Result<WindowPosition, DecodeError>)
    ensures
        r == wp_of_attrs(crate::xml::attrs_pairs(attrs@)),
{
    proof {
        reveal(wp_of_attrs);
    }
    let id = match get_req_u32(attrs, "id") {
        Ok(v) => v,
        Err(e) => {
            return Err(e);
        },
    };
    let ap = match get_anchor_point_field(attrs, "ap") {
        Ok(v) => v,
        Err(e) => {
            return Err(e);
        },
    };
    let ah = match get_i32_field(attrs, "ah") {
        Ok(v) => v,
        Err(e) => {
            return Err(e);
        },
    };
    let av = match get_i32_field(attrs, "av") {
        Ok(v) => v,
        Err(e) => {
            return Err(e);
        },
    };
    let rc = match get_u8_field(attrs, "rc") {
        Ok(v) => v,
        Err(e) => {
            return Err(e);
        },
    };
    let cc = match get_u8_field(attrs, "cc") {
        Ok(v) => v,
        Err(e) => {
            return Err(e);
        },
    };
    Ok(WindowPosition {
        id,
        anchor_point: ap,
        horizontal_offset: ah,
        vertical_offset: av,
        rows_total: rc,
        columns_total: cc,
    })
}

/// What a window-style record's attribute list decodes to, as a
/// mathematical value.
#[verifier::opaque]
pub open spec fn ws_of_attrs(a: Seq<(Seq<char>, Seq<char>)>) -> Result<
    WindowStyleV,
    DecodeError,
> {
    match dec_req_u32(a, "id"@) {
        Err(e) => Err(e),
        Ok(id) => match dec_justify_field(a, "ju"@) {
            Err(e) => Err(e),
            Ok(ju) => match dec_rotation_field(a, "pd"@) {
                Err(e) => Err(e),
                Ok(pd) => match dec_rotation_field(a, "sd"@) {
                    Err(e) => Err(e),
                    Ok(sd) => match dec_mode_hint_field(a, "mh"@) {
                        Err(e) => Err(e),
                        Ok(mh) => match dec_opacity_u8_field(a, "wfo"@) {
                            Err(e) => Err(e),
                            Ok(wfo) => Ok(WindowStyleV {
                                id,
                                justify: ju,
                                pitch_direction: pd,
                                skew_direction: sd,
                                mode_hint: mh,
                                fill_color: find_attr_p(a, "wfc"@),
                                fill_opacity: wfo,
                            }),
                        },
                    },
                },
            },
        },
    }
}

/// Decode a window-style record from its attributes.
pub fn ws_from_attrs(attrs: &Vec<XmlAttr>) -> (r: Result<crate::model::WindowStyle, DecodeError>)
    ensures
        r matches Ok(w) ==> ws_of_attrs(crate::xml::attrs_pairs(attrs@)) == Ok::<WindowStyleV, DecodeError>(w.dview()),
        r matches Err(e) ==> ws_of_attrs(crate::xml::attrs_pairs(attrs@)) == Err::<WindowStyleV, DecodeError>(
            e,
        ),
{
    proof {
        reveal(ws_of_attrs);
    }
    let id = match get_req_u32(attrs, "id") {
        Ok(v) => v,
        Err(e) => {
            return Err(e);
        },
    };
    let ju = match get_justify_field(attrs, "ju") {
        Ok(v) => v,
        Err(e) => {
            return Err(e);
        },
    };
    let pd = match get_rotation_field(attrs, "pd") {
        Ok(v) => v,
        Err(e) => {
            return Err(e);
        },
    };
    let sd = match get_rotation_field(attrs, "sd") {
        Ok(v) => v,
        Err(e) => {
            return Err(e);
        },
    };
    let mh = match get_mode_hint_field(attrs, "mh") {
        Ok(v) => v,
        Err(e) => {
            return Err(e);
        },
    };
    let wfo = match get_opacity_u8_field(attrs, "wfo") {
        Ok(v) => v,
        Err(e) => {
            return Err(e);
        },
    };
    let wfc: Option<String> = match find_attr(attrs, "wfc") {
        Some(v) => Some(v.clone()),
        None => None,
    };
    Ok(crate::model::WindowStyle {
        id,
        justify: ju,
        pitch_direction: pd,
        skew_direction: sd,
        mode_hint: mh,
        fill_color: wfc,
        fill_opacity: wfo,
    })
}


// ---------------------------------------------------------------------
// The body tree
// ---------------------------------------------------------------------

/// Every character is whitespace.
pub open spec fn all_space_chars(s: Seq<char>) -> bool {
    forall|i: int| 0 <= i < s.len() ==> crate::text::is_space(#[trigger] s[i])
}

/// What one mixed-content node decodes to. In block context (the body's
/// top level and inside a container) whitespace-only text between
/// elements is insignificant and dropped (`Ok(None)`); inline text is
/// kept verbatim. The body grammar is closed: any other child tag
/// fails.
pub open spec fn elem_of_node(n: XmlNodeV, block: bool) -> Result<Option<BodyElementV>, DecodeError>
    decreases n,
{
    match n {
        XmlNodeV::Text(t) => if block && all_space_chars(t) {
            Ok(None)
        } else {
            Ok(Some(BodyElementV::Text(t)))
        },
        XmlNodeV::Element(e) => if e.name == "br"@ {
            if e.children.len() == 0 {
                Ok(Some(BodyElementV::Br))
            } else {
                Err(DecodeError::UnrecognizedElement)
            }
        } else if e.name == "s"@ {
            match dec_u32_field(e.attrs, "p"@) {
                Err(err) => Err(err),
                Ok(pen) => if e.children.len() == 0 {
                    Ok(Some(BodyElementV::Span(SpanV { inner: None, pen })))
                } else {
                    match elems_of_nodes(e.children, false) {
                        Err(err) => Err(err),
                        Ok(inner) => Ok(
                            Some(BodyElementV::Span(SpanV { inner: Some(inner), pen })),
                        ),
                    }
                },
            }
        } else if e.name == "p"@ {
            match dec_req_u64(e.attrs, "t"@) {
                Err(err) => Err(err),
                Ok(t) => match dec_req_u64(e.attrs, "d"@) {
                    Err(err) => Err(err),
                    Ok(d) => match dec_u32_field(e.attrs, "wp"@) {
                        Err(err) => Err(err),
                        Ok(wp) => match dec_u32_field(e.attrs, "ws"@) {
                            Err(err) => Err(err),
                            Ok(ws) => match elems_of_nodes(e.children, false) {
                                Err(err) => Err(err),
                                Ok(inner) => Ok(
                                    Some(
                                        BodyElementV::Paragraph(
                                            ParagraphV {
                                                inner,
                                                timestamp: t,
                                                duration: d,
                                                window_position: wp,
                                                window_style: ws,
                                            },
                                        ),
                                    ),
                                ),
                            },
                        },
                    },
                },
            }
        } else if e.name == "div"@ {
            match elems_of_nodes(e.children, true) {
                Err(err) => Err(err),
                Ok(v) => Ok(Some(BodyElementV::Div(v))),
            }
        } else {
            Err(DecodeError::UnrecognizedElement)
        },
    }
}

/// What a sequence of mixed-content nodes decodes to, in order.
pub open spec fn elems_of_nodes(ns: Seq<XmlNodeV>, block: bool) -> Result<
    Seq<BodyElementV>,
    DecodeError,
>
    decreases ns,
{
    if ns.len() == 0 {
        Ok(Seq::<BodyElementV>::empty())
    } else {
        match elem_of_node(ns.first(), block) {
            Err(e) => Err(e),
            Ok(opt) => match elems_of_nodes(ns.drop_first(), block) {
                Err(e) => Err(e),
                Ok(rest) => Ok(
                    match opt {
                        Some(el) => seq![el] + rest,
                        None => rest,
                    },
                ),
            },
        }
    }
}

/// Pushing an element extends the sequence view by its view.
proof fn lemma_elems_dview_push(v: Seq<crate::model::BodyElement>, e: crate::model::BodyElement)
    ensures
        crate::model::elems_dview(v.push(e)) == crate::model::elems_dview(v).push(e.dview()),
{
    assert(v.push(e).drop_last() =~= v);
    assert(v.push(e).last() == e);
}

/// Whether every character of `s` is whitespace.
fn is_all_space(s: &str) -> (r: bool)
    ensures
        r == all_space_chars(s@),
{
    let n = s.unicode_len();
    let mut i: usize = 0;
    while i < n
        invariant
            0 <= i <= n,
            n == s@.len(),
            forall|j: int| 0 <= j < i ==> crate::text::is_space(#[trigger] s@[j]),
        decreases n - i,
    {
        let c = s.get_char(i);
        if !(c == ' ' || c == '\t' || c == '\n' || c == '\r') {
            return false;
        }
        i = i + 1;
    }
    true
}

/// Decode one mixed-content node.
fn elem_from_node(n: &XmlNode, block: bool) -> (r: Result<
    Option<crate::model::BodyElement>,
    DecodeError,
>)
    ensures
        r matches Ok(Some(el)) ==> elem_of_node((*n).dview(), block) == Ok::<
            Option<BodyElementV>,
            DecodeError,
        >(Some(el.dview())),
        r matches Ok(None) ==> elem_of_node((*n).dview(), block) == Ok::<
            Option<BodyElementV>,
            DecodeError,
        >(None),
        r matches Err(e) ==> elem_of_node((*n).dview(), block) == Err::<
            Option<BodyElementV>,
            DecodeError,
        >(e),
    decreases *n,
{
    match n {
        XmlNode::Text(t) => {
            if block && is_all_space(t.as_str()) {
                Ok(None)
            } else {
                let copy = t.clone();
                Ok(Some(crate::model::BodyElement::Text(copy)))
            }
        },
        XmlNode::Element(e) => {
            proof {
                crate::xml::lemma_nodes_dview(e.children@);
            }
            if crate::xml::str_eq(e.name.as_str(), "br") {
                if e.children.len() == 0 {
                    Ok(Some(crate::model::BodyElement::Br(crate::model::Br)))
                } else {
                    Err(DecodeError::UnrecognizedElement)
                }
            } else if crate::xml::str_eq(e.name.as_str(), "s") {
                let pen = match get_u32_field(&e.attrs, "p") {
                    Ok(v) => v,
                    Err(err) => {
                        return Err(err);
                    },
                };
                if e.children.len() == 0 {
                    Ok(
                        Some(
                            crate::model::BodyElement::Span(
                                crate::model::Span { inner: None, pen },
                            ),
                        ),
                    )
                } else {
                    let inner = match elems_from_nodes(&e.children, false) {
                        Ok(v) => v,
                        Err(err) => {
                            return Err(err);
                        },
                    };
                    Ok(
                        Some(
                            crate::model::BodyElement::Span(
                                crate::model::Span { inner: Some(inner), pen },
                            ),
                        ),
                    )
                }
            } else if crate::xml::str_eq(e.name.as_str(), "p") {
                let t = match get_req_u64(&e.attrs, "t") {
                    Ok(v) => v,
                    Err(err) => {
                        return Err(err);
                    },
                };
                let d = match get_req_u64(&e.attrs, "d") {
                    Ok(v) => v,
                    Err(err) => {
                        return Err(err);
                    },
                };
                let wp = match get_u32_field(&e.attrs, "wp") {
                    Ok(v) => v,
                    Err(err) => {
                        return Err(err);
                    },
                };
                let ws = match get_u32_field(&e.attrs, "ws") {
                    Ok(v) => v,
                    Err(err) => {
                        return Err(err);
                    },
                };
                let inner = match elems_from_nodes(&e.children, false) {
                    Ok(v) => v,
                    Err(err) => {
                        return Err(err);
                    },
                };
                Ok(
                    Some(
                        crate::model::BodyElement::Paragraph(
                            crate::model::Paragraph {
                                inner,
                                timestamp: t,
                                duration: d,
                                window_position: wp,
                                window_style: ws,
                            },
                        ),
                    ),
                )
            } else if crate::xml::str_eq(e.name.as_str(), "div") {
                let v = match elems_from_nodes(&e.children, true) {
                    Ok(v) => v,
                    Err(err) => {
                        return Err(err);
                    },
                };
                Ok(Some(crate::model::BodyElement::Div(v)))
            } else {
                Err(DecodeError::UnrecognizedElement)
            }
        },
    }
}

/// Decode a sequence of mixed-content nodes in order.
fn elems_from_nodes(ns: &Vec<XmlNode>, block: bool) -> (r: Result<
    Vec<crate::model::BodyElement>,
    DecodeError,
>)
    ensures
        r matches Ok(v) ==> elems_of_nodes(crate::xml::nodes_dview(ns@), block) == Ok::<
            Seq<BodyElementV>,
            DecodeError,
        >(crate::model::elems_dview(v@)),
        r matches Err(e) ==> elems_of_nodes(crate::xml::nodes_dview(ns@), block) == Err::<
            Seq<BodyElementV>,
            DecodeError,
        >(e),
    decreases *ns,
{
    let ghost nv = crate::xml::nodes_dview(ns@);
    let n = ns.len();
    let mut acc: Vec<crate::model::BodyElement> = Vec::new();
    let mut i: usize = 0;
    proof {
        crate::xml::lemma_nodes_dview(ns@);
        assert(nv.skip(0) =~= nv);
    }
    while i < n
        invariant
            0 <= i <= n,
            n == ns@.len(),
            nv == crate::xml::nodes_dview(ns@),
            nv.len() == n,
            forall|j: int| 0 <= j < n ==> nv[j] == (#[trigger] ns@[j]).dview(),
            match elems_of_nodes(nv.skip(i as int), block) {
                Ok(rest) => elems_of_nodes(nv, block) == Ok::<Seq<BodyElementV>, DecodeError>(
                    crate::model::elems_dview(acc@) + rest,
                ),
                Err(e) => elems_of_nodes(nv, block) == Err::<Seq<BodyElementV>, DecodeError>(e),
            },
        decreases n - i,
    {
        proof {
            assert(nv.skip(i as int).first() == nv[i as int]);
            assert(nv[i as int] == ns@[i as int].dview());
            assert(nv.skip(i as int).drop_first() =~= nv.skip(i + 1));
        }
        match elem_from_node(&ns[i], block) {
            Ok(Some(el)) => {
                let ghost old_acc = acc@;
                let ghost elv = el.dview();
                proof {
                    lemma_elems_dview_push(old_acc, el);
                }
                acc.push(el);
                proof {
                    assert(acc@ == old_acc.push(el));
                    match elems_of_nodes(nv.skip(i + 1), block) {
                        Ok(rest2) => {
                            assert(crate::model::elems_dview(old_acc) + (seq![elv] + rest2)
                                =~= crate::model::elems_dview(old_acc.push(el)) + rest2);
                        },
                        Err(_) => {
                        },
                    }
                }
            },
            Ok(None) => {
            },
            Err(e) => {
                return Err(e);
            },
        }
        i = i + 1;
    }
    proof {
        assert(nv.skip(n as int) =~= Seq::<XmlNodeV>::empty());
        assert(crate::model::elems_dview(acc@) + Seq::<BodyElementV>::empty()
            =~= crate::model::elems_dview(acc@));
    }
    Ok(acc)
}


// ---------------------------------------------------------------------
// The header and the document root
// ---------------------------------------------------------------------

/// The mathematical values of a window-style list.
pub open spec fn wss_dview(s: Seq<crate::model::WindowStyle>) -> Seq<WindowStyleV> {
    Seq::new(s.len(), |i: int| s[i].dview())
}

/// What a header's children decode to: repeated pen, window-position
/// and window-style records in any order, each kind's order kept.
/// Whitespace between records is insignificant; anything else fails.
pub open spec fn head_of_nodes(ns: Seq<XmlNodeV>) -> Result<HeadV, DecodeError>
    decreases ns.len(),
{
    if ns.len() == 0 {
        Ok(HeadV { pen: Seq::empty(), wp: Seq::empty(), ws: Seq::empty() })
    } else {
        match ns.first() {
            XmlNodeV::Text(t) => if all_space_chars(t) {
                head_of_nodes(ns.drop_first())
            } else {
                Err(DecodeError::UnrecognizedElement)
            },
            XmlNodeV::Element(e) => if e.name == "pen"@ {
                match pen_of_attrs(e.attrs) {
                    Err(err) => Err(err),
                    Ok(p) => match head_of_nodes(ns.drop_first()) {
                        Err(err) => Err(err),
                        Ok(h) => Ok(HeadV { pen: seq![p] + h.pen, wp: h.wp, ws: h.ws }),
                    },
                }
            } else if e.name == "wp"@ {
                match wp_of_attrs(e.attrs) {
                    Err(err) => Err(err),
                    Ok(w) => match head_of_nodes(ns.drop_first()) {
                        Err(err) => Err(err),
                        Ok(h) => Ok(HeadV { pen: h.pen, wp: seq![w] + h.wp, ws: h.ws }),
                    },
                }
            } else if e.name == "ws"@ {
                match ws_of_attrs(e.attrs) {
                    Err(err) => Err(err),
                    Ok(w) => match head_of_nodes(ns.drop_first()) {
                        Err(err) => Err(err),
                        Ok(h) => Ok(HeadV { pen: h.pen, wp: h.wp, ws: seq![w] + h.ws }),
                    },
                }
            } else {
                Err(DecodeError::UnrecognizedElement)
            },
        }
    }
}

/// Decode a header's children.
#[verifier::rlimit(100)]
fn head_from_nodes(ns: &Vec<XmlNode>) -> (r: Result<crate::model::Head, DecodeError>)
    ensures
        r matches Ok(h) ==> head_of_nodes(crate::xml::nodes_dview(ns@)) == Ok::<
            HeadV,
            DecodeError,
        >(h.dview()),
        r matches Err(e) ==> head_of_nodes(crate::xml::nodes_dview(ns@)) == Err::<
            HeadV,
            DecodeError,
        >(e),
{
    let ghost nv = crate::xml::nodes_dview(ns@);
    let n = ns.len();
    let mut pens: Vec<Pen> = Vec::new();
    let mut wps: Vec<WindowPosition> = Vec::new();
    let mut wss: Vec<crate::model::WindowStyle> = Vec::new();
    let mut i: usize = 0;
    proof {
        crate::xml::lemma_nodes_dview(ns@);
        assert(nv.skip(0) =~= nv);
    }
    while i < n
        invariant
            0 <= i <= n,
            n == ns@.len(),
            nv == crate::xml::nodes_dview(ns@),
            nv.len() == n,
            forall|j: int| 0 <= j < n ==> nv[j] == (#[trigger] ns@[j]).dview(),
            match head_of_nodes(nv.skip(i as int)) {
                Ok(h) => head_of_nodes(nv) == Ok::<HeadV, DecodeError>(
                    HeadV {
                        pen: pens@ + h.pen,
                        wp: wps@ + h.wp,
                        ws: wss_dview(wss@) + h.ws,
                    },
                ),
                Err(e) => head_of_nodes(nv) == Err::<HeadV, DecodeError>(e),
            },
        decreases n - i,
    {
        proof {
            assert(nv.skip(i as int).first() == nv[i as int]);
            assert(nv[i as int] == ns@[i as int].dview());
            assert(nv.skip(i as int).drop_first() =~= nv.skip(i + 1));
        }
        match &ns[i] {
            XmlNode::Text(t) => {
                if !is_all_space(t.as_str()) {
                    return Err(DecodeError::UnrecognizedElement);
                }
            },
            XmlNode::Element(e) => {
                if crate::xml::str_eq(e.name.as_str(), "pen") {
                    match pen_from_attrs(&e.attrs) {
                        Ok(p) => {
                            let ghost old_pens = pens@;
                            pens.push(p);
                            proof {
                                match head_of_nodes(nv.skip(i + 1)) {
                                    Ok(h2) => {
                                        assert(old_pens + (seq![p] + h2.pen) =~= old_pens.push(p)
                                            + h2.pen);
                                    },
                                    Err(_) => {
                                    },
                                }
                            }
                        },
                        Err(err) => {
                            return Err(err);
                        },
                    }
                } else if crate::xml::str_eq(e.name.as_str(), "wp") {
                    match wp_from_attrs(&e.attrs) {
                        Ok(w) => {
                            let ghost old_wps = wps@;
                            wps.push(w);
                            proof {
                                match head_of_nodes(nv.skip(i + 1)) {
                                    Ok(h2) => {
                                        assert(old_wps + (seq![w] + h2.wp) =~= old_wps.push(w)
                                            + h2.wp);
                                    },
                                    Err(_) => {
                                    },
                                }
                            }
                        },
                        Err(err) => {
                            return Err(err);
                        },
                    }
                } else if crate::xml::str_eq(e.name.as_str(), "ws") {
                    match ws_from_attrs(&e.attrs) {
                        Ok(w) => {
                            let ghost old_wss = wss@;
                            let ghost wv = w.dview();
                            wss.push(w);
                            proof {
                                assert(wss_dview(old_wss.push(w)) =~= wss_dview(old_wss).push(
                                    wv,
                                ));
                                match head_of_nodes(nv.skip(i + 1)) {
                                    Ok(h2) => {
                                        assert(wss_dview(old_wss) + (seq![wv] + h2.ws)
                                            =~= wss_dview(old_wss).push(wv) + h2.ws);
                                    },
                                    Err(_) => {
                                    },
                                }
                            }
                        },
                        Err(err) => {
                            return Err(err);
                        },
                    }
                } else {
                    return Err(DecodeError::UnrecognizedElement);
                }
            },
        }
        i = i + 1;
    }
    proof {
        assert(nv.skip(n as int) =~= Seq::<XmlNodeV>::empty());
        assert(pens@ + Seq::<Pen>::empty() =~= pens@);
        assert(wps@ + Seq::<WindowPosition>::empty() =~= wps@);
        assert(wss_dview(wss@) + Seq::<WindowStyleV>::empty() =~= wss_dview(wss@));
    }
    let h = crate::model::Head { pen: pens, wp: wps, ws: wss };
    proof {
        assert(h.dview().ws =~= wss_dview(wss@));
    }
    Ok(h)
}

/// The walk over the root's children: at most one header before the
/// body, exactly one body, whitespace in between; anything else fails.
pub open spec fn root_walk(
    ns: Seq<XmlNodeV>,
    head_acc: Option<HeadV>,
    body_acc: Option<BodyV>,
) -> Result<(Option<HeadV>, BodyV), DecodeError>
    decreases ns.len(),
{
    if ns.len() == 0 {
        match body_acc {
            Some(b) => Ok((head_acc, b)),
            None => Err(DecodeError::MissingRequiredAttribute),
        }
    } else {
        match ns.first() {
            XmlNodeV::Text(t) => if all_space_chars(t) {
                root_walk(ns.drop_first(), head_acc, body_acc)
            } else {
                Err(DecodeError::UnrecognizedElement)
            },
            XmlNodeV::Element(e) => if e.name == "head"@ && head_acc is None && body_acc is None {
                match head_of_nodes(e.children) {
                    Err(err) => Err(err),
                    Ok(h) => root_walk(ns.drop_first(), Some(h), body_acc),
                }
            } else if e.name == "body"@ && body_acc is None {
                match elems_of_nodes(e.children, true) {
                    Err(err) => Err(err),
                    Ok(els) => root_walk(ns.drop_first(), head_acc, Some(BodyV { elements: els })),
                }
            } else {
                Err(DecodeError::UnrecognizedElement)
            },
        }
    }
}

/// The mathematical value of an optional header.
pub open spec fn opt_head_dview(h: Option<crate::model::Head>) -> Option<HeadV> {
    match h {
        Some(v) => Some(v.dview()),
        None => None,
    }
}

/// The mathematical value of an optional body.
pub open spec fn opt_body_dview(b: Option<crate::model::Body>) -> Option<BodyV> {
    match b {
        Some(v) => Some(v.dview()),
        None => None,
    }
}

/// What a parsed root element decodes to: the whole document, or the
/// first failure.
pub open spec fn doc_of_root(root: XmlElementV) -> Result<TimedTextV, DecodeError> {
    if root.name != "timedtext"@ {
        Err(DecodeError::UnrecognizedElement)
    } else {
        match root_walk(root.children, None, None) {
            Err(e) => Err(e),
            Ok((h, b)) => Ok(
                TimedTextV { format: find_attr_p(root.attrs, "format"@), head: h, body: b },
            ),
        }
    }
}

/// What a whole input text decodes to: the reading of its parsed tree,
/// or the first failure.
pub open spec fn doc_of_text(s: Seq<char>) -> Result<TimedTextV, DecodeError> {
    match crate::xml::document_at(s) {
        Err(e) => Err(e),
        Ok(root) => doc_of_root(root),
    }
}

/// Decode a document from its parsed root element.
#[verifier::rlimit(100)]
pub fn document_from_root(root: &XmlElement) -> (r: Result<crate::model::TimedText, DecodeError>)
    ensures
        r matches Ok(d) ==> doc_of_root((*root).dview()) == Ok::<TimedTextV, DecodeError>(
            d.dview(),
        ),
        r matches Err(e) ==> doc_of_root((*root).dview()) == Err::<TimedTextV, DecodeError>(e),
{
    if !crate::xml::str_eq(root.name.as_str(), "timedtext") {
        return Err(DecodeError::UnrecognizedElement);
    }
    let ns = &root.children;
    let ghost nv = crate::xml::nodes_dview(root.children@);
    let n = ns.len();
    let mut head: Option<crate::model::Head> = None;
    let mut body: Option<crate::model::Body> = None;
    let mut i: usize = 0;
    proof {
        crate::xml::lemma_nodes_dview(root.children@);
        assert(nv.skip(0) =~= nv);
    }
    while i < n
        invariant
            0 <= i <= n,
            n == ns@.len(),
            ns@ == root.children@,
            nv == crate::xml::nodes_dview(root.children@),
            nv.len() == n,
            forall|j: int| 0 <= j < n ==> nv[j] == (#[trigger] ns@[j]).dview(),
            root.name@ == "timedtext"@,
            root_walk(nv.skip(i as int), opt_head_dview(head), opt_body_dview(body))
                == root_walk(nv, None, None),
        decreases n - i,
    {
        proof {
            assert(nv.skip(i as int).first() == nv[i as int]);
            assert(nv[i as int] == ns@[i as int].dview());
            assert(nv.skip(i as int).drop_first() =~= nv.skip(i + 1));
        }
        match &ns[i] {
            XmlNode::Text(t) => {
                if !is_all_space(t.as_str()) {
                    return Err(DecodeError::UnrecognizedElement);
                }
            },
            XmlNode::Element(e) => {
                let is_head = crate::xml::str_eq(e.name.as_str(), "head");
                let is_body = crate::xml::str_eq(e.name.as_str(), "body");
                if is_head && matches!(head, None) && matches!(body, None) {
                    match head_from_nodes(&e.children) {
                        Ok(h) => {
                            head = Some(h);
                        },
                        Err(err) => {
                            return Err(err);
                        },
                    }
                } else if is_body && matches!(body, None) {
                    match elems_from_nodes(&e.children, true) {
                        Ok(els) => {
                            body = Some(crate::model::Body { elements: els });
                        },
                        Err(err) => {
                            return Err(err);
                        },
                    }
                } else {
                    return Err(DecodeError::UnrecognizedElement);
                }
            },
        }
        i = i + 1;
    }
    proof {
        assert(nv.skip(n as int) =~= Seq::<XmlNodeV>::empty());
    }
    let b = match body {
        Some(v) => v,
        None => {
            return Err(DecodeError::MissingRequiredAttribute);
        },
    };
    let format: Option<String> = match find_attr(&root.attrs, "format") {
        Some(v) => Some(v.clone()),
        None => None,
    };
    let d = crate::model::TimedText { format, head, body: b };
    Ok(d)
}

impl crate::model::TimedText {
    /// Decode a document from XML text.
    ///
    /// Either a complete document comes back or a single
    /// [`DecodeError`]; nothing partial is ever returned. The result is
    /// exactly the reading of the input under [`doc_of_text`]: the
    /// grammar applied to the characters, then the document model
    /// applied to the parsed tree.
    pub fn from_str(s: &str) -> (r: Result<crate::model::TimedText, DecodeError>)
        ensures
            r matches Ok(d) ==> doc_of_text(s@) == Ok::<TimedTextV, DecodeError>(d.dview()),
            r matches Err(e) ==> doc_of_text(s@) == Err::<TimedTextV, DecodeError>(e),
    {
        match crate::xml::parse_document(s) {
            Ok(root) => document_from_root(&root),
            Err(e) => Err(e),
        }
    }
}

} // verus!
