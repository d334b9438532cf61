//! The document model: the root [`TimedText`] record, the header records
//! ([`Pen`], [`WindowPosition`], [`WindowStyle`]) and the recursive body
//! tree ([`Body`], [`BodyElement`]).

use vstd::prelude::*;

verus! {

broadcast use
    vstd::seq::group_seq_axioms,
    vstd::std_specs::vec::axiom_vec_index_decreases,
    vstd::std_specs::vec::axiom_vec_decreases_to_view;

/// An RGB color as carried by a 6-digit hex attribute token.
///
/// The dialect keeps opacity in a separate attribute, so this type holds
/// no alpha channel.
#[derive(Debug, Clone, Copy, PartialEq, Eq, Structural)]
pub struct Color {
    pub r: u8,
    pub g: u8,
    pub b: u8,
}

/// Horizontal justification of text inside a window.
#[derive(Debug, Clone, Copy, PartialEq, Eq, Structural)]
pub enum Justify {
    Left,
    Right,
    Center,
}

/// Whether bold text is allowed to render.
#[derive(Debug, Clone, Copy, PartialEq, Eq, Structural)]
pub enum TextEmphasis {
    Allow,
    Deny,
}

/// Vertical offset of text: superscript or subscript.
#[derive(Debug, Clone, Copy, PartialEq, Eq, Structural)]
pub enum TextOffset {
    Superscript,
    Subscript,
}

/// Placement of ruby annotation text relative to its base text.
#[derive(Debug, Clone, Copy, PartialEq, Eq, Structural)]
pub enum RubyStyle {
    NoRuby,
    Base,
    Parenthesis,
    BeforeText,
    AfterText,
}

/// The outline/edge style drawn around glyphs.
#[derive(Debug, Clone, Copy, PartialEq, Eq, Structural)]
pub enum EdgeType {
    NoEdge,
    HardShadow,
    Bevel,
    Glow,
    SoftShadow,
}

/// Font face selection. This is the one open enum of the dialect: an
/// unrecognized code decodes to [`FontStyle::Default`] instead of failing.
#[derive(Debug, Clone, Copy, PartialEq, Eq, Structural)]
pub enum FontStyle {
    Default,
    MonoSerif,
    ProportionalSerif,
    MonoSans,
    ProportionalSans,
    Casual,
    Cursive,
    SmallCaps,
}

impl Default for FontStyle {
    /// The default face, the fallback for any uncatalogued code.
    fn default() -> (r: Self)
        ensures
            r == FontStyle::Default,
    {
        FontStyle::Default
    }
}

/// One of nine screen positions a window is anchored to.
#[derive(Debug, Clone, Copy, PartialEq, Eq, Structural)]
pub enum AnchorPoint {
    TopLeft,
    TopCenter,
    TopRight,
    MiddleLeft,
    Center,
    MiddleRight,
    BottomLeft,
    BottomCenter,
    BottomRight,
}

/// Scroll/display behaviour hint of a window. Absent on the wire means
/// [`ModeHint::NoHint`].
#[derive(Debug, Clone, Copy, PartialEq, Eq, Structural)]
pub enum ModeHint {
    NoHint,
    Default,
    Scroll,
}

impl Default for ModeHint {
    /// Absence of the attribute on the wire.
    fn default() -> (r: Self)
        ensures
            r == ModeHint::NoHint,
    {
        ModeHint::NoHint
    }
}

/// A rotation in quarter turns, used for pitch and skew directions.
#[derive(Debug, Clone, Copy, PartialEq, Eq, Structural)]
pub enum Rotation {
    Zero,
    Ninety,
    OneEighty,
    TwoSeventy,
}

/// A named text style, referenced from spans by its numeric id.
///
/// Every field but `id` is optional; an absent field leaves the player's
/// default in force. The two opacities are independent 8-bit-range channels
/// carried separately from their colors, and the value 255 is the implicit
/// default that the encoder suppresses.
#[derive(Debug, Clone, Copy, PartialEq, Eq, Structural)]
pub struct Pen {
    /// Identifier the body references through `Span::pen`.
    pub id: u32,
    pub bold: Option<bool>,
    pub italic: Option<bool>,
    pub underline: Option<bool>,
    pub foreground_color: Option<Color>,
    /// Opacity of the foreground color; 255 is the implicit default.
    pub foreground_opacity: Option<u32>,
    pub background_color: Option<Color>,
    /// Opacity of the background color; 255 is the implicit default.
    pub background_opacity: Option<u8>,
    pub edge_color: Option<Color>,
    pub edge_type: Option<EdgeType>,
    /// Biased size percentage: 100 means "no change".
    pub font_size: Option<u32>,
    pub font_style: Option<FontStyle>,
    pub ruby: Option<RubyStyle>,
    /// Packing of text; only the value 1 is known to be honoured.
    pub packing: Option<u32>,
    /// Vertical offset (superscript/subscript) of the text.
    pub text_offset: Option<TextOffset>,
    pub text_emphasis: Option<TextEmphasis>,
}

/// A named window placement, referenced from paragraphs by its numeric id.
#[derive(Debug, Clone, Copy, PartialEq, Eq, Structural)]
pub struct WindowPosition {
    /// Identifier the body references through `Paragraph::window_position`.
    pub id: u32,
    pub anchor_point: Option<AnchorPoint>,
    /// Horizontal offset from the anchor point.
    pub horizontal_offset: Option<i32>,
    /// Vertical offset from the anchor point.
    pub vertical_offset: Option<i32>,
    pub rows_total: Option<u8>,
    pub columns_total: Option<u8>,
}

/// A named window style, referenced from paragraphs by its numeric id.
#[derive(Debug, Clone, PartialEq, Eq)]
pub struct WindowStyle {
    /// Identifier the body references through `Paragraph::window_style`.
    pub id: u32,
    pub justify: Option<Justify>,
    pub pitch_direction: Option<Rotation>,
    pub skew_direction: Option<Rotation>,
    /// Absent on the wire decodes to [`ModeHint::NoHint`], and that value
    /// encodes as absence.
    pub mode_hint: ModeHint,
    /// Window fill color, kept as its literal attribute token.
    pub fill_color: Option<String>,
    /// Opacity of the window fill; 255 is the implicit default.
    pub fill_opacity: Option<u8>,
}

/// The header: ordered collections of style and layout records.
#[derive(Debug, Clone, PartialEq, Eq)]
pub struct Head {
    pub pen: Vec<Pen>,
    pub wp: Vec<WindowPosition>,
    pub ws: Vec<WindowStyle>,
}

/// One timed caption unit with its inner mixed content.
#[derive(Debug, PartialEq, Eq)]
pub struct Paragraph {
    pub inner: Vec<BodyElement>,
    /// When to show the caption, in milliseconds.
    pub timestamp: u64,
    /// How long to show the caption, in milliseconds.
    pub duration: u64,
    /// Reference to a [`WindowPosition`] id, resolved by lookup only.
    pub window_position: Option<u32>,
    /// Reference to a [`WindowStyle`] id, resolved by lookup only.
    pub window_style: Option<u32>,
}

/// A styled inline run of mixed content.
#[derive(Debug, PartialEq, Eq)]
pub struct Span {
    pub inner: Option<Vec<BodyElement>>,
    /// Reference to a [`Pen`] id, resolved by lookup only.
    pub pen: Option<u32>,
}

/// An explicit line break.
#[derive(Debug, Clone, PartialEq, Eq, Structural)]
pub struct Br;

/// A block container of further body elements.
#[derive(Debug, PartialEq, Eq)]
pub struct Div {
    pub elements: Vec<BodyElement>,
}

/// One node of the body tree: a text run, a timed paragraph, a styled
/// span, a line break, or a container.
#[derive(Debug, PartialEq, Eq)]
pub enum BodyElement {
    Text(String),
    Paragraph(Paragraph),
    Span(Span),
    Br(Br),
    Div(Vec<BodyElement>),
}

/// The body: the ordered top-level sequence of caption content.
#[derive(Debug, PartialEq, Eq)]
pub struct Body {
    pub elements: Vec<BodyElement>,
}

/// The root of a timed-text document.
#[derive(Debug, PartialEq, Eq)]
pub struct TimedText {
    /// Free-form format tag of the root element.
    pub format: Option<String>,
    pub head: Option<Head>,
    pub body: Body,
}

// ---------------------------------------------------------------------
// Mathematical views
//
// Spec code cannot build `Vec` or `String` values, so contracts that pin
// down a whole decoded tree speak of these mirror values instead: the
// same shape with `Seq` for `Vec` and `Seq<char>` for `String`.
// ---------------------------------------------------------------------

/// The mathematical value of a [`WindowStyle`].
pub struct WindowStyleV {
    pub id: u32,
    pub justify: Option<Justify>,
    pub pitch_direction: Option<Rotation>,
    pub skew_direction: Option<Rotation>,
    pub mode_hint: ModeHint,
    pub fill_color: Option<Seq<char>>,
    pub fill_opacity: Option<u8>,
}

/// The mathematical value of a [`Head`].
pub struct HeadV {
    pub pen: Seq<Pen>,
    pub wp: Seq<WindowPosition>,
    pub ws: Seq<WindowStyleV>,
}

/// The mathematical value of a [`Paragraph`].
pub struct ParagraphV {
    pub inner: Seq<BodyElementV>,
    pub timestamp: u64,
    pub duration: u64,
    pub window_position: Option<u32>,
    pub window_style: Option<u32>,
}

/// The mathematical value of a [`Span`].
pub struct SpanV {
    pub inner: Option<Seq<BodyElementV>>,
    pub pen: Option<u32>,
}

/// The mathematical value of a [`BodyElement`].
pub enum BodyElementV {
    Text(Seq<char>),
    Paragraph(ParagraphV),
    Span(SpanV),
    Br,
    Div(Seq<BodyElementV>),
}

/// The mathematical value of a [`Body`].
pub struct BodyV {
    pub elements: Seq<BodyElementV>,
}

/// The mathematical value of a [`TimedText`].
pub struct TimedTextV {
    pub format: Option<Seq<char>>,
    pub head: Option<HeadV>,
    pub body: BodyV,
}

impl WindowStyle {
    /// The mathematical value of this record.
    pub open spec fn dview(self) -> WindowStyleV {
        WindowStyleV {
            id: self.id,
            justify: self.justify,
            pitch_direction: self.pitch_direction,
            skew_direction: self.skew_direction,
            mode_hint: self.mode_hint,
            fill_color: match self.fill_color {
                Some(c) => Some(c@),
                None => None,
            },
            fill_opacity: self.fill_opacity,
        }
    }
}

impl Head {
    /// The mathematical value of the header.
    pub open spec fn dview(self) -> HeadV {
        HeadV {
            pen: self.pen@,
            wp: self.wp@,
            ws: Seq::new(self.ws@.len(), |i: int| self.ws@[i].dview()),
        }
    }
}

impl BodyElement {
    /// The mathematical value of this subtree.
    pub open spec fn dview(self) -> BodyElementV
        decreases self,
    {
        match self {
            BodyElement::Text(t) => BodyElementV::Text(t@),
            BodyElement::Paragraph(p) => BodyElementV::Paragraph(ParagraphV {
                inner: elems_dview(p.inner@),
                timestamp: p.timestamp,
                duration: p.duration,
                window_position: p.window_position,
                window_style: p.window_style,
            }),
            BodyElement::Span(s) => BodyElementV::Span(SpanV {
                inner: match s.inner {
                    Some(v) => Some(elems_dview(v@)),
                    None => None,
                },
                pen: s.pen,
            }),
            BodyElement::Br(_) => BodyElementV::Br,
            BodyElement::Div(v) => BodyElementV::Div(elems_dview(v@)),
        }
    }
}

/// The mathematical value of a sequence of body elements.
pub open spec fn elems_dview(s: Seq<BodyElement>) -> Seq<BodyElementV>
    decreases s,
{
    if s.len() == 0 {
        Seq::<BodyElementV>::empty()
    } else {
        elems_dview(s.drop_last()).push(s.last().dview())
    }
}

/// The element-wise reading of [`elems_dview`].
pub proof fn lemma_elems_dview(s: Seq<BodyElement>)
    ensures
        elems_dview(s).len() == s.len(),
        forall|i: int| 0 <= i < s.len() ==> elems_dview(s)[i] == (#[trigger] s[i]).dview(),
    decreases s,
{
    if s.len() > 0 {
        lemma_elems_dview(s.drop_last());
        assert forall|i: int| 0 <= i < s.len() implies elems_dview(s)[i] == (#[trigger] s[i]).dview() by {
            if i < s.len() - 1 {
                assert(s.drop_last()[i] == s[i]);
                assert(elems_dview(s)[i] == elems_dview(s.drop_last())[i]);
            } else {
                assert(elems_dview(s)[i] == s.last().dview());
            }
        }
    }
}

impl Paragraph {
    /// The mathematical value of this paragraph.
    pub open spec fn dview(self) -> ParagraphV {
        ParagraphV {
            inner: elems_dview(self.inner@),
            timestamp: self.timestamp,
            duration: self.duration,
            window_position: self.window_position,
            window_style: self.window_style,
        }
    }
}

impl Body {
    /// The mathematical value of the body.
    pub open spec fn dview(self) -> BodyV {
        BodyV { elements: elems_dview(self.elements@) }
    }
}

impl TimedText {
    /// The mathematical value of the document.
    pub open spec fn dview(self) -> TimedTextV {
        TimedTextV {
            format: match self.format {
                Some(f) => Some(f@),
                None => None,
            },
            head: match self.head {
                Some(h) => Some(h.dview()),
                None => None,
            },
            body: self.body.dview(),
        }
    }
}

/// Why a decode failed. Decoding either returns a complete document or
/// one of these; no partial document is ever handed out.
#[derive(Debug, Clone, Copy, PartialEq, Eq, Structural)]
pub enum DecodeError {
    /// The input is not well-formed XML.
    MalformedMarkup,
    /// A mandatory attribute or child (a record id, a paragraph's timing,
    /// the body) is absent on an otherwise recognized element.
    MissingRequiredAttribute,
    /// A closed-enum attribute holds a code outside its declared set.
    UnrecognizedEnumValue,
    /// A child tag outside the closed grammar of the dialect.
    UnrecognizedElement,
}

impl DecodeError {
    /// A short human-readable description of the failure.
    pub fn message(&self) -> (r: &'static str)
        ensures
            r@ =~= self.spec_message(),
    {
        proof {
            reveal_strlit("the input is not well-formed markup");
            reveal_strlit("a required attribute or child is missing");
            reveal_strlit("an enum attribute holds an unrecognized code");
            reveal_strlit("the body holds an unrecognized element");
        }
        match self {
            DecodeError::MalformedMarkup => "the input is not well-formed markup",
            DecodeError::MissingRequiredAttribute => "a required attribute or child is missing",
            DecodeError::UnrecognizedEnumValue => "an enum attribute holds an unrecognized code",
            DecodeError::UnrecognizedElement => "the body holds an unrecognized element",
        }
    }

    /// What [`DecodeError::message`] returns, as a character sequence.
    pub open spec fn spec_message(&self) -> Seq<char> {
        match self {
            DecodeError::MalformedMarkup => "the input is not well-formed markup"@,
            DecodeError::MissingRequiredAttribute => "a required attribute or child is missing"@,
            DecodeError::UnrecognizedEnumValue => "an enum attribute holds an unrecognized code"@,
            DecodeError::UnrecognizedElement => "the body holds an unrecognized element"@,
        }
    }
}

} // verus!
