//! The encoder: serializes a document back to XML text.
//!
//! The output is canonical: attributes in a fixed order, self-closing
//! empty records, default values suppressed (an opacity of 255, a mode
//! hint of "none"), and the canonical code re-emitted for every enum.
//! Encoding is total: every representable document has an encoding. The
//! whole rendering is pinned down by the spec function [`doc_xml`].

use vstd::prelude::*;
use vstd::string::*;
use crate::model::{BodyElement, Head, Paragraph, Pen, TimedText, WindowPosition, WindowStyle};
use crate::codec::{
    anchor_point_code, edge_type_code, font_style_code, justify_code, mode_hint_code,
    rotation_code, ruby_style_code, text_emphasis_code, text_offset_code,
};
use crate::model::ModeHint;
use crate::token::{bool_token, color_token, dec_token, dec_token_signed};

verus! {

broadcast use
    vstd::std_specs::vec::axiom_vec_index_decreases,
    vstd::std_specs::vec::axiom_vec_decreases_to_view;

// ---------------------------------------------------------------------
// Escaping
// ---------------------------------------------------------------------

/// The rendering of one character inside character data.
pub open spec fn esc_text_char(c: char) -> Seq<char> {
    if c == '&' {
        seq!['&', 'a', 'm', 'p', ';']
    } else if c == '<' {
        seq!['&', 'l', 't', ';']
    } else if c == '>' {
        seq!['&', 'g', 't', ';']
    } else {
        seq![c]
    }
}

/// Character data with markup characters escaped.
pub open spec fn escape_text(s: Seq<char>) -> Seq<char>
    decreases s.len(),
{
    if s.len() == 0 {
        Seq::<char>::empty()
    } else {
        escape_text(s.drop_last()) + esc_text_char(s.last())
    }
}

/// The rendering of one character inside a double-quoted attribute
/// value.
pub open spec fn esc_attr_char(c: char) -> Seq<char> {
    if c == '&' {
        seq!['&', 'a', 'm', 'p', ';']
    } else if c == '<' {
        seq!['&', 'l', 't', ';']
    } else if c == '"' {
        seq!['&', 'q', 'u', 'o', 't', ';']
    } else {
        seq![c]
    }
}

/// An attribute value with markup characters escaped.
pub open spec fn escape_attr(s: Seq<char>) -> Seq<char>
    decreases s.len(),
{
    if s.len() == 0 {
        Seq::<char>::empty()
    } else {
        escape_attr(s.drop_last()) + esc_attr_char(s.last())
    }
}

/// Append character data, escaping markup characters.
fn append_escaped_text(out: &mut String, s: &str)
    ensures
        final(out)@ == old(out)@ + escape_text(s@),
{
    proof {
        reveal_strlit("&amp;");
        reveal_strlit("&lt;");
        reveal_strlit("&gt;");
    }
    let n = s.unicode_len();
    let mut i: usize = 0;
    while i < n
        invariant
            0 <= i <= n,
            n == s@.len(),
            out@ == old(out)@ + escape_text(s@.subrange(0, i as int)),
        decreases n - i,
    {
        let c = s.get_char(i);
        proof {
            assert(s@.subrange(0, i + 1).drop_last() =~= s@.subrange(0, i as int));
            assert(s@.subrange(0, i + 1).last() == s@[i as int]);
        }
        if c == '&' {
            out.append("&amp;");
            proof {
                reveal_strlit("&amp;");
                assert("&amp;"@ =~= esc_text_char(c));
            }
        } else if c == '<' {
            out.append("&lt;");
            proof {
                reveal_strlit("&lt;");
                assert("&lt;"@ =~= esc_text_char(c));
            }
        } else if c == '>' {
            out.append("&gt;");
            proof {
                reveal_strlit("&gt;");
                assert("&gt;"@ =~= esc_text_char(c));
            }
        } else {
            let piece = s.substring_char(i, i + 1);
            out.append(piece);
            proof {
                assert(piece@ =~= esc_text_char(c));
            }
        }
        proof {
            assert(out@ =~= old(out)@ + escape_text(s@.subrange(0, i + 1)));
        }
        i = i + 1;
    }
    proof {
        assert(s@.subrange(0, n as int) =~= s@);
    }
}

/// Append an attribute value, escaping markup characters.
fn append_escaped_attr(out: &mut String, s: &str)
    ensures
        final(out)@ == old(out)@ + escape_attr(s@),
{
    proof {
        reveal_strlit("&amp;");
        reveal_strlit("&lt;");
        reveal_strlit("&quot;");
    }
    let n = s.unicode_len();
    let mut i: usize = 0;
    while i < n
        invariant
            0 <= i <= n,
            n == s@.len(),
            out@ == old(out)@ + escape_attr(s@.subrange(0, i as int)),
        decreases n - i,
    {
        let c = s.get_char(i);
        proof {
            assert(s@.subrange(0, i + 1).drop_last() =~= s@.subrange(0, i as int));
            assert(s@.subrange(0, i + 1).last() == s@[i as int]);
        }
        if c == '&' {
            out.append("&amp;");
            proof {
                reveal_strlit("&amp;");
                assert("&amp;"@ =~= esc_attr_char(c));
            }
        } else if c == '<' {
            out.append("&lt;");
            proof {
                reveal_strlit("&lt;");
                assert("&lt;"@ =~= esc_attr_char(c));
            }
        } else if c == '"' {
            out.append("&quot;");
            proof {
                reveal_strlit("&quot;");
                assert("&quot;"@ =~= esc_attr_char(c));
            }
        } else {
            let piece = s.substring_char(i, i + 1);
            out.append(piece);
            proof {
                assert(piece@ =~= esc_attr_char(c));
            }
        }
        proof {
            assert(out@ =~= old(out)@ + escape_attr(s@.subrange(0, i + 1)));
        }
        i = i + 1;
    }
    proof {
        assert(s@.subrange(0, n as int) =~= s@);
    }
}

// ---------------------------------------------------------------------
// Attribute lists
//
// Each record's attributes are given as a list of (name, raw value)
// pairs; [`attrs_xml`] renders them. The same pair lists are what the
// decoder's record codecs read back, which is how round-trip laws are
// stated.
// ---------------------------------------------------------------------

/// The rendering of one attribute: a space, the name, `="`, the escaped
/// value, and a closing quote.
pub open spec fn attr_xml(name: Seq<char>, value: Seq<char>) -> Seq<char> {
    seq![' '] + name + seq!['=', '"'] + escape_attr(value) + seq!['"']
}

/// The rendering of an attribute list.
#[verifier::opaque]
pub open spec fn attrs_xml(ps: Seq<(Seq<char>, Seq<char>)>) -> Seq<char>
    decreases ps.len(),
{
    if ps.len() == 0 {
        Seq::<char>::empty()
    } else {
        attrs_xml(ps.drop_last()) + attr_xml(ps.last().0, ps.last().1)
    }
}

/// The attribute entry of an optional boolean field.
pub open spec fn opt_attr_bool(name: Seq<char>, v: Option<bool>) -> Seq<(Seq<char>, Seq<char>)> {
    match v {
        Some(b) => seq![(name, bool_token(b))],
        None => Seq::<(Seq<char>, Seq<char>)>::empty(),
    }
}

/// The attribute entry of an optional numeric code or count.
pub open spec fn opt_attr_num(name: Seq<char>, v: Option<int>) -> Seq<(Seq<char>, Seq<char>)> {
    match v {
        Some(x) => seq![(name, dec_token(x))],
        None => Seq::<(Seq<char>, Seq<char>)>::empty(),
    }
}

/// The attribute entry of an optional signed offset.
pub open spec fn opt_attr_signed(name: Seq<char>, v: Option<int>) -> Seq<(Seq<char>, Seq<char>)> {
    match v {
        Some(x) => seq![(name, dec_token_signed(x))],
        None => Seq::<(Seq<char>, Seq<char>)>::empty(),
    }
}

/// The attribute entry of an optional color field.
pub open spec fn opt_attr_color(name: Seq<char>, v: Option<crate::model::Color>) -> Seq<
    (Seq<char>, Seq<char>),
> {
    match v {
        Some(c) => seq![(name, color_token(c))],
        None => Seq::<(Seq<char>, Seq<char>)>::empty(),
    }
}

/// The attribute entry of an optional opacity: the implicit default 255
/// is suppressed, encoding as absence.
pub open spec fn opt_attr_opacity(name: Seq<char>, v: Option<int>) -> Seq<(Seq<char>, Seq<char>)> {
    match v {
        Some(x) => if x == 255 {
            Seq::<(Seq<char>, Seq<char>)>::empty()
        } else {
            seq![(name, dec_token(x))]
        },
        None => Seq::<(Seq<char>, Seq<char>)>::empty(),
    }
}

/// The leading attributes of a pen record: its id, the text flags and
/// the color channels.
pub open spec fn pen_attrs_style(p: Pen) -> Seq<(Seq<char>, Seq<char>)> {
    seq![("id"@, dec_token(p.id as int))] + opt_attr_bool("b"@, p.bold) + opt_attr_bool(
        "i"@,
        p.italic,
    ) + opt_attr_bool("u"@, p.underline) + opt_attr_color("fc"@, p.foreground_color)
        + opt_attr_opacity(
        "fo"@,
        match p.foreground_opacity {
            Some(x) => Some(x as int),
            None => None,
        },
    ) + opt_attr_color("bc"@, p.background_color) + opt_attr_opacity(
        "bo"@,
        match p.background_opacity {
            Some(x) => Some(x as int),
            None => None,
        },
    )
}

/// The edge and size attributes of a pen record.
pub open spec fn pen_attrs_edge(p: Pen) -> Seq<(Seq<char>, Seq<char>)> {
    opt_attr_color("ec"@, p.edge_color) + opt_attr_num(
        "et"@,
        match p.edge_type {
            Some(e) => Some(edge_type_code(e) as int),
            None => None,
        },
    ) + opt_attr_num(
        "sz"@,
        match p.font_size {
            Some(x) => Some(x as int),
            None => None,
        },
    )
}

/// The face, ruby, packing, offset and emphasis attributes of a pen
/// record.
pub open spec fn pen_attrs_face(p: Pen) -> Seq<(Seq<char>, Seq<char>)> {
    opt_attr_num(
        "fs"@,
        match p.font_style {
            Some(f) => Some(font_style_code(f) as int),
            None => None,
        },
    ) + opt_attr_num(
        "rb"@,
        match p.ruby {
            Some(r) => Some(ruby_style_code(r) as int),
            None => None,
        },
    ) + opt_attr_num(
        "hg"@,
        match p.packing {
            Some(x) => Some(x as int),
            None => None,
        },
    ) + opt_attr_num(
        "of"@,
        match p.text_offset {
            Some(t) => Some(text_offset_code(t) as int),
            None => None,
        },
    ) + opt_attr_num(
        "te"@,
        match p.text_emphasis {
            Some(t) => Some(text_emphasis_code(t) as int),
            None => None,
        },
    )
}

/// The attribute list of a pen record, in canonical order.
pub open spec fn pen_attrs(p: Pen) -> Seq<(Seq<char>, Seq<char>)> {
    pen_attrs_style(p) + pen_attrs_edge(p) + pen_attrs_face(p)
}

/// The attribute list of a window-position record, in canonical order.
pub open spec fn wp_attrs(w: WindowPosition) -> Seq<(Seq<char>, Seq<char>)> {
    seq![("id"@, dec_token(w.id as int))] + opt_attr_num(
        "ap"@,
        match w.anchor_point {
            Some(a) => Some(anchor_point_code(a) as int),
            None => None,
        },
    ) + opt_attr_signed(
        "ah"@,
        match w.horizontal_offset {
            Some(x) => Some(x as int),
            None => None,
        },
    ) + opt_attr_signed(
        "av"@,
        match w.vertical_offset {
            Some(x) => Some(x as int),
            None => None,
        },
    ) + opt_attr_num(
        "rc"@,
        match w.rows_total {
            Some(x) => Some(x as int),
            None => None,
        },
    ) + opt_attr_num(
        "cc"@,
        match w.columns_total {
            Some(x) => Some(x as int),
            None => None,
        },
    )
}

/// The leading attributes of a window-style record: id, justification
/// and the two rotations.
pub open spec fn ws_attrs_layout(w: WindowStyle) -> Seq<(Seq<char>, Seq<char>)> {
    seq![("id"@, dec_token(w.id as int))] + opt_attr_num(
        "ju"@,
        match w.justify {
            Some(j) => Some(justify_code(j) as int),
            None => None,
        },
    ) + opt_attr_num(
        "pd"@,
        match w.pitch_direction {
            Some(r) => Some(rotation_code(r) as int),
            None => None,
        },
    ) + opt_attr_num(
        "sd"@,
        match w.skew_direction {
            Some(r) => Some(rotation_code(r) as int),
            None => None,
        },
    )
}

/// The trailing attributes of a window-style record: the mode hint and
/// the window fill. The mode hint "none" is the implicit default and is
/// suppressed.
pub open spec fn ws_attrs_fill(w: WindowStyle) -> Seq<(Seq<char>, Seq<char>)> {
    (if w.mode_hint == ModeHint::NoHint {
        Seq::<(Seq<char>, Seq<char>)>::empty()
    } else {
        seq![("mh"@, dec_token(mode_hint_code(w.mode_hint) as int))]
    }) + (match w.fill_color {
        Some(c) => seq![("wfc"@, c@)],
        None => Seq::<(Seq<char>, Seq<char>)>::empty(),
    }) + opt_attr_opacity(
        "wfo"@,
        match w.fill_opacity {
            Some(x) => Some(x as int),
            None => None,
        },
    )
}

/// The attribute list of a window-style record, in canonical order.
pub open spec fn ws_attrs(w: WindowStyle) -> Seq<(Seq<char>, Seq<char>)> {
    ws_attrs_layout(w) + ws_attrs_fill(w)
}

/// The attribute list of a paragraph, in canonical order.
pub open spec fn paragraph_attrs(p: Paragraph) -> Seq<(Seq<char>, Seq<char>)> {
    seq![("t"@, dec_token(p.timestamp as int)), ("d"@, dec_token(p.duration as int))]
        + opt_attr_num(
        "wp"@,
        match p.window_position {
            Some(x) => Some(x as int),
            None => None,
        },
    ) + opt_attr_num(
        "ws"@,
        match p.window_style {
            Some(x) => Some(x as int),
            None => None,
        },
    )
}

/// The attribute list of a span.
pub open spec fn span_attrs(pen: Option<u32>) -> Seq<(Seq<char>, Seq<char>)> {
    opt_attr_num(
        "p"@,
        match pen {
            Some(x) => Some(x as int),
            None => None,
        },
    )
}

// ---------------------------------------------------------------------
// The document rendering
// ---------------------------------------------------------------------

/// The rendering of one body element.
pub open spec fn elem_xml(e: BodyElement) -> Seq<char>
    decreases e,
{
    match e {
        BodyElement::Text(t) => escape_text(t@),
        BodyElement::Br(_) => "<br/>"@,
        BodyElement::Span(s) => match s.inner {
            Some(v) => "<s"@ + attrs_xml(span_attrs(s.pen)) + ">"@ + elems_xml(v@) + "</s>"@,
            None => "<s"@ + attrs_xml(span_attrs(s.pen)) + "/>"@,
        },
        BodyElement::Paragraph(p) => "<p"@ + attrs_xml(paragraph_attrs(p)) + ">"@ + elems_xml(
            p.inner@,
        ) + "</p>"@,
        BodyElement::Div(v) => "<div>"@ + elems_xml(v@) + "</div>"@,
    }
}

/// The rendering of a sequence of body elements, in order.
pub open spec fn elems_xml(s: Seq<BodyElement>) -> Seq<char>
    decreases s,
{
    if s.len() == 0 {
        Seq::<char>::empty()
    } else {
        elems_xml(s.drop_last()) + elem_xml(s.last())
    }
}

/// The rendering of the pen records.
pub open spec fn pens_xml(s: Seq<Pen>) -> Seq<char>
    decreases s.len(),
{
    if s.len() == 0 {
        Seq::<char>::empty()
    } else {
        pens_xml(s.drop_last()) + "<pen"@ + attrs_xml(pen_attrs(s.last())) + "/>"@
    }
}

/// The rendering of the window-position records.
pub open spec fn wps_xml(s: Seq<WindowPosition>) -> Seq<char>
    decreases s.len(),
{
    if s.len() == 0 {
        Seq::<char>::empty()
    } else {
        wps_xml(s.drop_last()) + "<wp"@ + attrs_xml(wp_attrs(s.last())) + "/>"@
    }
}

/// The rendering of the window-style records.
pub open spec fn wss_xml(s: Seq<WindowStyle>) -> Seq<char>
    decreases s.len(),
{
    if s.len() == 0 {
        Seq::<char>::empty()
    } else {
        wss_xml(s.drop_last()) + "<ws"@ + attrs_xml(ws_attrs(s.last())) + "/>"@
    }
}

/// The rendering of the header.
pub open spec fn head_xml(h: Head) -> Seq<char> {
    "<head>"@ + pens_xml(h.pen@) + wps_xml(h.wp@) + wss_xml(h.ws@) + "</head>"@
}

/// The rendering of a whole document.
pub open spec fn doc_xml(d: TimedText) -> Seq<char> {
    "<timedtext"@ + (match d.format {
        Some(f) => attr_xml("format"@, f@),
        None => Seq::<char>::empty(),
    }) + ">"@ + (match d.head {
        Some(h) => head_xml(h),
        None => Seq::<char>::empty(),
    }) + "<body>"@ + elems_xml(d.body.elements@) + "</body>"@ + "</timedtext>"@
}

// ---------------------------------------------------------------------
// Exec rendering
// ---------------------------------------------------------------------

/// Append one attribute with a raw (string) value.
fn append_attr_str(out: &mut String, name: &str, value: &str)
    ensures
        final(out)@ == old(out)@ + attr_xml(name@, value@),
{
    proof {
        reveal_strlit(" ");
        reveal_strlit("=\"");
        reveal_strlit("\"");
    }
    out.append(" ");
    out.append(name);
    out.append("=\"");
    append_escaped_attr(out, value);
    out.append("\"");
    proof {
        assert(out@ =~= old(out)@ + attr_xml(name@, value@));
    }
}

/// Append one attribute holding an unsigned number.
///
/// A decimal token never needs escaping, so the raw token is written.
fn append_attr_u64(out: &mut String, name: &str, v: u64)
    ensures
        final(out)@ == old(out)@ + attr_xml(name@, dec_token(v as int)),
{
    proof {
        reveal_strlit(" ");
        reveal_strlit("=\"");
        reveal_strlit("\"");
    }
    out.append(" ");
    out.append(name);
    out.append("=\"");
    let ghost mid = out@;
    crate::token::append_u64(out, v);
    proof {
        crate::token::lemma_dec_token_value(v as int);
        lemma_escape_attr_plain(dec_token(v as int));
        assert(out@ == mid + escape_attr(dec_token(v as int)));
    }
    out.append("\"");
    proof {
        assert(out@ =~= old(out)@ + attr_xml(name@, dec_token(v as int)));
    }
}

/// Append one attribute holding a signed number.
fn append_attr_i32(out: &mut String, name: &str, v: i32)
    ensures
        final(out)@ == old(out)@ + attr_xml(name@, dec_token_signed(v as int)),
{
    proof {
        reveal_strlit(" ");
        reveal_strlit("=\"");
        reveal_strlit("\"");
    }
    out.append(" ");
    out.append(name);
    out.append("=\"");
    let ghost mid = out@;
    crate::token::append_i32(out, v);
    proof {
        lemma_escape_attr_signed(v as int);
        assert(out@ == mid + escape_attr(dec_token_signed(v as int)));
    }
    out.append("\"");
    proof {
        assert(out@ =~= old(out)@ + attr_xml(name@, dec_token_signed(v as int)));
    }
}

/// Append one attribute holding a boolean flag.
fn append_attr_bool(out: &mut String, name: &str, v: bool)
    ensures
        final(out)@ == old(out)@ + attr_xml(name@, bool_token(v)),
{
    proof {
        reveal_strlit(" ");
        reveal_strlit("=\"");
        reveal_strlit("\"");
    }
    out.append(" ");
    out.append(name);
    out.append("=\"");
    let ghost mid = out@;
    crate::token::append_bool(out, v);
    proof {
        lemma_escape_attr_plain(bool_token(v));
        assert(out@ == mid + escape_attr(bool_token(v)));
    }
    out.append("\"");
    proof {
        assert(out@ =~= old(out)@ + attr_xml(name@, bool_token(v)));
    }
}

/// Append one attribute holding a color token.
fn append_attr_color(out: &mut String, name: &str, v: crate::model::Color)
    ensures
        final(out)@ == old(out)@ + attr_xml(name@, color_token(v)),
{
    proof {
        reveal_strlit(" ");
        reveal_strlit("=\"");
        reveal_strlit("\"");
    }
    out.append(" ");
    out.append(name);
    out.append("=\"");
    let ghost mid = out@;
    crate::token::append_color(out, v);
    proof {
        lemma_color_token_plain(v);
        assert(out@ == mid + escape_attr(color_token(v)));
    }
    out.append("\"");
    proof {
        assert(out@ =~= old(out)@ + attr_xml(name@, color_token(v)));
    }
}

/// A sequence without markup characters escapes to itself.
proof fn lemma_escape_attr_plain(s: Seq<char>)
    requires
        forall|i: int| 0 <= i < s.len() ==> s[i] != '&' && s[i] != '<' && (#[trigger] s[i]) != '"',
    ensures
        escape_attr(s) == s,
    decreases s.len(),
{
    if s.len() > 0 {
        lemma_escape_attr_plain(s.drop_last());
        assert(escape_attr(s) =~= s);
    } else {
        assert(escape_attr(s) =~= s);
    }
}

/// Rendering distributes over concatenation of attribute lists.
proof fn lemma_attrs_xml_concat(a: Seq<(Seq<char>, Seq<char>)>, b: Seq<(Seq<char>, Seq<char>)>)
    ensures
        attrs_xml(a + b) == attrs_xml(a) + attrs_xml(b),
    decreases b.len(),
{
    reveal(attrs_xml);
    if b.len() == 0 {
        assert(a + b =~= a);
        assert(attrs_xml(a) + attrs_xml(b) =~= attrs_xml(a));
    } else {
        lemma_attrs_xml_concat(a, b.drop_last());
        assert((a + b).drop_last() =~= a + b.drop_last());
        assert((a + b).last() == b.last());
        assert(attrs_xml(a) + attrs_xml(b) =~= attrs_xml(a) + attrs_xml(b.drop_last()) + attr_xml(
            b.last().0,
            b.last().1,
        ));
    }
}

/// The rendering of a one-entry attribute list.
proof fn lemma_attrs_xml_one(name: Seq<char>, value: Seq<char>)
    ensures
        attrs_xml(seq![(name, value)]) == attr_xml(name, value),
{
    reveal(attrs_xml);
    let s = seq![(name, value)];
    assert(s.len() == 1);
    assert(s.last() == (name, value));
    assert(s.drop_last() =~= Seq::<(Seq<char>, Seq<char>)>::empty());
    assert(attrs_xml(s.drop_last()) == Seq::<char>::empty());
    assert(attrs_xml(s) == attrs_xml(s.drop_last()) + attr_xml(s.last().0, s.last().1));
    assert(attrs_xml(s) =~= attr_xml(name, value));
}

/// Append the attribute of an optional boolean field.
fn append_opt_bool(out: &mut String, name: &str, v: Option<bool>)
    ensures
        final(out)@ == old(out)@ + attrs_xml(opt_attr_bool(name@, v)),
{
    proof {
        reveal(attrs_xml);
    }
    match v {
        Some(b) => {
            append_attr_bool(out, name, b);
            proof {
                lemma_attrs_xml_one(name@, bool_token(b));
            }
        },
        None => {
        },
    }
}

/// Append the attribute of an optional numeric field.
fn append_opt_num(out: &mut String, name: &str, v: Option<u64>)
    ensures
        final(out)@ == old(out)@ + attrs_xml(
            opt_attr_num(
                name@,
                match v {
                    Some(x) => Some(x as int),
                    None => None,
                },
            ),
        ),
{
    proof {
        reveal(attrs_xml);
    }
    match v {
        Some(x) => {
            append_attr_u64(out, name, x);
            proof {
                lemma_attrs_xml_one(name@, dec_token(x as int));
            }
        },
        None => {
        },
    }
}

/// Append the attribute of an optional signed field.
fn append_opt_signed(out: &mut String, name: &str, v: Option<i32>)
    ensures
        final(out)@ == old(out)@ + attrs_xml(
            opt_attr_signed(
                name@,
                match v {
                    Some(x) => Some(x as int),
                    None => None,
                },
            ),
        ),
{
    proof {
        reveal(attrs_xml);
    }
    match v {
        Some(x) => {
            append_attr_i32(out, name, x);
            proof {
                lemma_attrs_xml_one(name@, dec_token_signed(x as int));
            }
        },
        None => {
        },
    }
}

/// Append the attribute of an optional color field.
fn append_opt_color(out: &mut String, name: &str, v: Option<crate::model::Color>)
    ensures
        final(out)@ == old(out)@ + attrs_xml(opt_attr_color(name@, v)),
{
    proof {
        reveal(attrs_xml);
    }
    match v {
        Some(c) => {
            append_attr_color(out, name, c);
            proof {
                lemma_attrs_xml_one(name@, color_token(c));
            }
        },
        None => {
        },
    }
}

/// Append the attribute of an optional opacity, suppressing the
/// implicit default 255.
fn append_opt_opacity(out: &mut String, name: &str, v: Option<u64>)
    ensures
        final(out)@ == old(out)@ + attrs_xml(
            opt_attr_opacity(
                name@,
                match v {
                    Some(x) => Some(x as int),
                    None => None,
                },
            ),
        ),
{
    proof {
        reveal(attrs_xml);
    }
    match v {
        Some(x) => {
            if x != 255 {
                append_attr_u64(out, name, x);
                proof {
                    lemma_attrs_xml_one(name@, dec_token(x as int));
                }
            }
        },
        None => {
        },
    }
}

/// A color token contains no markup characters.
proof fn lemma_color_token_plain(v: crate::model::Color)
    ensures
        escape_attr(color_token(v)) == color_token(v),
{
    let s = color_token(v);
    assert forall|i: int| 0 <= i < s.len() implies s[i] != '&' && s[i] != '<' && (#[trigger] s[i])
        != '"' by {
        if i == 0 {
            assert(s[0] == '#');
        } else {
            let d: int = if i == 1 {
                v.r as int / 16
            } else if i == 2 {
                v.r as int % 16
            } else if i == 3 {
                v.g as int / 16
            } else if i == 4 {
                v.g as int % 16
            } else if i == 5 {
                v.b as int / 16
            } else {
                v.b as int % 16
            };
            assert(0 <= d < 16);
            assert(s[i] == crate::token::hex_char(d));
            crate::token::lemma_hex_char_val(d);
            assert(crate::token::is_hex_digit(s[i]));
        }
    }
    lemma_escape_attr_plain(s);
}

/// Digit strings contain no markup characters.
proof fn lemma_escape_attr_signed(v: int)
    ensures
        escape_attr(dec_token_signed(v)) == dec_token_signed(v),
{
    if v < 0 {
        crate::token::lemma_dec_token_value(0 - v);
        lemma_escape_attr_plain(dec_token_signed(v));
    } else {
        crate::token::lemma_dec_token_value(v);
        lemma_escape_attr_plain(dec_token_signed(v));
    }
}


// ---------------------------------------------------------------------
// Record and tree rendering
// ---------------------------------------------------------------------

/// Append the leading attributes of a pen record.
fn append_pen_style_attrs(out: &mut String, p: &Pen)
    ensures
        final(out)@ == old(out)@ + attrs_xml(pen_attrs_style(*p)),
{
    let ghost mut acc: Seq<(Seq<char>, Seq<char>)> = seq![("id"@, dec_token(p.id as int))];
    append_attr_u64(out, "id", p.id as u64);
    proof {
        lemma_attrs_xml_one("id"@, dec_token(p.id as int));
        assert(attrs_xml(acc) == attr_xml("id"@, dec_token(p.id as int)));
    }
    let ghost seg_b = opt_attr_bool("b"@, p.bold);
    append_opt_bool(out, "b", p.bold);
    proof {
        lemma_attrs_xml_concat(acc, seg_b);
        acc = acc + seg_b;
        assert(out@ =~= old(out)@ + attrs_xml(acc));
    }
    let ghost seg_i = opt_attr_bool("i"@, p.italic);
    append_opt_bool(out, "i", p.italic);
    proof {
        lemma_attrs_xml_concat(acc, seg_i);
        acc = acc + seg_i;
        assert(out@ =~= old(out)@ + attrs_xml(acc));
    }
    let ghost seg_u = opt_attr_bool("u"@, p.underline);
    append_opt_bool(out, "u", p.underline);
    proof {
        lemma_attrs_xml_concat(acc, seg_u);
        acc = acc + seg_u;
        assert(out@ =~= old(out)@ + attrs_xml(acc));
    }
    let ghost seg_fc = opt_attr_color("fc"@, p.foreground_color);
    append_opt_color(out, "fc", p.foreground_color);
    proof {
        lemma_attrs_xml_concat(acc, seg_fc);
        acc = acc + seg_fc;
        assert(out@ =~= old(out)@ + attrs_xml(acc));
    }
    let ghost seg_fo = opt_attr_opacity("fo"@, match p.foreground_opacity {
        Some(x) => Some(x as int),
        None => None,
    });
    append_opt_opacity(out, "fo", match p.foreground_opacity {
        Some(x) => Some(x as u64),
        None => None,
    });
    proof {
        lemma_attrs_xml_concat(acc, seg_fo);
        acc = acc + seg_fo;
        assert(out@ =~= old(out)@ + attrs_xml(acc));
    }
    let ghost seg_bc = opt_attr_color("bc"@, p.background_color);
    append_opt_color(out, "bc", p.background_color);
    proof {
        lemma_attrs_xml_concat(acc, seg_bc);
        acc = acc + seg_bc;
        assert(out@ =~= old(out)@ + attrs_xml(acc));
    }
    let ghost seg_bo = opt_attr_opacity("bo"@, match p.background_opacity {
        Some(x) => Some(x as int),
        None => None,
    });
    append_opt_opacity(out, "bo", match p.background_opacity {
        Some(x) => Some(x as u64),
        None => None,
    });
    proof {
        lemma_attrs_xml_concat(acc, seg_bo);
        acc = acc + seg_bo;
        assert(out@ =~= old(out)@ + attrs_xml(acc));
        assert(acc =~~= pen_attrs_style(*p));
    }
}

/// Append the edge and size attributes of a pen record.
fn append_pen_edge_attrs(out: &mut String, p: &Pen)
    ensures
        final(out)@ == old(out)@ + attrs_xml(pen_attrs_edge(*p)),
{
    let ghost mut acc: Seq<(Seq<char>, Seq<char>)> = opt_attr_color("ec"@, p.edge_color);
    append_opt_color(out, "ec", p.edge_color);
    let ghost seg_et = opt_attr_num("et"@, match p.edge_type {
        Some(e) => Some(edge_type_code(e) as int),
        None => None,
    });
    append_opt_num(out, "et", match p.edge_type {
        Some(e) => Some(crate::codec::edge_type_to_code(e) as u64),
        None => None,
    });
    proof {
        lemma_attrs_xml_concat(acc, seg_et);
        acc = acc + seg_et;
        assert(out@ =~= old(out)@ + attrs_xml(acc));
    }
    let ghost seg_sz = opt_attr_num("sz"@, match p.font_size {
        Some(x) => Some(x as int),
        None => None,
    });
    append_opt_num(out, "sz", match p.font_size {
        Some(x) => Some(x as u64),
        None => None,
    });
    proof {
        lemma_attrs_xml_concat(acc, seg_sz);
        acc = acc + seg_sz;
        assert(out@ =~= old(out)@ + attrs_xml(acc));
        assert(acc =~~= pen_attrs_edge(*p));
    }
}

/// Append the face, ruby, packing, offset and emphasis attributes of a
/// pen record.
#[verifier::rlimit(100)]
fn append_pen_face_attrs(out: &mut String, p: &Pen)
    ensures
        final(out)@ == old(out)@ + attrs_xml(pen_attrs_face(*p)),
{
    let ghost mut acc: Seq<(Seq<char>, Seq<char>)> = opt_attr_num("fs"@, match p.font_style {
        Some(f) => Some(font_style_code(f) as int),
        None => None,
    });
    append_opt_num(out, "fs", match p.font_style {
        Some(f) => Some(crate::codec::font_style_to_code(f) as u64),
        None => None,
    });
    let ghost seg_rb = opt_attr_num("rb"@, match p.ruby {
        Some(r) => Some(ruby_style_code(r) as int),
        None => None,
    });
    append_opt_num(out, "rb", match p.ruby {
        Some(r) => Some(crate::codec::ruby_style_to_code(r) as u64),
        None => None,
    });
    proof {
        lemma_attrs_xml_concat(acc, seg_rb);
        acc = acc + seg_rb;
        assert(out@ =~= old(out)@ + attrs_xml(acc));
    }
    let ghost seg_hg = opt_attr_num("hg"@, match p.packing {
        Some(x) => Some(x as int),
        None => None,
    });
    append_opt_num(out, "hg", match p.packing {
        Some(x) => Some(x as u64),
        None => None,
    });
    proof {
        lemma_attrs_xml_concat(acc, seg_hg);
        acc = acc + seg_hg;
        assert(out@ =~= old(out)@ + attrs_xml(acc));
    }
    let ghost seg_of = opt_attr_num("of"@, match p.text_offset {
        Some(t) => Some(text_offset_code(t) as int),
        None => None,
    });
    append_opt_num(out, "of", match p.text_offset {
        Some(t) => Some(crate::codec::text_offset_to_code(t) as u64),
        None => None,
    });
    proof {
        lemma_attrs_xml_concat(acc, seg_of);
        acc = acc + seg_of;
        assert(out@ =~= old(out)@ + attrs_xml(acc));
    }
    let ghost seg_te = opt_attr_num("te"@, match p.text_emphasis {
        Some(t) => Some(text_emphasis_code(t) as int),
        None => None,
    });
    append_opt_num(out, "te", match p.text_emphasis {
        Some(t) => Some(crate::codec::text_emphasis_to_code(t) as u64),
        None => None,
    });
    proof {
        lemma_attrs_xml_concat(acc, seg_te);
        acc = acc + seg_te;
        assert(out@ =~= old(out)@ + attrs_xml(acc));
        assert(acc =~~= pen_attrs_face(*p));
    }
}

/// Append one pen record.
fn append_pen_xml(out: &mut String, p: &Pen)
    ensures
        final(out)@ == old(out)@ + "<pen"@ + attrs_xml(pen_attrs(*p)) + "/>"@,
{
    proof {
        reveal_strlit("<pen");
        reveal_strlit("/>");
    }
    out.append("<pen");
    append_pen_style_attrs(out, p);
    append_pen_edge_attrs(out, p);
    append_pen_face_attrs(out, p);
    out.append("/>");
    proof {
        lemma_attrs_xml_concat(pen_attrs_style(*p), pen_attrs_edge(*p));
        lemma_attrs_xml_concat(pen_attrs_style(*p) + pen_attrs_edge(*p), pen_attrs_face(*p));
        assert(final(out)@ =~= old(out)@ + "<pen"@ + attrs_xml(pen_attrs(*p)) + "/>"@);
    }
}

/// Append one window-position record.
#[verifier::rlimit(60)]
fn append_wp_xml(out: &mut String, w: &WindowPosition)
    ensures
        final(out)@ == old(out)@ + "<wp"@ + attrs_xml(wp_attrs(*w)) + "/>"@,
{
    proof {
        reveal_strlit("<wp");
        reveal_strlit("/>");
    }
    out.append("<wp");
    let ghost mut acc: Seq<(Seq<char>, Seq<char>)> = seq![("id"@, dec_token(w.id as int))];
    append_attr_u64(out, "id", w.id as u64);
    proof {
        lemma_attrs_xml_one("id"@, dec_token(w.id as int));
    }
    let ghost seg_ap = opt_attr_num("ap"@, match w.anchor_point {
        Some(a) => Some(anchor_point_code(a) as int),
        None => None,
    });
    append_opt_num(out, "ap", match w.anchor_point {
        Some(a) => Some(crate::codec::anchor_point_to_code(a) as u64),
        None => None,
    });
    proof {
        lemma_attrs_xml_concat(acc, seg_ap);
        acc = acc + seg_ap;
        assert(out@ =~= old(out)@ + "<wp"@ + attrs_xml(acc));
    }
    let ghost seg_ah = opt_attr_signed("ah"@, match w.horizontal_offset {
        Some(x) => Some(x as int),
        None => None,
    });
    append_opt_signed(out, "ah", w.horizontal_offset);
    proof {
        lemma_attrs_xml_concat(acc, seg_ah);
        acc = acc + seg_ah;
        assert(out@ =~= old(out)@ + "<wp"@ + attrs_xml(acc));
    }
    let ghost seg_av = opt_attr_signed("av"@, match w.vertical_offset {
        Some(x) => Some(x as int),
        None => None,
    });
    append_opt_signed(out, "av", w.vertical_offset);
    proof {
        lemma_attrs_xml_concat(acc, seg_av);
        acc = acc + seg_av;
        assert(out@ =~= old(out)@ + "<wp"@ + attrs_xml(acc));
    }
    let ghost seg_rc = opt_attr_num("rc"@, match w.rows_total {
        Some(x) => Some(x as int),
        None => None,
    });
    append_opt_num(out, "rc", match w.rows_total {
        Some(x) => Some(x as u64),
        None => None,
    });
    proof {
        lemma_attrs_xml_concat(acc, seg_rc);
        acc = acc + seg_rc;
        assert(out@ =~= old(out)@ + "<wp"@ + attrs_xml(acc));
    }
    let ghost seg_cc = opt_attr_num("cc"@, match w.columns_total {
        Some(x) => Some(x as int),
        None => None,
    });
    append_opt_num(out, "cc", match w.columns_total {
        Some(x) => Some(x as u64),
        None => None,
    });
    proof {
        lemma_attrs_xml_concat(acc, seg_cc);
        acc = acc + seg_cc;
        assert(out@ =~= old(out)@ + "<wp"@ + attrs_xml(acc));
        assert(acc =~~= wp_attrs(*w));
    }
    out.append("/>");
    proof {
        assert(final(out)@ =~= old(out)@ + "<wp"@ + attrs_xml(wp_attrs(*w)) + "/>"@);
    }
}

/// Append the leading attributes of a window-style record.
fn append_ws_layout_attrs(out: &mut String, w: &WindowStyle)
    ensures
        final(out)@ == old(out)@ + attrs_xml(ws_attrs_layout(*w)),
{
    let ghost mut acc: Seq<(Seq<char>, Seq<char>)> = seq![("id"@, dec_token(w.id as int))];
    append_attr_u64(out, "id", w.id as u64);
    proof {
        lemma_attrs_xml_one("id"@, dec_token(w.id as int));
    }
    let ghost seg_ju = opt_attr_num("ju"@, match w.justify {
        Some(j) => Some(justify_code(j) as int),
        None => None,
    });
    append_opt_num(out, "ju", match w.justify {
        Some(j) => Some(crate::codec::justify_to_code(j) as u64),
        None => None,
    });
    proof {
        lemma_attrs_xml_concat(acc, seg_ju);
        acc = acc + seg_ju;
        assert(out@ =~= old(out)@ + attrs_xml(acc));
    }
    let ghost seg_pd = opt_attr_num("pd"@, match w.pitch_direction {
        Some(r) => Some(rotation_code(r) as int),
        None => None,
    });
    append_opt_num(out, "pd", match w.pitch_direction {
        Some(r) => Some(crate::codec::rotation_to_code(r) as u64),
        None => None,
    });
    proof {
        lemma_attrs_xml_concat(acc, seg_pd);
        acc = acc + seg_pd;
        assert(out@ =~= old(out)@ + attrs_xml(acc));
    }
    let ghost seg_sd = opt_attr_num("sd"@, match w.skew_direction {
        Some(r) => Some(rotation_code(r) as int),
        None => None,
    });
    append_opt_num(out, "sd", match w.skew_direction {
        Some(r) => Some(crate::codec::rotation_to_code(r) as u64),
        None => None,
    });
    proof {
        lemma_attrs_xml_concat(acc, seg_sd);
        acc = acc + seg_sd;
        assert(out@ =~= old(out)@ + attrs_xml(acc));
        assert(acc =~~= ws_attrs_layout(*w));
    }
}

/// Append the trailing attributes of a window-style record.
fn append_ws_fill_attrs(out: &mut String, w: &WindowStyle)
    ensures
        final(out)@ == old(out)@ + attrs_xml(ws_attrs_fill(*w)),
{
    proof {
        reveal(attrs_xml);
    }
    let ghost mut acc: Seq<(Seq<char>, Seq<char>)> = if w.mode_hint == ModeHint::NoHint {
        Seq::<(Seq<char>, Seq<char>)>::empty()
    } else {
        seq![("mh"@, dec_token(mode_hint_code(w.mode_hint) as int))]
    };
    if !matches!(w.mode_hint, ModeHint::NoHint) {
        let code = crate::codec::mode_hint_to_code(w.mode_hint);
        append_attr_u64(out, "mh", code as u64);
        proof {
            lemma_attrs_xml_one("mh"@, dec_token(mode_hint_code(w.mode_hint) as int));
        }
    }
    proof {
        assert(out@ =~= old(out)@ + attrs_xml(acc));
    }
    let ghost seg_wfc: Seq<(Seq<char>, Seq<char>)> = match &w.fill_color {
        Some(c) => seq![("wfc"@, c@)],
        None => Seq::<(Seq<char>, Seq<char>)>::empty(),
    };
    match &w.fill_color {
        Some(c) => {
            append_attr_str(out, "wfc", c.as_str());
            proof {
                lemma_attrs_xml_one("wfc"@, c@);
            }
        },
        None => {
        },
    }
    proof {
        lemma_attrs_xml_concat(acc, seg_wfc);
        acc = acc + seg_wfc;
        assert(out@ =~= old(out)@ + attrs_xml(acc));
    }
    let ghost seg_wfo = opt_attr_opacity("wfo"@, match w.fill_opacity {
        Some(x) => Some(x as int),
        None => None,
    });
    append_opt_opacity(out, "wfo", match w.fill_opacity {
        Some(x) => Some(x as u64),
        None => None,
    });
    proof {
        lemma_attrs_xml_concat(acc, seg_wfo);
        acc = acc + seg_wfo;
        assert(out@ =~= old(out)@ + attrs_xml(acc));
        assert(acc =~~= ws_attrs_fill(*w));
    }
}

/// Append one window-style record.
fn append_ws_xml(out: &mut String, w: &WindowStyle)
    ensures
        final(out)@ == old(out)@ + "<ws"@ + attrs_xml(ws_attrs(*w)) + "/>"@,
{
    proof {
        reveal_strlit("<ws");
        reveal_strlit("/>");
    }
    out.append("<ws");
    append_ws_layout_attrs(out, w);
    append_ws_fill_attrs(out, w);
    out.append("/>");
    proof {
        lemma_attrs_xml_concat(ws_attrs_layout(*w), ws_attrs_fill(*w));
        assert(final(out)@ =~= old(out)@ + "<ws"@ + attrs_xml(ws_attrs(*w)) + "/>"@);
    }
}

/// Append the attributes of a paragraph.
fn append_paragraph_attrs(out: &mut String, p: &Paragraph)
    ensures
        final(out)@ == old(out)@ + attrs_xml(paragraph_attrs(*p)),
{
    proof {
        reveal(attrs_xml);
    }
    let ghost mut acc: Seq<(Seq<char>, Seq<char>)> = seq![
        ("t"@, dec_token(p.timestamp as int)),
        ("d"@, dec_token(p.duration as int)),
    ];
    append_attr_u64(out, "t", p.timestamp);
    append_attr_u64(out, "d", p.duration);
    proof {
        lemma_attrs_xml_one("t"@, dec_token(p.timestamp as int));
        let two = seq![("t"@, dec_token(p.timestamp as int)), ("d"@, dec_token(p.duration as int))];
        assert(two.drop_last() =~= seq![("t"@, dec_token(p.timestamp as int))]);
        assert(attrs_xml(two) =~= attrs_xml(seq![("t"@, dec_token(p.timestamp as int))]) + attr_xml(
            "d"@,
            dec_token(p.duration as int),
        ));
    }
    let ghost seg_wp = opt_attr_num("wp"@, match p.window_position {
        Some(x) => Some(x as int),
        None => None,
    });
    append_opt_num(out, "wp", match p.window_position {
        Some(x) => Some(x as u64),
        None => None,
    });
    proof {
        lemma_attrs_xml_concat(acc, seg_wp);
        acc = acc + seg_wp;
        assert(out@ =~= old(out)@ + attrs_xml(acc));
    }
    let ghost seg_ws = opt_attr_num("ws"@, match p.window_style {
        Some(x) => Some(x as int),
        None => None,
    });
    append_opt_num(out, "ws", match p.window_style {
        Some(x) => Some(x as u64),
        None => None,
    });
    proof {
        lemma_attrs_xml_concat(acc, seg_ws);
        acc = acc + seg_ws;
        assert(out@ =~= old(out)@ + attrs_xml(acc));
        assert(acc =~~= paragraph_attrs(*p));
    }
}

/// Append the rendering of one body element.
fn append_elem_xml(out: &mut String, e: &BodyElement)
    ensures
        final(out)@ == old(out)@ + elem_xml(*e),
    decreases *e,
{
    proof {
        reveal(attrs_xml);
    }
    match e {
        BodyElement::Text(t) => {
            append_escaped_text(out, t.as_str());
        },
        BodyElement::Br(_) => {
            proof {
                reveal_strlit("<br/>");
            }
            out.append("<br/>");
        },
        BodyElement::Span(sp) => {
            proof {
                reveal_strlit("<s");
                reveal_strlit("/>");
                reveal_strlit(">");
                reveal_strlit("</s>");
            }
            out.append("<s");
            match &sp.pen {
                Some(id) => {
                    append_attr_u64(out, "p", *id as u64);
                    proof {
                        lemma_attrs_xml_one("p"@, dec_token(*id as int));
                    }
                },
                None => {
                },
            }
            proof {
                assert(out@ == old(out)@ + "<s"@ + attrs_xml(span_attrs(sp.pen)));
            }
            match &sp.inner {
                Some(v) => {
                    out.append(">");
                    append_elems_xml(out, v);
                    out.append("</s>");
                },
                None => {
                    out.append("/>");
                },
            }
            proof {
                assert(final(out)@ =~= old(out)@ + elem_xml(*e));
            }
        },
        BodyElement::Paragraph(p) => {
            proof {
                reveal_strlit("<p");
                reveal_strlit(">");
                reveal_strlit("</p>");
            }
            out.append("<p");
            append_paragraph_attrs(out, p);
            out.append(">");
            append_elems_xml(out, &p.inner);
            out.append("</p>");
            proof {
                assert(final(out)@ =~= old(out)@ + elem_xml(*e));
            }
        },
        BodyElement::Div(v) => {
            proof {
                reveal_strlit("<div>");
                reveal_strlit("</div>");
            }
            out.append("<div>");
            append_elems_xml(out, v);
            out.append("</div>");
            proof {
                assert(final(out)@ =~= old(out)@ + elem_xml(*e));
            }
        },
    }
}

/// Append the rendering of each element in order.
fn append_elems_xml(out: &mut String, v: &Vec<BodyElement>)
    ensures
        final(out)@ == old(out)@ + elems_xml(v@),
    decreases *v,
{
    let n = v.len();
    let mut i: usize = 0;
    while i < n
        invariant
            0 <= i <= n,
            n == v@.len(),
            out@ == old(out)@ + elems_xml(v@.subrange(0, i as int)),
        decreases n - i,
    {
        append_elem_xml(out, &v[i]);
        proof {
            assert(v@.subrange(0, i + 1).drop_last() =~= v@.subrange(0, i as int));
            assert(v@.subrange(0, i + 1).last() == v@[i as int]);
        }
        i = i + 1;
    }
    proof {
        assert(v@.subrange(0, n as int) =~= v@);
    }
}

/// Append the rendering of the header.
#[verifier::rlimit(60)]
fn append_head_xml(out: &mut String, h: &Head)
    ensures
        final(out)@ == old(out)@ + head_xml(*h),
{
    proof {
        reveal_strlit("<head>");
        reveal_strlit("</head>");
    }
    out.append("<head>");
    let ghost base = out@;
    let n1 = h.pen.len();
    let mut i: usize = 0;
    while i < n1
        invariant
            0 <= i <= n1,
            n1 == h.pen@.len(),
            out@ == base + pens_xml(h.pen@.subrange(0, i as int)),
        decreases n1 - i,
    {
        append_pen_xml(out, &h.pen[i]);
        proof {
            assert(h.pen@.subrange(0, i + 1).drop_last() =~= h.pen@.subrange(0, i as int));
            assert(h.pen@.subrange(0, i + 1).last() == h.pen@[i as int]);
            assert(out@ =~= base + pens_xml(h.pen@.subrange(0, i + 1)));
        }
        i = i + 1;
    }
    proof {
        assert(h.pen@.subrange(0, n1 as int) =~= h.pen@);
    }
    let ghost base2 = out@;
    let n2 = h.wp.len();
    let mut j: usize = 0;
    while j < n2
        invariant
            0 <= j <= n2,
            n2 == h.wp@.len(),
            out@ == base2 + wps_xml(h.wp@.subrange(0, j as int)),
        decreases n2 - j,
    {
        append_wp_xml(out, &h.wp[j]);
        proof {
            assert(h.wp@.subrange(0, j + 1).drop_last() =~= h.wp@.subrange(0, j as int));
            assert(h.wp@.subrange(0, j + 1).last() == h.wp@[j as int]);
            assert(out@ =~= base2 + wps_xml(h.wp@.subrange(0, j + 1)));
        }
        j = j + 1;
    }
    proof {
        assert(h.wp@.subrange(0, n2 as int) =~= h.wp@);
    }
    let ghost base3 = out@;
    let n3 = h.ws.len();
    let mut k: usize = 0;
    while k < n3
        invariant
            0 <= k <= n3,
            n3 == h.ws@.len(),
            out@ == base3 + wss_xml(h.ws@.subrange(0, k as int)),
        decreases n3 - k,
    {
        append_ws_xml(out, &h.ws[k]);
        proof {
            assert(h.ws@.subrange(0, k + 1).drop_last() =~= h.ws@.subrange(0, k as int));
            assert(h.ws@.subrange(0, k + 1).last() == h.ws@[k as int]);
            assert(out@ =~= base3 + wss_xml(h.ws@.subrange(0, k + 1)));
        }
        k = k + 1;
    }
    proof {
        assert(h.ws@.subrange(0, n3 as int) =~= h.ws@);
    }
    out.append("</head>");
    proof {
        assert(final(out)@ =~= old(out)@ + head_xml(*h));
    }
}

impl TimedText {
    /// Encode the document as XML text.
    ///
    /// Encoding is total and canonical; re-decoding the result yields a
    /// document equal to this one whenever this one itself came from a
    /// decode. The exact rendering is [`doc_xml`].
    pub fn to_xml(&self) -> (r: String)
        ensures
            r@ == doc_xml(*self),
    {
        proof {
            reveal_strlit("<timedtext");
            reveal_strlit(">");
            reveal_strlit("<body>");
            reveal_strlit("</body>");
            reveal_strlit("</timedtext>");
        }
        let mut out = String::new();
        out.append("<timedtext");
        match &self.format {
            Some(f) => {
                append_attr_str(&mut out, "format", f.as_str());
            },
            None => {
            },
        }
        out.append(">");
        match &self.head {
            Some(h) => {
                append_head_xml(&mut out, h);
            },
            None => {
            },
        }
        out.append("<body>");
        append_elems_xml(&mut out, &self.body.elements);
        out.append("</body>");
        out.append("</timedtext>");
        proof {
            assert(out@ =~= doc_xml(*self));
        }
        out
    }
}

} // verus!
