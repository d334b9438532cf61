//! Text extraction over the body tree: a plain-text rendering, a
//! diagnostic markup rendering, and a zero-width-space stripped view.
//!
//! All renderings are pure and total. Plain text concatenates text runs,
//! turns a line break into a newline, and flattens spans and containers
//! in document order; style references are dropped. Markup renders a
//! break as an explicit `<br>` marker and re-wraps a span's flattened
//! content in a tag pair carrying its pen id.

use vstd::prelude::*;
use vstd::string::*;
use crate::model::{Body, BodyElement, Paragraph};
use crate::token::dec_token;

verus! {

broadcast use
    vstd::seq::group_seq_axioms,
    vstd::std_specs::vec::axiom_vec_index_decreases,
    vstd::std_specs::vec::axiom_vec_decreases_to_view;

// ---------------------------------------------------------------------
// Plain text
// ---------------------------------------------------------------------

/// The plain text of one body element.
pub open spec fn plain_text(e: BodyElement) -> Seq<char>
    decreases e,
{
    match e {
        BodyElement::Text(t) => t@,
        BodyElement::Br(_) => seq!['\n'],
        BodyElement::Span(s) => match s.inner {
            Some(v) => plain_text_seq(v@),
            None => Seq::<char>::empty(),
        },
        BodyElement::Paragraph(p) => plain_text_seq(p.inner@),
        BodyElement::Div(v) => plain_text_seq(v@),
    }
}

/// The concatenated plain text of a sequence of body elements.
pub open spec fn plain_text_seq(s: Seq<BodyElement>) -> Seq<char>
    decreases s,
{
    if s.len() == 0 {
        Seq::<char>::empty()
    } else {
        plain_text_seq(s.drop_last()) + plain_text(s.last())
    }
}

/// Append the plain text of one element.
fn append_plain(out: &mut String, e: &BodyElement)
    ensures
        final(out)@ == old(out)@ + plain_text(*e),
    decreases *e,
{
    match e {
        BodyElement::Text(t) => {
            out.append(t.as_str());
        },
        BodyElement::Br(_) => {
            proof {
                reveal_strlit("\n");
            }
            out.append("\n");
            proof {
                assert(final(out)@ =~= old(out)@ + plain_text(*e));
            }
        },
        BodyElement::Span(s) => {
            match &s.inner {
                Some(v) => append_plain_seq(out, v),
                None => {
                    proof {
                        assert(final(out)@ =~= old(out)@ + plain_text(*e));
                    }
                },
            }
        },
        BodyElement::Paragraph(p) => {
            append_plain_seq(out, &p.inner);
        },
        BodyElement::Div(v) => {
            append_plain_seq(out, v);
        },
    }
}

/// Append the plain text of each element in order.
fn append_plain_seq(out: &mut String, v: &Vec<BodyElement>)
    ensures
        final(out)@ == old(out)@ + plain_text_seq(v@),
    decreases *v,
{
    let n = v.len();
    let mut i: usize = 0;
    while i < n
        invariant
            0 <= i <= n,
            n == v@.len(),
            out@ == old(out)@ + plain_text_seq(v@.subrange(0, i as int)),
        decreases n - i,
    {
        append_plain(out, &v[i]);
        proof {
            assert(v@.subrange(0, i + 1).drop_last() =~= v@.subrange(0, i as int));
            assert(v@.subrange(0, i + 1).last() == v@[i as int]);
        }
        i = i + 1;
    }
    proof {
        assert(v@.subrange(0, n as int) =~= v@);
    }
}

// ---------------------------------------------------------------------
// Markup rendering
// ---------------------------------------------------------------------

/// The diagnostic markup text of one body element: like plain text, but
/// a break renders as `<br>` and a span re-wraps its content in `<s>`
/// tags carrying its pen id when present.
pub open spec fn markup_text(e: BodyElement) -> Seq<char>
    decreases e,
{
    match e {
        BodyElement::Text(t) => t@,
        BodyElement::Br(_) => seq!['<', 'b', 'r', '>'],
        BodyElement::Span(s) => seq!['<', 's'] + (match s.pen {
            Some(id) => seq![' ', 'p', '=', '"'] + dec_token(id as int) + seq!['"'],
            None => Seq::<char>::empty(),
        }) + seq!['>'] + (match s.inner {
            Some(v) => markup_text_seq(v@),
            None => Seq::<char>::empty(),
        }) + seq!['<', '/', 's', '>'],
        BodyElement::Paragraph(p) => markup_text_seq(p.inner@),
        BodyElement::Div(v) => markup_text_seq(v@),
    }
}

/// The concatenated markup text of a sequence of body elements.
pub open spec fn markup_text_seq(s: Seq<BodyElement>) -> Seq<char>
    decreases s,
{
    if s.len() == 0 {
        Seq::<char>::empty()
    } else {
        markup_text_seq(s.drop_last()) + markup_text(s.last())
    }
}

/// Append the markup text of one element.
fn append_markup(out: &mut String, e: &BodyElement)
    ensures
        final(out)@ == old(out)@ + markup_text(*e),
    decreases *e,
{
    match e {
        BodyElement::Text(t) => {
            out.append(t.as_str());
        },
        BodyElement::Br(_) => {
            proof {
                reveal_strlit("<br>");
            }
            out.append("<br>");
            proof {
                assert(final(out)@ =~= old(out)@ + markup_text(*e));
            }
        },
        BodyElement::Span(s) => {
            proof {
                reveal_strlit("<s");
                reveal_strlit(" p=\"");
                reveal_strlit("\"");
                reveal_strlit(">");
                reveal_strlit("</s>");
            }
            out.append("<s");
            match &s.pen {
                Some(id) => {
                    out.append(" p=\"");
                    crate::token::append_u32(out, *id);
                    out.append("\"");
                },
                None => {},
            }
            out.append(">");
            match &s.inner {
                Some(v) => append_markup_seq(out, v),
                None => {},
            }
            out.append("</s>");
            proof {
                assert(final(out)@ =~= old(out)@ + markup_text(*e));
            }
        },
        BodyElement::Paragraph(p) => {
            append_markup_seq(out, &p.inner);
        },
        BodyElement::Div(v) => {
            append_markup_seq(out, v);
        },
    }
}

/// Append the markup text of each element in order.
fn append_markup_seq(out: &mut String, v: &Vec<BodyElement>)
    ensures
        final(out)@ == old(out)@ + markup_text_seq(v@),
    decreases *v,
{
    let n = v.len();
    let mut i: usize = 0;
    while i < n
        invariant
            0 <= i <= n,
            n == v@.len(),
            out@ == old(out)@ + markup_text_seq(v@.subrange(0, i as int)),
        decreases n - i,
    {
        append_markup(out, &v[i]);
        proof {
            assert(v@.subrange(0, i + 1).drop_last() =~= v@.subrange(0, i as int));
            assert(v@.subrange(0, i + 1).last() == v@[i as int]);
        }
        i = i + 1;
    }
    proof {
        assert(v@.subrange(0, n as int) =~= v@);
    }
}

// ---------------------------------------------------------------------
// Whitespace trimming and the zero-width-space stripped view
// ---------------------------------------------------------------------

/// The whitespace characters trimmed from the ends of a body rendering.
pub open spec fn is_space(c: char) -> bool {
    c == ' ' || c == '\t' || c == '\n' || c == '\r'
}

/// `s` without its leading whitespace.
pub open spec fn trim_start(s: Seq<char>) -> Seq<char>
    decreases s.len(),
{
    if s.len() > 0 && is_space(s.first()) {
        trim_start(s.drop_first())
    } else {
        s
    }
}

/// `s` without its trailing whitespace.
pub open spec fn trim_end(s: Seq<char>) -> Seq<char>
    decreases s.len(),
{
    if s.len() > 0 && is_space(s.last()) {
        trim_end(s.drop_last())
    } else {
        s
    }
}

/// `s` without leading and trailing whitespace.
pub open spec fn trim(s: Seq<char>) -> Seq<char> {
    trim_end(trim_start(s))
}

/// `s` with every zero-width space (U+200B) removed.
pub open spec fn strip_zwsp(s: Seq<char>) -> Seq<char>
    decreases s.len(),
{
    if s.len() == 0 {
        Seq::<char>::empty()
    } else if s.last() == '\u{200B}' {
        strip_zwsp(s.drop_last())
    } else {
        strip_zwsp(s.drop_last()).push(s.last())
    }
}

/// Where the first `k` characters are whitespace and the `k`th is not,
/// trimming the start drops exactly those `k`.
proof fn lemma_trim_start_at(s: Seq<char>, k: int)
    requires
        0 <= k <= s.len(),
        forall|i: int| 0 <= i < k ==> is_space(#[trigger] s[i]),
        k == s.len() || !is_space(s[k]),
    ensures
        trim_start(s) == s.subrange(k, s.len() as int),
    decreases k,
{
    if k == 0 {
        assert(s.subrange(0, s.len() as int) =~= s);
    } else {
        assert(is_space(s.first()));
        lemma_trim_start_at(s.drop_first(), k - 1);
        assert(s.drop_first().subrange(k - 1, s.drop_first().len() as int) =~= s.subrange(
            k,
            s.len() as int,
        ));
    }
}

/// Where the characters from `m` on are whitespace and the one before
/// `m` is not, trimming the end keeps exactly the first `m`.
proof fn lemma_trim_end_at(s: Seq<char>, m: int)
    requires
        0 <= m <= s.len(),
        forall|i: int| m <= i < s.len() ==> is_space(#[trigger] s[i]),
        m == 0 || !is_space(s[m - 1]),
    ensures
        trim_end(s) == s.subrange(0, m),
    decreases s.len() - m,
{
    if m == s.len() {
        if s.len() > 0 {
            assert(!is_space(s.last()));
        }
        assert(s.subrange(0, s.len() as int) =~= s);
    } else {
        assert(is_space(s.last()));
        lemma_trim_end_at(s.drop_last(), m);
        assert(s.drop_last().subrange(0, m) =~= s.subrange(0, m));
    }
}

/// Whether `c` is one of the whitespace characters that trimming drops.
fn is_space_char(c: char) -> (r: bool)
    ensures
        r == is_space(c),
{
    c == ' ' || c == '\t' || c == '\n' || c == '\r'
}

/// Trim leading and trailing whitespace from a rendering.
pub fn trim_str(s: &str) -> (r: String)
    ensures
        r@ == trim(s@),
{
    let n = s.unicode_len();
    let mut a: usize = 0;
    while a < n && is_space_char(s.get_char(a))
        invariant
            0 <= a <= n,
            n == s@.len(),
            forall|i: int| 0 <= i < a ==> is_space(#[trigger] s@[i]),
        decreases n - a,
    {
        a = a + 1;
    }
    proof {
        lemma_trim_start_at(s@, a as int);
    }
    let mut b: usize = n;
    while b > a && is_space_char(s.get_char(b - 1))
        invariant
            a <= b <= n,
            n == s@.len(),
            forall|i: int| b <= i < n ==> is_space(#[trigger] s@[i]),
        decreases b,
    {
        b = b - 1;
    }
    proof {
        let t = s@.subrange(a as int, n as int);
        assert(forall|i: int| b - a <= i < t.len() ==> is_space(#[trigger] t[i]));
        if b > a {
            assert(t[b - a - 1] == s@[b - 1]);
        }
        lemma_trim_end_at(t, b - a);
        assert(t.subrange(0, b - a) =~= s@.subrange(a as int, b as int));
    }
    let cut = s.substring_char(a, b);
    cut.to_owned()
}

/// Remove every zero-width space (U+200B) from a string.
///
/// Producers insert the marker as a rendering workaround; this derived
/// view drops it. The unstripped text keeps character positions aligned
/// with the source markup, so both views are offered.
pub fn strip_zwsp_str(s: &str) -> (r: String)
    ensures
        r@ == strip_zwsp(s@),
{
    let n = s.unicode_len();
    let mut out = String::new();
    let mut i: usize = 0;
    while i < n
        invariant
            0 <= i <= n,
            n == s@.len(),
            out@ == strip_zwsp(s@.subrange(0, i as int)),
        decreases n - i,
    {
        let c = s.get_char(i);
        proof {
            assert(s@.subrange(0, i + 1).drop_last() =~= s@.subrange(0, i as int));
            assert(s@.subrange(0, i + 1).last() == s@[i as int]);
        }
        if c != '\u{200B}' {
            let piece = s.substring_char(i, i + 1);
            out.append(piece);
            proof {
                assert(out@ =~= strip_zwsp(s@.subrange(0, i + 1)));
            }
        }
        i = i + 1;
    }
    proof {
        assert(s@.subrange(0, n as int) =~= s@);
    }
    out
}

// ---------------------------------------------------------------------
// The public extraction methods
// ---------------------------------------------------------------------

impl BodyElement {
    /// The plain text of this subtree.
    pub fn text(&self) -> (r: String)
        ensures
            r@ == plain_text(*self),
    {
        let mut out = String::new();
        append_plain(&mut out, self);
        out
    }

    /// The diagnostic markup text of this subtree.
    pub fn text_markup(&self) -> (r: String)
        ensures
            r@ == markup_text(*self),
    {
        let mut out = String::new();
        append_markup(&mut out, self);
        out
    }
}

impl Paragraph {
    /// The plain text of the paragraph's content: text runs concatenated,
    /// breaks as newlines, spans and containers flattened in order.
    ///
    /// Zero-width spaces are kept; [`Paragraph::text_no_zwsp`] drops them.
    pub fn text(&self) -> (r: String)
        ensures
            r@ == plain_text_seq(self.inner@),
    {
        let mut out = String::new();
        append_plain_seq(&mut out, &self.inner);
        out
    }

    /// The diagnostic markup text of the paragraph's content.
    pub fn text_markup(&self) -> (r: String)
        ensures
            r@ == markup_text_seq(self.inner@),
    {
        let mut out = String::new();
        append_markup_seq(&mut out, &self.inner);
        out
    }

    /// The plain text of the paragraph with every zero-width space
    /// removed.
    pub fn text_no_zwsp(&self) -> (r: String)
        ensures
            r@ == strip_zwsp(plain_text_seq(self.inner@)),
    {
        let t = self.text();
        strip_zwsp_str(t.as_str())
    }
}

/// The joined plain text of the top-level elements: one blank line
/// between successive blocks.
pub open spec fn body_joined(s: Seq<BodyElement>) -> Seq<char>
    decreases s.len(),
{
    if s.len() == 0 {
        Seq::<char>::empty()
    } else if s.len() == 1 {
        plain_text(s[0])
    } else {
        body_joined(s.drop_last()) + seq!['\n', '\n'] + plain_text(s.last())
    }
}

/// The plain text of a whole body: blocks joined by a blank line, with
/// leading and trailing whitespace trimmed.
pub open spec fn body_text(b: Body) -> Seq<char> {
    trim(body_joined(b.elements@))
}

impl Body {
    /// The plain text of the whole body: the top-level blocks' texts
    /// joined by one blank line, trimmed of surrounding whitespace.
    pub fn text(&self) -> (r: String)
        ensures
            r@ == body_text(*self),
    {
        let n = self.elements.len();
        let mut out = String::new();
        let mut i: usize = 0;
        while i < n
            invariant
                0 <= i <= n,
                n == self.elements@.len(),
                out@ == body_joined(self.elements@.subrange(0, i as int)),
            decreases n - i,
        {
            if i > 0 {
                proof {
                    reveal_strlit("\n\n");
                }
                out.append("\n\n");
            }
            append_plain(&mut out, &self.elements[i]);
            proof {
                let t = self.elements@.subrange(0, i + 1);
                assert(t.drop_last() =~= self.elements@.subrange(0, i as int));
                assert(t.last() == self.elements@[i as int]);
                assert(out@ =~= body_joined(t));
            }
            i = i + 1;
        }
        proof {
            assert(self.elements@.subrange(0, n as int) =~= self.elements@);
        }
        trim_str(out.as_str())
    }
}

} // verus!
