//! The XML surface: a generic element tree, and a parser from text.
//!
//! The grammar is the subset of XML the dialect uses: elements with
//! double- or single-quoted attributes, character data with the five
//! standard entities, comments, and an optional leading declaration.
//! Anything else is malformed. The parser is a recursive descent over
//! character positions; recursion is depth-capped so that nesting depth,
//! which the producer controls, cannot exhaust the stack.

use vstd::prelude::*;
use vstd::string::*;
use crate::model::DecodeError;
use crate::text::is_space;

verus! {

broadcast use
    vstd::seq::group_seq_axioms,
    vstd::std_specs::vec::axiom_vec_index_decreases,
    vstd::std_specs::vec::axiom_vec_decreases_to_view;

/// One attribute of an element: a name and its decoded value.
#[derive(Debug, PartialEq, Eq)]
pub struct XmlAttr {
    pub name: String,
    pub value: String,
}

/// One element: its tag name, attributes in document order, and mixed
/// children in document order.
#[derive(Debug, PartialEq, Eq)]
pub struct XmlElement {
    pub name: String,
    pub attrs: Vec<XmlAttr>,
    pub children: Vec<XmlNode>,
}

/// One node of mixed content: a character-data run or a child element.
#[derive(Debug, PartialEq, Eq)]
pub enum XmlNode {
    Text(String),
    Element(XmlElement),
}

/// The nesting depth beyond which the parser refuses further recursion.
pub const DEPTH_LIMIT: u32 = 500;

// ---------------------------------------------------------------------
// Mathematical views of the tree
// ---------------------------------------------------------------------

/// The mathematical value of an element: its name, its attributes as
/// (name, value) pairs, and its children.
pub struct XmlElementV {
    pub name: Seq<char>,
    pub attrs: Seq<(Seq<char>, Seq<char>)>,
    pub children: Seq<XmlNodeV>,
}

/// The mathematical value of a mixed-content node.
pub enum XmlNodeV {
    Text(Seq<char>),
    Element(XmlElementV),
}

/// The (name, value) views of an attribute list.
pub open spec fn attrs_pairs(a: Seq<XmlAttr>) -> Seq<(Seq<char>, Seq<char>)> {
    Seq::new(a.len(), |i: int| (a[i].name@, a[i].value@))
}

impl XmlElement {
    /// The mathematical value of this element.
    pub open spec fn dview(self) -> XmlElementV
        decreases self,
    {
        XmlElementV {
            name: self.name@,
            attrs: attrs_pairs(self.attrs@),
            children: nodes_dview(self.children@),
        }
    }
}

impl XmlNode {
    /// The mathematical value of this node.
    pub open spec fn dview(self) -> XmlNodeV
        decreases self,
    {
        match self {
            XmlNode::Text(t) => XmlNodeV::Text(t@),
            XmlNode::Element(e) => XmlNodeV::Element(e.dview()),
        }
    }
}

/// The mathematical value of a sequence of nodes.
pub open spec fn nodes_dview(s: Seq<XmlNode>) -> Seq<XmlNodeV>
    decreases s,
{
    if s.len() == 0 {
        Seq::<XmlNodeV>::empty()
    } else {
        nodes_dview(s.drop_last()).push(s.last().dview())
    }
}

/// The element-wise reading of [`nodes_dview`].
pub proof fn lemma_nodes_dview(s: Seq<XmlNode>)
    ensures
        nodes_dview(s).len() == s.len(),
        forall|i: int| 0 <= i < s.len() ==> nodes_dview(s)[i] == (#[trigger] s[i]).dview(),
    decreases s,
{
    if s.len() > 0 {
        lemma_nodes_dview(s.drop_last());
        assert forall|i: int| 0 <= i < s.len() implies nodes_dview(s)[i] == (#[trigger] s[i]).dview() by {
            if i < s.len() - 1 {
                assert(s.drop_last()[i] == s[i]);
                assert(nodes_dview(s)[i] == nodes_dview(s.drop_last())[i]);
            } else {
                assert(nodes_dview(s)[i] == s.last().dview());
            }
        }
    }
}

// ---------------------------------------------------------------------
// The grammar, as spec functions over character positions
//
// Each mirrors its exec counterpart exactly; the exec parser's
// contracts are stated against these. The recursions step through
// [`advance`] and [`clamp_pos`], which keep them well-founded without
// appeal to bounds lemmas: a parse step always moves forward and never
// past the end, so in every reachable case both are the identity.
// ---------------------------------------------------------------------

/// `v` where `lo <= v <= s.len()`, else `lo`.
pub open spec fn clamp_pos(s: Seq<char>, lo: int, v: int) -> int {
    if lo <= v <= s.len() {
        v
    } else {
        lo
    }
}

/// `v` where `lo < v <= s.len()`, else `lo + 1`.
pub open spec fn advance(s: Seq<char>, lo: int, v: int) -> int {
    if lo < v <= s.len() {
        v
    } else {
        lo + 1
    }
}

/// The entity at `pos` (which holds `&`): the decoded character and the
/// position after the `;`.
pub open spec fn entity_at(s: Seq<char>, pos: int) -> Option<(Seq<char>, int)> {
    if s.len() - pos >= 4 && s[pos + 1] == 'l' && s[pos + 2] == 't' && s[pos + 3] == ';' {
        Some((seq!['<'], pos + 4))
    } else if s.len() - pos >= 4 && s[pos + 1] == 'g' && s[pos + 2] == 't' && s[pos + 3] == ';' {
        Some((seq!['>'], pos + 4))
    } else if s.len() - pos >= 5 && s[pos + 1] == 'a' && s[pos + 2] == 'm' && s[pos + 3] == 'p'
        && s[pos + 4] == ';' {
        Some((seq!['&'], pos + 5))
    } else if s.len() - pos >= 6 && s[pos + 1] == 'q' && s[pos + 2] == 'u' && s[pos + 3] == 'o'
        && s[pos + 4] == 't' && s[pos + 5] == ';' {
        Some((seq!['"'], pos + 6))
    } else if s.len() - pos >= 6 && s[pos + 1] == 'a' && s[pos + 2] == 'p' && s[pos + 3] == 'o'
        && s[pos + 4] == 's' && s[pos + 5] == ';' {
        Some((seq!['\''], pos + 6))
    } else {
        None
    }
}

/// The character-data run from `cur` to the next `<` or the end of
/// input, entities decoded, with the position after it.
pub open spec fn text_chars(s: Seq<char>, cur: int) -> Result<(Seq<char>, int), DecodeError>
    decreases s.len() - cur,
    when 0 <= cur <= s.len()
{
    if cur >= s.len() || s[cur] == '<' {
        Ok((Seq::<char>::empty(), cur))
    } else if s[cur] == '&' {
        match entity_at(s, cur) {
            None => Err(DecodeError::MalformedMarkup),
            Some((t, end)) => match text_chars(s, advance(s, cur, end)) {
                Err(e) => Err(e),
                Ok((rest, fin)) => Ok((t + rest, fin)),
            },
        }
    } else {
        match text_chars(s, cur + 1) {
            Err(e) => Err(e),
            Ok((rest, fin)) => Ok((seq![s[cur]] + rest, fin)),
        }
    }
}

/// The quoted value from `cur` to the closing quote `q`, entities
/// decoded, with the position after the quote.
pub open spec fn quoted_chars(s: Seq<char>, cur: int, q: char) -> Result<
    (Seq<char>, int),
    DecodeError,
>
    decreases s.len() - cur,
    when 0 <= cur <= s.len()
{
    if cur >= s.len() {
        Err(DecodeError::MalformedMarkup)
    } else if s[cur] == q {
        Ok((Seq::<char>::empty(), cur + 1))
    } else if s[cur] == '<' {
        Err(DecodeError::MalformedMarkup)
    } else if s[cur] == '&' {
        match entity_at(s, cur) {
            None => Err(DecodeError::MalformedMarkup),
            Some((t, end)) => match quoted_chars(s, advance(s, cur, end), q) {
                Err(e) => Err(e),
                Ok((rest, fin)) => Ok((t + rest, fin)),
            },
        }
    } else {
        match quoted_chars(s, cur + 1, q) {
            Err(e) => Err(e),
            Ok((rest, fin)) => Ok((seq![s[cur]] + rest, fin)),
        }
    }
}

/// The position after the first `-->` at or after `cur`, if any.
pub open spec fn comment_close(s: Seq<char>, cur: int) -> Option<int>
    decreases s.len() - cur,
    when 0 <= cur <= s.len()
{
    if s.len() - cur >= 3 {
        if s[cur] == '-' && s[cur + 1] == '-' && s[cur + 2] == '>' {
            Some(cur + 3)
        } else {
            comment_close(s, cur + 1)
        }
    } else {
        None
    }
}

/// The position after the comment whose `<!--` stands at `pos`.
pub open spec fn comment_end_at(s: Seq<char>, pos: int) -> Option<int> {
    if s.len() - pos >= 4 && s[pos] == '<' && s[pos + 1] == '!' && s[pos + 2] == '-' && s[pos + 3]
        == '-' {
        comment_close(s, clamp_pos(s, pos + 4, pos + 4))
    } else {
        None
    }
}

/// The position after the first `?>` at or after `cur`, if any.
pub open spec fn instr_close(s: Seq<char>, cur: int) -> Option<int>
    decreases s.len() - cur,
    when 0 <= cur <= s.len()
{
    if s.len() - cur >= 2 {
        if s[cur] == '?' && s[cur + 1] == '>' {
            Some(cur + 2)
        } else {
            instr_close(s, cur + 1)
        }
    } else {
        None
    }
}

/// The position after the processing instruction whose `<?` stands at
/// `pos`.
pub open spec fn instr_end_at(s: Seq<char>, pos: int) -> Option<int> {
    if s.len() - pos >= 2 && s[pos] == '<' && s[pos + 1] == '?' {
        instr_close(s, clamp_pos(s, pos + 2, pos + 2))
    } else {
        None
    }
}

/// The position after the whitespace, comments and processing
/// instructions starting at `pos`, or the failure where one of them
/// never closes.
pub open spec fn misc_end(s: Seq<char>, pos: int) -> Result<int, DecodeError>
    decreases s.len() - pos,
    when 0 <= pos <= s.len()
{
    let cur = clamp_pos(s, pos, ws_end(s, pos));
    if cur < s.len() && s.len() - cur >= 2 && s[cur] == '<' && (s[cur + 1] == '?' || s[cur + 1]
        == '!') {
        let stepped = if s[cur + 1] == '?' {
            instr_end_at(s, cur)
        } else {
            comment_end_at(s, cur)
        };
        match stepped {
            None => Err(DecodeError::MalformedMarkup),
            Some(end) => misc_end(s, advance(s, pos, end)),
        }
    } else {
        Ok(cur)
    }
}

/// The attributes from `pos` up to the `>` or `/>` that ends the open
/// tag: the pairs in order, whether the tag was self-closing, and the
/// position after it.
pub open spec fn attrs_at(s: Seq<char>, pos: int) -> Result<
    (Seq<(Seq<char>, Seq<char>)>, bool, int),
    DecodeError,
>
    decreases s.len() - pos,
    when 0 <= pos <= s.len()
{
    let cur = clamp_pos(s, pos, ws_end(s, pos));
    if cur >= s.len() {
        Err(DecodeError::MalformedMarkup)
    } else if s[cur] == '/' {
        if cur + 1 < s.len() && s[cur + 1] == '>' {
            Ok((Seq::<(Seq<char>, Seq<char>)>::empty(), true, cur + 2))
        } else {
            Err(DecodeError::MalformedMarkup)
        }
    } else if s[cur] == '>' {
        Ok((Seq::<(Seq<char>, Seq<char>)>::empty(), false, cur + 1))
    } else if !is_name_start(s[cur]) {
        Err(DecodeError::MalformedMarkup)
    } else {
        let ne = clamp_pos(s, cur, name_end(s, cur));
        let an = s.subrange(cur, ne);
        let at = clamp_pos(s, ne, ws_end(s, ne));
        if at >= s.len() || s[at] != '=' {
            Err(DecodeError::MalformedMarkup)
        } else {
            let at2 = clamp_pos(s, at + 1, ws_end(s, at + 1));
            if at2 >= s.len() {
                Err(DecodeError::MalformedMarkup)
            } else {
                let q = s[at2];
                if q != '"' && q != '\'' {
                    Err(DecodeError::MalformedMarkup)
                } else {
                    match quoted_chars(s, clamp_pos(s, at2, at2 + 1), q) {
                        Err(e) => Err(e),
                        Ok((v, av)) => match attrs_at(s, advance(s, pos, av)) {
                            Err(e) => Err(e),
                            Ok((rest, sc, end)) => Ok((seq![(an, v)] + rest, sc, end)),
                        },
                    }
                }
            }
        }
    }
}

/// The element whose `<` stands at `pos`, with the position after its
/// closing tag. `depth` bounds further nesting.
pub open spec fn element_at(s: Seq<char>, pos: int, depth: int) -> Result<
    (XmlElementV, int),
    DecodeError,
>
    decreases s.len() - pos, 0int,
    when 0 <= pos <= s.len()
{
    if pos >= s.len() || s[pos] != '<' {
        Err(DecodeError::MalformedMarkup)
    } else if pos + 1 >= s.len() || !is_name_start(s[pos + 1]) {
        Err(DecodeError::MalformedMarkup)
    } else {
        let ne = clamp_pos(s, pos + 1, name_end(s, pos + 1));
        let nm = s.subrange(pos + 1, ne);
        match attrs_at(s, ne) {
            Err(e) => Err(e),
            Ok((attrs, sc, tag_end)) => if sc {
                Ok((XmlElementV { name: nm, attrs, children: Seq::<XmlNodeV>::empty() }, tag_end))
            } else {
                match content_at(s, advance(s, pos, tag_end), nm, depth) {
                    Err(e) => Err(e),
                    Ok((children, end)) => Ok((XmlElementV { name: nm, attrs, children }, end)),
                }
            },
        }
    }
}

/// The mixed content from `pos` up to the closing tag of the enclosing
/// element named `name`, with the position after that closing tag.
pub open spec fn content_at(s: Seq<char>, pos: int, name: Seq<char>, depth: int) -> Result<
    (Seq<XmlNodeV>, int),
    DecodeError,
>
    decreases s.len() - pos, 1int,
    when 0 <= pos <= s.len()
{
    if pos >= s.len() {
        Err(DecodeError::MalformedMarkup)
    } else if s[pos] == '<' {
        if pos + 1 < s.len() && s[pos + 1] == '/' {
            if pos + 2 >= s.len() || !is_name_start(s[pos + 2]) {
                Err(DecodeError::MalformedMarkup)
            } else {
                let ne = clamp_pos(s, pos + 2, name_end(s, pos + 2));
                let cn = s.subrange(pos + 2, ne);
                if cn != name {
                    Err(DecodeError::MalformedMarkup)
                } else {
                    let end = clamp_pos(s, ne, ws_end(s, ne));
                    if end < s.len() && s[end] == '>' {
                        Ok((Seq::<XmlNodeV>::empty(), end + 1))
                    } else {
                        Err(DecodeError::MalformedMarkup)
                    }
                }
            }
        } else if pos + 1 < s.len() && s[pos + 1] == '!' {
            match comment_end_at(s, pos) {
                None => Err(DecodeError::MalformedMarkup),
                Some(end) => content_at(s, advance(s, pos, end), name, depth),
            }
        } else if depth <= 0 {
            Err(DecodeError::MalformedMarkup)
        } else {
            match element_at(s, pos, depth - 1) {
                Err(e) => Err(e),
                Ok((child, end)) => match content_at(s, advance(s, pos, end), name, depth) {
                    Err(e) => Err(e),
                    Ok((rest, fin)) => Ok((seq![XmlNodeV::Element(child)] + rest, fin)),
                },
            }
        }
    } else {
        match text_chars(s, pos) {
            Err(e) => Err(e),
            Ok((txt, end)) => match content_at(s, advance(s, pos, end), name, depth) {
                Err(e) => Err(e),
                Ok((rest, fin)) => Ok((seq![XmlNodeV::Text(txt)] + rest, fin)),
            },
        }
    }
}

/// What a whole document parses to: an optional byte-order mark,
/// whitespace, comments and a declaration, one root element, and
/// nothing but whitespace and comments after it.
pub open spec fn document_at(s: Seq<char>) -> Result<XmlElementV, DecodeError> {
    let start: int = if s.len() > 0 && s[0] == '\u{FEFF}' {
        1
    } else {
        0
    };
    match misc_end(s, start) {
        Err(e) => Err(e),
        Ok(cur) => match element_at(s, clamp_pos(s, 0, cur), DEPTH_LIMIT as int) {
            Err(e) => Err(e),
            Ok((root, after)) => match misc_end(s, clamp_pos(s, 0, after)) {
                Err(e) => Err(e),
                Ok(end) => if end != s.len() {
                    Err(DecodeError::MalformedMarkup)
                } else {
                    Ok(root)
                },
            },
        },
    }
}


/// Position after a run of whitespace starting at `pos`.
pub open spec fn ws_end(s: Seq<char>, pos: int) -> int
    decreases s.len() - pos,
{
    if pos < s.len() && is_space(s[pos]) {
        ws_end(s, pos + 1)
    } else {
        pos
    }
}

/// Skip whitespace.
fn skip_ws(s: &str, pos: usize) -> (r: usize)
    requires
        pos <= s@.len(),
    ensures
        pos <= r <= s@.len(),
        r == ws_end(s@, pos as int),
{
    let n = s.unicode_len();
    let mut cur = pos;
    while cur < n && is_space_at(s, cur)
        invariant
            pos <= cur <= n,
            n == s@.len(),
            ws_end(s@, pos as int) == ws_end(s@, cur as int),
        decreases n - cur,
    {
        cur = cur + 1;
    }
    cur
}

/// Whether the character at `pos` is whitespace.
fn is_space_at(s: &str, pos: usize) -> (r: bool)
    requires
        pos < s@.len(),
    ensures
        r == is_space(s@[pos as int]),
{
    let c = s.get_char(pos);
    c == ' ' || c == '\t' || c == '\n' || c == '\r'
}

/// May `c` start a tag or attribute name?
pub open spec fn is_name_start(c: char) -> bool {
    (65 <= c as u32 <= 90) || (97 <= c as u32 <= 122) || c == '_' || c == ':'
}

/// May `c` continue a tag or attribute name?
pub open spec fn is_name_char(c: char) -> bool {
    is_name_start(c) || (48 <= c as u32 <= 57) || c == '-' || c == '.'
}

/// Position after the run of name characters starting at `pos`.
pub open spec fn name_end(s: Seq<char>, pos: int) -> int
    decreases s.len() - pos,
{
    if pos < s.len() && is_name_char(s[pos]) {
        name_end(s, pos + 1)
    } else {
        pos
    }
}

/// Whether the character at `pos` continues a name.
fn is_name_char_at(s: &str, pos: usize) -> (r: bool)
    requires
        pos < s@.len(),
    ensures
        r == is_name_char(s@[pos as int]),
{
    let c = s.get_char(pos);
    let u = c as u32;
    (65 <= u && u <= 90) || (97 <= u && u <= 122) || c == '_' || c == ':' || (48 <= u && u <= 57)
        || c == '-' || c == '.'
}

/// Parse a tag or attribute name at `pos`: its text and the position
/// after it, or `None` where no name starts there.
fn parse_name(s: &str, pos: usize) -> (r: Option<(String, usize)>)
    requires
        pos <= s@.len(),
    ensures
        match r {
            Some((nm, end)) => {
                &&& pos < end <= s@.len()
                &&& end == name_end(s@, pos as int)
                &&& nm@ == s@.subrange(pos as int, end as int)
                &&& is_name_start(s@[pos as int])
            },
            None => pos == s@.len() || !is_name_start(s@[pos as int]),
        },
{
    let n = s.unicode_len();
    if pos >= n {
        return None;
    }
    let c = s.get_char(pos);
    let u = c as u32;
    if !((65 <= u && u <= 90) || (97 <= u && u <= 122) || c == '_' || c == ':') {
        return None;
    }
    let mut end = pos + 1;
    proof {
        assert(is_name_char(s@[pos as int]));
    }
    while end < n && is_name_char_at(s, end)
        invariant
            pos < end <= n,
            n == s@.len(),
            name_end(s@, pos as int) == name_end(s@, end as int),
        decreases n - end,
    {
        end = end + 1;
    }
    let nm = s.substring_char(pos, end).to_owned();
    Some((nm, end))
}

/// Decode the entity starting at `pos` (which holds `&`): the decoded
/// character as a one-character string, and the position after the `;`.
fn parse_entity(s: &str, pos: usize) -> (r: Option<(&'static str, usize)>)
    requires
        pos <= s@.len(),
    ensures
        match r {
            Some((t, end)) => pos < end <= s@.len() && t@.len() == 1 && entity_at(
                s@,
                pos as int,
            ) == Some((t@, end as int)),
            None => entity_at(s@, pos as int) is None,
        },
{
    proof {
        reveal_strlit("&");
        reveal_strlit("<");
        reveal_strlit(">");
        reveal_strlit("\"");
        reveal_strlit("'");
    }
    let n = s.unicode_len();
    // The longest entity, "&quot;", spans six characters.
    if n - pos >= 4 && s.get_char(pos + 1) == 'l' && s.get_char(pos + 2) == 't' && s.get_char(
        pos + 3,
    ) == ';' {
        proof {
            assert("<"@ =~= seq!['<']);
        }
        Some(("<", pos + 4))
    } else if n - pos >= 4 && s.get_char(pos + 1) == 'g' && s.get_char(pos + 2) == 't'
        && s.get_char(pos + 3) == ';' {
        proof {
            assert(">"@ =~= seq!['>']);
        }
        Some((">", pos + 4))
    } else if n - pos >= 5 && s.get_char(pos + 1) == 'a' && s.get_char(pos + 2) == 'm'
        && s.get_char(pos + 3) == 'p' && s.get_char(pos + 4) == ';' {
        proof {
            assert("&"@ =~= seq!['&']);
        }
        Some(("&", pos + 5))
    } else if n - pos >= 6 && s.get_char(pos + 1) == 'q' && s.get_char(pos + 2) == 'u'
        && s.get_char(pos + 3) == 'o' && s.get_char(pos + 4) == 't' && s.get_char(pos + 5) == ';' {
        proof {
            assert("\""@ =~= seq!['"']);
        }
        Some(("\"", pos + 6))
    } else if n - pos >= 6 && s.get_char(pos + 1) == 'a' && s.get_char(pos + 2) == 'p'
        && s.get_char(pos + 3) == 'o' && s.get_char(pos + 4) == 's' && s.get_char(pos + 5) == ';' {
        proof {
            assert("'"@ =~= seq!['\'']);
        }
        Some(("'", pos + 6))
    } else {
        None
    }
}

/// Parse a run of character data starting at `pos` and ending at the
/// next `<` or at the end of input, decoding entities.
fn parse_text(s: &str, pos: usize) -> (r: Result<(String, usize), DecodeError>)
    requires
        pos < s@.len(),
        s@[pos as int] != '<',
    ensures
        match r {
            Ok((t, end)) => pos < end <= s@.len() && text_chars(s@, pos as int) == Ok::<
                (Seq<char>, int),
                DecodeError,
            >((t@, end as int)),
            Err(e) => text_chars(s@, pos as int) == Err::<(Seq<char>, int), DecodeError>(e),
        },
{
    let n = s.unicode_len();
    let mut out = String::new();
    let mut cur = pos;
    let mut run = pos;
    while cur < n && s.get_char(cur) != '<'
        invariant
            pos <= run <= cur <= n,
            n == s@.len(),
            pos < n,
            s@[pos as int] != '<',
            cur == pos ==> run == pos && out@ =~= Seq::<char>::empty(),
            match text_chars(s@, cur as int) {
                Ok((rest, fin)) => text_chars(s@, pos as int) == Ok::<
                    (Seq<char>, int),
                    DecodeError,
                >((out@ + s@.subrange(run as int, cur as int) + rest, fin)),
                Err(e) => text_chars(s@, pos as int) == Err::<(Seq<char>, int), DecodeError>(e),
            },
        decreases n - cur,
    {
        if s.get_char(cur) == '&' {
            let ghost pre = out@;
            out.append(s.substring_char(run, cur));
            match parse_entity(s, cur) {
                Some((t, end)) => {
                    proof {
                        assert(advance(s@, cur as int, end as int) == end as int);
                        match text_chars(s@, end as int) {
                            Ok((rest2, fin)) => {
                                assert(pre + s@.subrange(run as int, cur as int) + (t@ + rest2)
                                    =~= (pre + s@.subrange(run as int, cur as int) + t@)
                                    + s@.subrange(end as int, end as int) + rest2);
                            },
                            Err(_) => {
                            },
                        }
                    }
                    out.append(t);
                    cur = end;
                    run = end;
                },
                None => {
                    return Err(DecodeError::MalformedMarkup);
                },
            }
        } else {
            proof {
                match text_chars(s@, cur + 1) {
                    Ok((rest2, fin)) => {
                        assert(out@ + s@.subrange(run as int, cur as int) + (seq![s@[cur as int]]
                            + rest2) =~= out@ + s@.subrange(run as int, cur + 1) + rest2);
                    },
                    Err(_) => {
                    },
                }
            }
            cur = cur + 1;
        }
    }
    proof {
        assert(cur > pos);
        assert(text_chars(s@, cur as int) == Ok::<(Seq<char>, int), DecodeError>((
            Seq::<char>::empty(),
            cur as int,
        )));
    }
    let ghost pre = out@;
    out.append(s.substring_char(run, cur));
    proof {
        assert(out@ =~= pre + s@.subrange(run as int, cur as int) + Seq::<char>::empty());
    }
    Ok((out, cur))
}

/// Parse a quoted attribute value whose opening quote `q` stands at
/// `pos`: the decoded value and the position after the closing quote.
fn parse_quoted(s: &str, pos: usize, q: char) -> (r: Result<(String, usize), DecodeError>)
    requires
        pos < s@.len(),
    ensures
        match r {
            Ok((v, end)) => pos < end <= s@.len() && quoted_chars(s@, pos + 1, q) == Ok::<
                (Seq<char>, int),
                DecodeError,
            >((v@, end as int)),
            Err(e) => quoted_chars(s@, pos + 1, q) == Err::<(Seq<char>, int), DecodeError>(e),
        },
{
    let n = s.unicode_len();
    let mut out = String::new();
    let mut cur = pos + 1;
    let mut run = cur;
    while cur < n && s.get_char(cur) != q
        invariant
            pos < run <= cur <= n,
            n == s@.len(),
            match quoted_chars(s@, cur as int, q) {
                Ok((rest, fin)) => quoted_chars(s@, pos + 1, q) == Ok::<
                    (Seq<char>, int),
                    DecodeError,
                >((out@ + s@.subrange(run as int, cur as int) + rest, fin)),
                Err(e) => quoted_chars(s@, pos + 1, q) == Err::<(Seq<char>, int), DecodeError>(
                    e,
                ),
            },
        decreases n - cur,
    {
        let c = s.get_char(cur);
        if c == '<' {
            // A raw `<` may not stand in an attribute value.
            return Err(DecodeError::MalformedMarkup);
        }
        if c == '&' {
            let ghost pre = out@;
            out.append(s.substring_char(run, cur));
            match parse_entity(s, cur) {
                Some((t, end)) => {
                    proof {
                        assert(advance(s@, cur as int, end as int) == end as int);
                        match quoted_chars(s@, end as int, q) {
                            Ok((rest2, fin)) => {
                                assert(pre + s@.subrange(run as int, cur as int) + (t@ + rest2)
                                    =~= (pre + s@.subrange(run as int, cur as int) + t@)
                                    + s@.subrange(end as int, end as int) + rest2);
                            },
                            Err(_) => {
                            },
                        }
                    }
                    out.append(t);
                    cur = end;
                    run = end;
                },
                None => {
                    return Err(DecodeError::MalformedMarkup);
                },
            }
        } else {
            proof {
                match quoted_chars(s@, cur + 1, q) {
                    Ok((rest2, fin)) => {
                        assert(out@ + s@.subrange(run as int, cur as int) + (seq![s@[cur as int]]
                            + rest2) =~= out@ + s@.subrange(run as int, cur + 1) + rest2);
                    },
                    Err(_) => {
                    },
                }
            }
            cur = cur + 1;
        }
    }
    if cur >= n {
        // The closing quote is missing.
        return Err(DecodeError::MalformedMarkup);
    }
    proof {
        assert(quoted_chars(s@, cur as int, q) == Ok::<(Seq<char>, int), DecodeError>((
            Seq::<char>::empty(),
            cur + 1,
        )));
    }
    let ghost pre = out@;
    out.append(s.substring_char(run, cur));
    proof {
        assert(out@ =~= pre + s@.subrange(run as int, cur as int) + Seq::<char>::empty());
    }
    Ok((out, cur + 1))
}

/// Position after the comment whose `<!--` stands at `pos`, or `None`
/// where no comment starts there or it never closes.
fn skip_comment(s: &str, pos: usize) -> (r: Option<usize>)
    requires
        pos <= s@.len(),
    ensures
        match r {
            Some(end) => pos < end <= s@.len() && comment_end_at(s@, pos as int) == Some(
                end as int,
            ),
            None => comment_end_at(s@, pos as int) is None,
        },
{
    let n = s.unicode_len();
    if n - pos < 4 {
        return None;
    }
    if !(s.get_char(pos) == '<' && s.get_char(pos + 1) == '!' && s.get_char(pos + 2) == '-'
        && s.get_char(pos + 3) == '-') {
        return None;
    }
    let mut cur = pos + 4;
    proof {
        assert(clamp_pos(s@, pos + 4, pos + 4) == pos + 4);
    }
    while n - cur >= 3
        invariant
            pos + 4 <= cur <= n,
            n == s@.len(),
            s@[pos as int] == '<',
            s@[pos + 1] == '!',
            s@[pos + 2] == '-',
            s@[pos + 3] == '-',
            comment_close(s@, pos + 4) == comment_close(s@, cur as int),
        decreases n - cur,
    {
        if s.get_char(cur) == '-' && s.get_char(cur + 1) == '-' && s.get_char(cur + 2) == '>' {
            return Some(cur + 3);
        }
        cur = cur + 1;
    }
    None
}

/// Position after the processing instruction or declaration whose `<?`
/// stands at `pos`, or `None` where none starts there or it never
/// closes.
fn skip_instruction(s: &str, pos: usize) -> (r: Option<usize>)
    requires
        pos <= s@.len(),
    ensures
        match r {
            Some(end) => pos < end <= s@.len() && instr_end_at(s@, pos as int) == Some(
                end as int,
            ),
            None => instr_end_at(s@, pos as int) is None,
        },
{
    let n = s.unicode_len();
    if n - pos < 2 {
        return None;
    }
    if !(s.get_char(pos) == '<' && s.get_char(pos + 1) == '?') {
        return None;
    }
    let mut cur = pos + 2;
    proof {
        assert(clamp_pos(s@, pos + 2, pos + 2) == pos + 2);
    }
    while n - cur >= 2
        invariant
            pos + 2 <= cur <= n,
            n == s@.len(),
            s@[pos as int] == '<',
            s@[pos + 1] == '?',
            instr_close(s@, pos + 2) == instr_close(s@, cur as int),
        decreases n - cur,
    {
        if s.get_char(cur) == '?' && s.get_char(cur + 1) == '>' {
            return Some(cur + 2);
        }
        cur = cur + 1;
    }
    None
}

/// Skip whitespace, comments and processing instructions, as allowed
/// before and after the root element.
fn skip_misc(s: &str, pos: usize) -> (r: Result<usize, DecodeError>)
    requires
        pos <= s@.len(),
    ensures
        match r {
            Ok(end) => pos <= end <= s@.len() && misc_end(s@, pos as int) == Ok::<
                int,
                DecodeError,
            >(end as int),
            Err(e) => misc_end(s@, pos as int) == Err::<int, DecodeError>(e),
        },
{
    let n = s.unicode_len();
    let mut cur = pos;
    loop
        invariant
            pos <= cur <= n,
            n == s@.len(),
            misc_end(s@, pos as int) == misc_end(s@, cur as int),
        decreases n - cur,
    {
        let c = skip_ws(s, cur);
        proof {
            assert(clamp_pos(s@, cur as int, ws_end(s@, cur as int)) == c as int);
        }
        if c < n && n - c >= 2 && s.get_char(c) == '<' && (s.get_char(c + 1) == '?' || s.get_char(
            c + 1,
        ) == '!') {
            let stepped = if s.get_char(c + 1) == '?' {
                skip_instruction(s, c)
            } else {
                skip_comment(s, c)
            };
            match stepped {
                Some(end) => {
                    proof {
                        assert(advance(s@, cur as int, end as int) == end as int);
                        assert(misc_end(s@, cur as int) == misc_end(s@, end as int));
                    }
                    cur = end;
                },
                None => {
                    return Err(DecodeError::MalformedMarkup);
                },
            }
        } else {
            proof {
                assert(misc_end(s@, cur as int) == Ok::<int, DecodeError>(c as int));
            }
            return Ok(c);
        }
    }
}

/// Pushing a node extends the sequence view by its view.
proof fn lemma_nodes_dview_push(v: Seq<XmlNode>, x: XmlNode)
    ensures
        nodes_dview(v.push(x)) == nodes_dview(v).push(x.dview()),
{
    assert(v.push(x).drop_last() =~= v);
    assert(v.push(x).last() == x);
}

/// Pushing an attribute extends the pair view by its pair.
proof fn lemma_attrs_pairs_push(v: Seq<XmlAttr>, x: XmlAttr)
    ensures
        attrs_pairs(v.push(x)) =~= attrs_pairs(v).push((x.name@, x.value@)),
{
}

/// Parse the element whose `<` stands at `pos`. `depth` bounds further
/// nesting; at zero the parser refuses rather than recurse on.
#[verifier::rlimit(100)]
fn parse_element(s: &str, pos: usize, depth: u32) -> (r: Result<(XmlElement, usize), DecodeError>)
    requires
        pos <= s@.len(),
    ensures
        match r {
            Ok((e, end)) => pos < end <= s@.len() && element_at(s@, pos as int, depth as int)
                == Ok::<(XmlElementV, int), DecodeError>((e.dview(), end as int)),
            Err(err) => element_at(s@, pos as int, depth as int) == Err::<
                (XmlElementV, int),
                DecodeError,
            >(err),
        },
    decreases s@.len() - pos, 1int,
{
    let n = s.unicode_len();
    if pos >= n || s.get_char(pos) != '<' {
        return Err(DecodeError::MalformedMarkup);
    }
    let (name, after_name) = match parse_name(s, pos + 1) {
        Some(v) => v,
        None => {
            return Err(DecodeError::MalformedMarkup);
        },
    };
    proof {
        assert(clamp_pos(s@, pos + 1, name_end(s@, pos + 1)) == after_name as int);
    }
    let mut attrs: Vec<XmlAttr> = Vec::new();
    let mut cur = after_name;
    // Attributes, then `>` or `/>`.
    loop
        invariant
            pos < after_name <= cur <= n,
            n == s@.len(),
            pos < n,
            s@[pos as int] == '<',
            pos + 1 < n,
            is_name_start(s@[pos + 1]),
            name_end(s@, pos + 1) == after_name as int,
            name@ == s@.subrange(pos + 1, after_name as int),
            match attrs_at(s@, cur as int) {
                Ok((rest, sc, end)) => attrs_at(s@, after_name as int) == Ok::<
                    (Seq<(Seq<char>, Seq<char>)>, bool, int),
                    DecodeError,
                >((attrs_pairs(attrs@) + rest, sc, end)),
                Err(e) => attrs_at(s@, after_name as int) == Err::<
                    (Seq<(Seq<char>, Seq<char>)>, bool, int),
                    DecodeError,
                >(e),
            },
        decreases n - cur,
    {
        let c0 = skip_ws(s, cur);
        proof {
            assert(clamp_pos(s@, cur as int, ws_end(s@, cur as int)) == c0 as int);
        }
        if c0 >= n {
            return Err(DecodeError::MalformedMarkup);
        }
        let c = s.get_char(c0);
        if c == '/' {
            if c0 + 1 < n && s.get_char(c0 + 1) == '>' {
                let e = XmlElement { name, attrs, children: Vec::new() };
                proof {
                    assert(attrs_at(s@, cur as int) == Ok::<
                        (Seq<(Seq<char>, Seq<char>)>, bool, int),
                        DecodeError,
                    >((Seq::empty(), true, c0 + 2)));
                    assert(attrs_pairs(e.attrs@) + Seq::<(Seq<char>, Seq<char>)>::empty()
                        =~= attrs_pairs(e.attrs@));
                    assert(nodes_dview(e.children@) =~= Seq::<XmlNodeV>::empty());
                }
                return Ok((e, c0 + 2));
            }
            return Err(DecodeError::MalformedMarkup);
        }
        if c == '>' {
            proof {
                assert(attrs_at(s@, cur as int) == Ok::<
                    (Seq<(Seq<char>, Seq<char>)>, bool, int),
                    DecodeError,
                >((Seq::empty(), false, c0 + 1)));
                assert(attrs_pairs(attrs@) + Seq::<(Seq<char>, Seq<char>)>::empty()
                    =~= attrs_pairs(attrs@));
            }
            return parse_content(s, pos, after_name, c0 + 1, name, attrs, depth);
        }
        let (attr_name, after_attr) = match parse_name(s, c0) {
            Some(v) => v,
            None => {
                return Err(DecodeError::MalformedMarkup);
            },
        };
        proof {
            assert(clamp_pos(s@, c0 as int, name_end(s@, c0 as int)) == after_attr as int);
        }
        let at = skip_ws(s, after_attr);
        proof {
            assert(clamp_pos(s@, after_attr as int, ws_end(s@, after_attr as int)) == at as int);
        }
        if at >= n || s.get_char(at) != '=' {
            return Err(DecodeError::MalformedMarkup);
        }
        let at2 = skip_ws(s, at + 1);
        proof {
            assert(clamp_pos(s@, at + 1, ws_end(s@, at + 1)) == at2 as int);
        }
        if at2 >= n {
            return Err(DecodeError::MalformedMarkup);
        }
        let q = s.get_char(at2);
        if q != '"' && q != '\'' {
            return Err(DecodeError::MalformedMarkup);
        }
        let (value, after_value) = match parse_quoted(s, at2, q) {
            Ok(v) => v,
            Err(e) => {
                proof {
                    assert(clamp_pos(s@, at2 as int, at2 + 1) == at2 + 1);
                }
                return Err(e);
            },
        };
        let ghost anv = attr_name@;
        let ghost vv = value@;
        let ghost old_attrs = attrs@;
        attrs.push(XmlAttr { name: attr_name, value });
        proof {
            assert(clamp_pos(s@, at2 as int, at2 + 1) == at2 + 1);
            assert(advance(s@, cur as int, after_value as int) == after_value as int);
            assert(attrs_pairs(attrs@) =~= attrs_pairs(old_attrs).push((anv, vv)));
            match attrs_at(s@, after_value as int) {
                Ok((rest2, sc, end)) => {
                    assert(attrs_pairs(old_attrs) + (seq![(anv, vv)] + rest2) =~= attrs_pairs(
                        attrs@,
                    ) + rest2);
                },
                Err(_) => {
                },
            }
        }
        cur = after_value;
    }
}

/// Parse the mixed content of the element named `name`, whose open tag
/// ended just before `cpos`, up to its matching closing tag.
#[verifier::rlimit(100)]
fn parse_content(
    s: &str,
    pos: usize,
    after_name: usize,
    cpos: usize,
    name: String,
    attrs: Vec<XmlAttr>,
    depth: u32,
) -> (r: Result<(XmlElement, usize), DecodeError>)
    requires
        pos < after_name <= cpos <= s@.len(),
        s@[pos as int] == '<',
        pos + 1 < s@.len(),
        is_name_start(s@[pos + 1]),
        name_end(s@, pos + 1) == after_name as int,
        name@ == s@.subrange(pos + 1, after_name as int),
        attrs_at(s@, after_name as int) == Ok::<
            (Seq<(Seq<char>, Seq<char>)>, bool, int),
            DecodeError,
        >((attrs_pairs(attrs@), false, cpos as int)),
    ensures
        match r {
            Ok((e, end)) => pos < end <= s@.len() && element_at(s@, pos as int, depth as int)
                == Ok::<(XmlElementV, int), DecodeError>((e.dview(), end as int)),
            Err(err) => element_at(s@, pos as int, depth as int) == Err::<
                (XmlElementV, int),
                DecodeError,
            >(err),
        },
    decreases s@.len() - pos, 0int,
{
    let n = s.unicode_len();
    let mut children: Vec<XmlNode> = Vec::new();
    let mut cur = cpos;
    loop
        invariant
            pos < after_name <= cpos <= cur <= n,
            n == s@.len(),
            pos < n,
            s@[pos as int] == '<',
            pos + 1 < n,
            is_name_start(s@[pos + 1]),
            name_end(s@, pos + 1) == after_name as int,
            name@ == s@.subrange(pos + 1, after_name as int),
            attrs_at(s@, after_name as int) == Ok::<
                (Seq<(Seq<char>, Seq<char>)>, bool, int),
                DecodeError,
            >((attrs_pairs(attrs@), false, cpos as int)),
            match content_at(s@, cur as int, name@, depth as int) {
                Ok((rest, end)) => content_at(s@, cpos as int, name@, depth as int) == Ok::<
                    (Seq<XmlNodeV>, int),
                    DecodeError,
                >((nodes_dview(children@) + rest, end)),
                Err(e) => content_at(s@, cpos as int, name@, depth as int) == Err::<
                    (Seq<XmlNodeV>, int),
                    DecodeError,
                >(e),
            },
        decreases n - cur,
    {
        proof {
            assert(advance(s@, pos as int, cpos as int) == cpos as int);
        }
        if cur >= n {
            // The closing tag is missing.
            return Err(DecodeError::MalformedMarkup);
        }
        let c = s.get_char(cur);
        if c == '<' {
            if cur + 1 < n && s.get_char(cur + 1) == '/' {
                let (close_name, after_close) = match parse_name(s, cur + 2) {
                    Some(v) => v,
                    None => {
                        return Err(DecodeError::MalformedMarkup);
                    },
                };
                proof {
                    assert(clamp_pos(s@, cur + 2, name_end(s@, cur + 2)) == after_close as int);
                }
                if !str_eq(close_name.as_str(), name.as_str()) {
                    return Err(DecodeError::MalformedMarkup);
                }
                let end = skip_ws(s, after_close);
                proof {
                    assert(clamp_pos(s@, after_close as int, ws_end(s@, after_close as int))
                        == end as int);
                }
                if end < n && s.get_char(end) == '>' {
                    proof {
                        assert(content_at(s@, cur as int, name@, depth as int) == Ok::<
                            (Seq<XmlNodeV>, int),
                            DecodeError,
                        >((Seq::empty(), end + 1)));
                        assert(nodes_dview(children@) + Seq::<XmlNodeV>::empty() =~= nodes_dview(
                            children@,
                        ));
                    }
                    let e = XmlElement { name, attrs, children };
                    return Ok((e, end + 1));
                }
                return Err(DecodeError::MalformedMarkup);
            }
            if cur + 1 < n && s.get_char(cur + 1) == '!' {
                match skip_comment(s, cur) {
                    Some(end) => {
                        proof {
                            assert(advance(s@, cur as int, end as int) == end as int);
                        }
                        cur = end;
                    },
                    None => {
                        return Err(DecodeError::MalformedMarkup);
                    },
                }
                continue;
            }
            if depth == 0 {
                // The nesting is deeper than the parser is willing to
                // follow.
                return Err(DecodeError::MalformedMarkup);
            }
            let (child, end) = match parse_element(s, cur, depth - 1) {
                Ok(v) => v,
                Err(e) => {
                    return Err(e);
                },
            };
            let ghost chv = child.dview();
            let ghost old_children = children@;
            children.push(XmlNode::Element(child));
            proof {
                assert(advance(s@, cur as int, end as int) == end as int);
                lemma_nodes_dview_push(old_children, children@.last());
                match content_at(s@, end as int, name@, depth as int) {
                    Ok((rest2, fin)) => {
                        assert(nodes_dview(old_children) + (seq![XmlNodeV::Element(chv)] + rest2)
                            =~= nodes_dview(children@) + rest2);
                    },
                    Err(_) => {
                    },
                }
            }
            cur = end;
        } else {
            let (txt, end) = match parse_text(s, cur) {
                Ok(v) => v,
                Err(e) => {
                    return Err(e);
                },
            };
            let ghost tv = txt@;
            let ghost old_children = children@;
            children.push(XmlNode::Text(txt));
            proof {
                assert(advance(s@, cur as int, end as int) == end as int);
                lemma_nodes_dview_push(old_children, children@.last());
                match content_at(s@, end as int, name@, depth as int) {
                    Ok((rest2, fin)) => {
                        assert(nodes_dview(old_children) + (seq![XmlNodeV::Text(tv)] + rest2)
                            =~= nodes_dview(children@) + rest2);
                    },
                    Err(_) => {
                    },
                }
            }
            cur = end;
        }
    }
}

/// Whether two strings hold the same characters.
pub fn str_eq(a: &str, b: &str) -> (r: bool)
    ensures
        r == (a@ == b@),
{
    let na = a.unicode_len();
    let nb = b.unicode_len();
    if na != nb {
        return false;
    }
    let mut i: usize = 0;
    while i < na
        invariant
            0 <= i <= na,
            na == a@.len(),
            na == b@.len(),
            forall|j: int| 0 <= j < i ==> a@[j] == b@[j],
        decreases na - i,
    {
        if s_get(a, i) != s_get(b, i) {
            return false;
        }
        i = i + 1;
    }
    proof {
        assert(a@ =~= b@);
    }
    true
}

/// The character of `s` at `i`.
fn s_get(s: &str, i: usize) -> (c: char)
    requires
        i < s@.len(),
    ensures
        c == s@[i as int],
{
    s.get_char(i)
}

/// Parse a whole document: optional leading byte-order mark, optional
/// declaration, comments and whitespace, one root element, and nothing
/// but whitespace and comments after it. The result is exactly the
/// reading of the input under [`document_at`].
pub fn parse_document(s: &str) -> (r: Result<XmlElement, DecodeError>)
    ensures
        match r {
            Ok(root) => document_at(s@) == Ok::<XmlElementV, DecodeError>(root.dview()),
            Err(e) => document_at(s@) == Err::<XmlElementV, DecodeError>(e),
        },
{
    let n = s.unicode_len();
    let start: usize = if n > 0 && s.get_char(0) == '\u{FEFF}' {
        1
    } else {
        0
    };
    let cur = match skip_misc(s, start) {
        Ok(v) => v,
        Err(e) => {
            return Err(e);
        },
    };
    proof {
        assert(clamp_pos(s@, 0, cur as int) == cur as int);
    }
    let (root, after) = match parse_element(s, cur, DEPTH_LIMIT) {
        Ok(v) => v,
        Err(e) => {
            return Err(e);
        },
    };
    proof {
        assert(clamp_pos(s@, 0, after as int) == after as int);
    }
    let end = match skip_misc(s, after) {
        Ok(v) => v,
        Err(e) => {
            return Err(e);
        },
    };
    if end != n {
        return Err(DecodeError::MalformedMarkup);
    }
    Ok(root)
}

} // verus!
