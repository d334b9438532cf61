//! Semantic diagnostics: dangling style references.
//!
//! The body refers to header records by numeric id only. A reference
//! with no matching record is tolerated by the decoder — real producers
//! emit such documents — and is surfaced here as a non-fatal note
//! instead: [`TimedText::dangling_references`] lists every unresolved
//! reference in document order.

use vstd::prelude::*;
use crate::model::{BodyElement, Head, TimedText};

verus! {

broadcast use
    vstd::seq::group_seq_axioms,
    vstd::std_specs::vec::axiom_vec_index_decreases,
    vstd::std_specs::vec::axiom_vec_decreases_to_view;

/// Which kind of header record a reference points at.
#[derive(Debug, Clone, Copy, PartialEq, Eq, Structural)]
pub enum RefKind {
    Pen,
    WindowPosition,
    WindowStyle,
}

/// One style reference from the body: its kind and the id referenced.
#[derive(Debug, Clone, Copy, PartialEq, Eq, Structural)]
pub struct StyleReference {
    pub kind: RefKind,
    pub id: u32,
}

/// Every style reference under one body element, in document order.
pub open spec fn elem_refs(e: BodyElement) -> Seq<StyleReference>
    decreases e,
{
    match e {
        BodyElement::Text(_) => Seq::<StyleReference>::empty(),
        BodyElement::Br(_) => Seq::<StyleReference>::empty(),
        BodyElement::Span(s) => (match s.pen {
            Some(id) => seq![StyleReference { kind: RefKind::Pen, id }],
            None => Seq::<StyleReference>::empty(),
        }) + (match s.inner {
            Some(v) => elems_refs(v@),
            None => Seq::<StyleReference>::empty(),
        }),
        BodyElement::Paragraph(p) => (match p.window_position {
            Some(id) => seq![StyleReference { kind: RefKind::WindowPosition, id }],
            None => Seq::<StyleReference>::empty(),
        }) + (match p.window_style {
            Some(id) => seq![StyleReference { kind: RefKind::WindowStyle, id }],
            None => Seq::<StyleReference>::empty(),
        }) + elems_refs(p.inner@),
        BodyElement::Div(v) => elems_refs(v@),
    }
}

/// Every style reference under a sequence of elements, in order.
pub open spec fn elems_refs(s: Seq<BodyElement>) -> Seq<StyleReference>
    decreases s,
{
    if s.len() == 0 {
        Seq::<StyleReference>::empty()
    } else {
        elems_refs(s.drop_last()) + elem_refs(s.last())
    }
}

/// Does the (possibly absent) header hold a record that `r` resolves
/// to?
pub open spec fn resolves(h: Option<Head>, r: StyleReference) -> bool {
    match h {
        None => false,
        Some(hd) => match r.kind {
            RefKind::Pen => exists|i: int| 0 <= i < hd.pen@.len() && hd.pen@[i].id == r.id,
            RefKind::WindowPosition => exists|i: int|
                0 <= i < hd.wp@.len() && hd.wp@[i].id == r.id,
            RefKind::WindowStyle => exists|i: int|
                0 <= i < hd.ws@.len() && hd.ws@[i].id == r.id,
        },
    }
}

/// The references among `rs` that the header does not resolve, in
/// order.
pub open spec fn unresolved(rs: Seq<StyleReference>, h: Option<Head>) -> Seq<StyleReference>
    decreases rs.len(),
{
    if rs.len() == 0 {
        Seq::<StyleReference>::empty()
    } else {
        let rest = unresolved(rs.drop_last(), h);
        if resolves(h, rs.last()) {
            rest
        } else {
            rest.push(rs.last())
        }
    }
}

/// The dangling references of a document: every body reference, in
/// document order, whose id has no record of the matching kind.
pub open spec fn dangling_refs(d: TimedText) -> Seq<StyleReference> {
    unresolved(elems_refs(d.body.elements@), d.head)
}

/// Collect the references under one element.
fn push_elem_refs(out: &mut Vec<StyleReference>, e: &BodyElement)
    ensures
        final(out)@ == old(out)@ + elem_refs(*e),
    decreases *e,
{
    match e {
        BodyElement::Text(_) => {
            proof {
                assert(out@ =~= old(out)@ + elem_refs(*e));
            }
        },
        BodyElement::Br(_) => {
            proof {
                assert(out@ =~= old(out)@ + elem_refs(*e));
            }
        },
        BodyElement::Span(s) => {
            match &s.pen {
                Some(id) => {
                    out.push(StyleReference { kind: RefKind::Pen, id: *id });
                },
                None => {
                },
            }
            match &s.inner {
                Some(v) => {
                    push_elems_refs(out, v);
                },
                None => {
                },
            }
            proof {
                assert(out@ =~= old(out)@ + elem_refs(*e));
            }
        },
        BodyElement::Paragraph(p) => {
            match &p.window_position {
                Some(id) => {
                    out.push(StyleReference { kind: RefKind::WindowPosition, id: *id });
                },
                None => {
                },
            }
            match &p.window_style {
                Some(id) => {
                    out.push(StyleReference { kind: RefKind::WindowStyle, id: *id });
                },
                None => {
                },
            }
            push_elems_refs(out, &p.inner);
            proof {
                assert(out@ =~= old(out)@ + elem_refs(*e));
            }
        },
        BodyElement::Div(v) => {
            push_elems_refs(out, v);
            proof {
                assert(out@ =~= old(out)@ + elem_refs(*e));
            }
        },
    }
}

/// Collect the references under each element, in order.
fn push_elems_refs(out: &mut Vec<StyleReference>, v: &Vec<BodyElement>)
    ensures
        final(out)@ == old(out)@ + elems_refs(v@),
    decreases *v,
{
    let n = v.len();
    let mut i: usize = 0;
    while i < n
        invariant
            0 <= i <= n,
            n == v@.len(),
            out@ == old(out)@ + elems_refs(v@.subrange(0, i as int)),
        decreases n - i,
    {
        push_elem_refs(out, &v[i]);
        proof {
            assert(v@.subrange(0, i + 1).drop_last() =~= v@.subrange(0, i as int));
            assert(v@.subrange(0, i + 1).last() == v@[i as int]);
        }
        i = i + 1;
    }
    proof {
        assert(v@.subrange(0, n as int) =~= v@);
    }
}

/// Whether a reference resolves against the header.
fn resolves_in(h: &Option<Head>, r: StyleReference) -> (b: bool)
    ensures
        b == resolves(*h, r),
{
    match h {
        None => false,
        Some(hd) => {
            match r.kind {
                RefKind::Pen => {
                    let n = hd.pen.len();
                    let mut i: usize = 0;
                    while i < n
                        invariant
                            0 <= i <= n,
                            n == hd.pen@.len(),
                            *h == Some(*hd),
                            r.kind == RefKind::Pen,
                            forall|j: int| 0 <= j < i ==> (#[trigger] hd.pen@[j]).id != r.id,
                        decreases n - i,
                    {
                        if hd.pen[i].id == r.id {
                            return true;
                        }
                        i = i + 1;
                    }
                    false
                },
                RefKind::WindowPosition => {
                    let n = hd.wp.len();
                    let mut i: usize = 0;
                    while i < n
                        invariant
                            0 <= i <= n,
                            n == hd.wp@.len(),
                            *h == Some(*hd),
                            r.kind == RefKind::WindowPosition,
                            forall|j: int| 0 <= j < i ==> (#[trigger] hd.wp@[j]).id != r.id,
                        decreases n - i,
                    {
                        if hd.wp[i].id == r.id {
                            return true;
                        }
                        i = i + 1;
                    }
                    false
                },
                RefKind::WindowStyle => {
                    let n = hd.ws.len();
                    let mut i: usize = 0;
                    while i < n
                        invariant
                            0 <= i <= n,
                            n == hd.ws@.len(),
                            *h == Some(*hd),
                            r.kind == RefKind::WindowStyle,
                            forall|j: int| 0 <= j < i ==> (#[trigger] hd.ws@[j]).id != r.id,
                        decreases n - i,
                    {
                        if hd.ws[i].id == r.id {
                            return true;
                        }
                        i = i + 1;
                    }
                    false
                },
            }
        },
    }
}

impl TimedText {
    /// The dangling references of this document, in document order.
    ///
    /// A dangling reference is a semantic note, never a decode failure:
    /// the document is returned whole, and tooling may consult this
    /// list.
    pub fn dangling_references(&self) -> (r: Vec<StyleReference>)
        ensures
            r@ == dangling_refs(*self),
    {
        let mut refs: Vec<StyleReference> = Vec::new();
        push_elems_refs(&mut refs, &self.body.elements);
        let n = refs.len();
        let mut out: Vec<StyleReference> = Vec::new();
        let mut i: usize = 0;
        while i < n
            invariant
                0 <= i <= n,
                n == refs@.len(),
                refs@ == elems_refs(self.body.elements@),
                out@ == unresolved(refs@.subrange(0, i as int), self.head),
            decreases n - i,
        {
            let keep = !resolves_in(&self.head, refs[i]);
            proof {
                assert(refs@.subrange(0, i + 1).drop_last() =~= refs@.subrange(0, i as int));
                assert(refs@.subrange(0, i + 1).last() == refs@[i as int]);
            }
            if keep {
                out.push(refs[i]);
            }
            i = i + 1;
        }
        proof {
            assert(refs@.subrange(0, n as int) =~= refs@);
        }
        out
    }
}

} // verus!
