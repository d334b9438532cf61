//! Text extraction: plain text, markup rendering and the zero-width
//! space stripped view.

use srv3_ttml::model::{Body, BodyElement, Br, Paragraph, Span, TimedText};

fn para(inner: Vec<BodyElement>) -> Paragraph {
    Paragraph {
        inner,
        timestamp: 0,
        duration: 1000,
        window_position: None,
        window_style: None,
    }
}

#[test]
fn plain_text_with_break() {
    // Text "A", a line break, text "B" flattens to "A\nB".
    let p = para(vec![
        BodyElement::Text(String::from("A")),
        BodyElement::Br(Br),
        BodyElement::Text(String::from("B")),
    ]);
    assert_eq!(p.text(), "A\nB");
}

#[test]
fn markup_text_with_break() {
    // The same paragraph renders the break as an explicit marker.
    let p = para(vec![
        BodyElement::Text(String::from("A")),
        BodyElement::Br(Br),
        BodyElement::Text(String::from("B")),
    ]);
    assert_eq!(p.text_markup(), "A<br>B");
}

#[test]
fn span_contributes_flattened_text() {
    let p = para(vec![
        BodyElement::Text(String::from("never ")),
        BodyElement::Span(Span {
            inner: Some(vec![BodyElement::Text(String::from("gonna"))]),
            pen: Some(2),
        }),
    ]);
    assert_eq!(p.text(), "never gonna");
    assert_eq!(p.text_markup(), "never <s p=\"2\">gonna</s>");
}

#[test]
fn span_without_pen_or_content() {
    let p = para(vec![
        BodyElement::Span(Span { inner: None, pen: None }),
        BodyElement::Text(String::from("x")),
    ]);
    assert_eq!(p.text(), "x");
    assert_eq!(p.text_markup(), "<s></s>x");
}

#[test]
fn zwsp_stripping() {
    // "A\u{200B}B" keeps the marker in the plain view and loses it in
    // the stripped view.
    let p = para(vec![BodyElement::Text(String::from("A\u{200B}B"))]);
    assert_eq!(p.text(), "A\u{200B}B");
    assert_eq!(p.text_no_zwsp(), "AB");
}

#[test]
fn body_text_joins_blocks_and_trims() {
    let b = Body {
        elements: vec![
            BodyElement::Paragraph(para(vec![BodyElement::Text(String::from("one"))])),
            BodyElement::Paragraph(para(vec![BodyElement::Text(String::from("two"))])),
        ],
    };
    assert_eq!(b.text(), "one\n\ntwo");
    let b = Body {
        elements: vec![BodyElement::Paragraph(para(vec![BodyElement::Text(String::from(
            "  padded  ",
        ))]))],
    };
    assert_eq!(b.text(), "padded");
}

#[test]
fn extraction_after_decode() {
    let d = TimedText::from_str(
        r#"<timedtext><body><p t="0" d="1">A<br/>B</p><p t="2" d="1">C</p></body></timedtext>"#,
    )
    .unwrap();
    assert_eq!(d.body.text(), "A\nB\n\nC");
}

#[test]
fn strip_zwsp_function() {
    assert_eq!(srv3_ttml::text::strip_zwsp_str("\u{200B}a\u{200B}\u{200B}b"), "ab");
    assert_eq!(srv3_ttml::text::strip_zwsp_str(""), "");
}

#[test]
fn element_text_recurses_through_div() {
    let e = BodyElement::Div(vec![
        BodyElement::Text(String::from("x")),
        BodyElement::Br(Br),
        BodyElement::Text(String::from("y")),
    ]);
    assert_eq!(e.text(), "x\ny");
    assert_eq!(e.text_markup(), "x<br>y");
}
