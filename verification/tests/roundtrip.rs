//! Decode/encode behaviour: round-trip stability, default suppression,
//! enum fallback and dangling-reference tolerance.

use srv3_ttml::diag::{RefKind, StyleReference};
use srv3_ttml::model::{BodyElement, DecodeError, FontStyle, ModeHint, TimedText};

const FULL_DOC: &str = r##"<?xml version="1.0" encoding="utf-8"?>
<timedtext format="3"><head>
<pen id="1" b="1" fc="#FEFEFE" fo="254" sz="100" fs="5" et="3" ec="#020202"/>
<pen id="2" i="1" u="0" rb="4" of="2" te="1" hg="1" bc="#000000" bo="127"/>
<wp id="1" ap="6" ah="20" av="-4" rc="2" cc="40"/>
<ws id="1" ju="2" pd="0" sd="3" mh="1" wfc="#303030" wfo="80"/>
</head><body>
<p t="0" d="2000" wp="1" ws="1">Never gonna <s p="1">give you up</s><br/>and A&amp;B &lt;ok&gt;</p>
<p t="2500" d="1000">plain</p>
<div><p t="4000" d="500"><s p="2"/></p></div>
</body></timedtext>"##;

#[test]
fn round_trip_full_document() {
    let d1 = TimedText::from_str(FULL_DOC).expect("first decode");
    let xml = d1.to_xml();
    let d2 = TimedText::from_str(&xml).expect("second decode");
    assert_eq!(d1, d2);
    // And the canonical encoding is a fixed point.
    assert_eq!(xml, d2.to_xml());
}

#[test]
fn round_trip_without_head() {
    let d1 = TimedText::from_str(r#"<timedtext><body><p t="1" d="2">x</p></body></timedtext>"#)
        .unwrap();
    assert!(d1.head.is_none());
    assert!(d1.format.is_none());
    let d2 = TimedText::from_str(&d1.to_xml()).unwrap();
    assert_eq!(d1, d2);
}

#[test]
fn default_suppression_equivalence() {
    // An explicit default opacity decodes the same as an absent one.
    let with = TimedText::from_str(
        r#"<timedtext><head><pen id="1" fo="255" bo="255"/></head><body></body></timedtext>"#,
    )
    .unwrap();
    let without = TimedText::from_str(
        r#"<timedtext><head><pen id="1"/></head><body></body></timedtext>"#,
    )
    .unwrap();
    let p_with = &with.head.as_ref().unwrap().pen[0];
    let p_without = &without.head.as_ref().unwrap().pen[0];
    assert_eq!(p_with, p_without);
    assert_eq!(p_with.foreground_opacity, None);
    // The same for the mode hint: explicit "0" reads as the default.
    let ws_with = TimedText::from_str(
        r#"<timedtext><head><ws id="1" mh="0" wfo="255"/></head><body></body></timedtext>"#,
    )
    .unwrap();
    let ws_without = TimedText::from_str(
        r#"<timedtext><head><ws id="1"/></head><body></body></timedtext>"#,
    )
    .unwrap();
    assert_eq!(
        ws_with.head.as_ref().unwrap().ws[0],
        ws_without.head.as_ref().unwrap().ws[0]
    );
    assert_eq!(ws_with.head.as_ref().unwrap().ws[0].mode_hint, ModeHint::NoHint);
    // On encode the defaults are suppressed again.
    let xml = with.to_xml();
    assert!(!xml.contains("fo="));
    assert!(!xml.contains("bo="));
    let xml = ws_with.to_xml();
    assert!(!xml.contains("mh="));
    assert!(!xml.contains("wfo="));
}

#[test]
fn font_style_fallback_decodes_and_reencodes_canonically() {
    let d = TimedText::from_str(
        r#"<timedtext><head><pen id="1" fs="99"/></head><body></body></timedtext>"#,
    )
    .unwrap();
    let pen = &d.head.as_ref().unwrap().pen[0];
    assert_eq!(pen.font_style, Some(FontStyle::Default));
    // The re-encoded attribute carries the canonical default code, not
    // the out-of-range one.
    let xml = d.to_xml();
    assert!(xml.contains(r#"fs="0""#));
    assert!(!xml.contains("99"));
}

#[test]
fn closed_enum_rejection() {
    let r = TimedText::from_str(
        r#"<timedtext><head><ws id="1" ju="7"/></head><body></body></timedtext>"#,
    );
    assert_eq!(r, Err(DecodeError::UnrecognizedEnumValue));
    let r = TimedText::from_str(
        r#"<timedtext><head><pen id="1" et="9"/></head><body></body></timedtext>"#,
    );
    assert_eq!(r, Err(DecodeError::UnrecognizedEnumValue));
}

#[test]
fn dangling_reference_tolerated_and_reported() {
    // The paragraph references window position 5, which the header does
    // not define: the decode still succeeds and the reference is
    // surfaced as a note.
    let d = TimedText::from_str(
        r#"<timedtext><head><wp id="1"/></head><body><p t="0" d="100" wp="5">x</p></body></timedtext>"#,
    )
    .unwrap();
    let notes = d.dangling_references();
    assert_eq!(
        notes,
        vec![StyleReference { kind: RefKind::WindowPosition, id: 5 }]
    );
    // A resolvable reference produces no note.
    let ok = TimedText::from_str(
        r#"<timedtext><head><wp id="5"/></head><body><p t="0" d="100" wp="5">x</p></body></timedtext>"#,
    )
    .unwrap();
    assert_eq!(ok.dangling_references(), vec![]);
}

#[test]
fn text_escaping_round_trips() {
    let d1 = TimedText::from_str(
        r#"<timedtext><body><p t="0" d="1">a &lt;b&gt; &amp;c "q" 'a'</p></body></timedtext>"#,
    )
    .unwrap();
    match &d1.body.elements[0] {
        BodyElement::Paragraph(p) => match &p.inner[0] {
            BodyElement::Text(t) => assert_eq!(t, "a <b> &c \"q\" 'a'"),
            other => panic!("expected text, got {:?}", other),
        },
        other => panic!("expected paragraph, got {:?}", other),
    }
    let d2 = TimedText::from_str(&d1.to_xml()).unwrap();
    assert_eq!(d1, d2);
}

#[test]
fn format_attribute_round_trips() {
    let d = TimedText::from_str(r#"<timedtext format="3"><body></body></timedtext>"#).unwrap();
    assert_eq!(d.format.as_deref(), Some("3"));
    let d2 = TimedText::from_str(&d.to_xml()).unwrap();
    assert_eq!(d, d2);
}

#[test]
fn negative_offsets_round_trip() {
    let d = TimedText::from_str(
        r#"<timedtext><head><wp id="1" ah="-10" av="-99"/></head><body></body></timedtext>"#,
    )
    .unwrap();
    let wp = &d.head.as_ref().unwrap().wp[0];
    assert_eq!(wp.horizontal_offset, Some(-10));
    assert_eq!(wp.vertical_offset, Some(-99));
    let d2 = TimedText::from_str(&d.to_xml()).unwrap();
    assert_eq!(d, d2);
}
