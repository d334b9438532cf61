//! The decode failure taxonomy: each fatal condition and the inputs
//! that provoke it.

use srv3_ttml::model::{DecodeError, TimedText};

#[test]
fn malformed_missing_closing_tag() {
    // A missing closing tag is malformed markup, and no document comes
    // back.
    let r = TimedText::from_str(r#"<timedtext><body><p t="0" d="1">x</body></timedtext>"#);
    assert_eq!(r, Err(DecodeError::MalformedMarkup));
    let r = TimedText::from_str(r#"<timedtext><body>"#);
    assert_eq!(r, Err(DecodeError::MalformedMarkup));
}

#[test]
fn malformed_not_xml_at_all() {
    assert_eq!(TimedText::from_str(""), Err(DecodeError::MalformedMarkup));
    assert_eq!(TimedText::from_str("captions"), Err(DecodeError::MalformedMarkup));
    assert_eq!(
        TimedText::from_str(r#"<timedtext><body></body></timedtext>junk"#),
        Err(DecodeError::MalformedMarkup)
    );
    // A bare ampersand in character data is not well-formed.
    assert_eq!(
        TimedText::from_str(r#"<timedtext><body><p t="0" d="1">a&b</p></body></timedtext>"#),
        Err(DecodeError::MalformedMarkup)
    );
}

#[test]
fn missing_required_attribute() {
    // A pen without its id.
    let r = TimedText::from_str(
        r#"<timedtext><head><pen b="1"/></head><body></body></timedtext>"#,
    );
    assert_eq!(r, Err(DecodeError::MissingRequiredAttribute));
    // A paragraph without its timing.
    let r = TimedText::from_str(r#"<timedtext><body><p d="1">x</p></body></timedtext>"#);
    assert_eq!(r, Err(DecodeError::MissingRequiredAttribute));
    let r = TimedText::from_str(r#"<timedtext><body><p t="1">x</p></body></timedtext>"#);
    assert_eq!(r, Err(DecodeError::MissingRequiredAttribute));
    // A document without a body.
    let r = TimedText::from_str(r#"<timedtext></timedtext>"#);
    assert_eq!(r, Err(DecodeError::MissingRequiredAttribute));
}

#[test]
fn unrecognized_element() {
    // The body grammar is closed.
    let r = TimedText::from_str(r#"<timedtext><body><marquee/></body></timedtext>"#);
    assert_eq!(r, Err(DecodeError::UnrecognizedElement));
    // Inside a paragraph too.
    let r = TimedText::from_str(
        r#"<timedtext><body><p t="0" d="1"><u>x</u></p></body></timedtext>"#,
    );
    assert_eq!(r, Err(DecodeError::UnrecognizedElement));
    // And the root must be a timedtext element.
    let r = TimedText::from_str(r#"<transcript><body></body></transcript>"#);
    assert_eq!(r, Err(DecodeError::UnrecognizedElement));
}

#[test]
fn unrecognized_enum_is_not_malformed() {
    // The two conditions are distinct: a bad code in a closed enum is
    // not a markup problem, and an unparsable number is.
    assert_eq!(
        TimedText::from_str(
            r#"<timedtext><head><ws id="1" ju="9"/></head><body></body></timedtext>"#
        ),
        Err(DecodeError::UnrecognizedEnumValue)
    );
    assert_eq!(
        TimedText::from_str(
            r#"<timedtext><head><ws id="1" ju="left"/></head><body></body></timedtext>"#
        ),
        Err(DecodeError::MalformedMarkup)
    );
}

#[test]
fn error_messages_are_distinct() {
    let all = [
        DecodeError::MalformedMarkup,
        DecodeError::MissingRequiredAttribute,
        DecodeError::UnrecognizedEnumValue,
        DecodeError::UnrecognizedElement,
    ];
    for (i, a) in all.iter().enumerate() {
        for (j, b) in all.iter().enumerate() {
            assert_eq!(i == j, a.message() == b.message());
        }
    }
}

#[test]
fn whitespace_and_comments_are_tolerated() {
    let source = "\u{FEFF}<?xml version=\"1.0\"?>\n<!-- captions -->\n<timedtext>\n  <head>\n    <pen id=\"1\"/>\n  </head>\n  <body>\n    <p t=\"0\" d=\"1\">x</p>\n  </body>\n</timedtext>\n";
    let d = TimedText::from_str(source).unwrap();
    assert_eq!(d.head.as_ref().unwrap().pen.len(), 1);
    assert_eq!(d.body.elements.len(), 1);
}
