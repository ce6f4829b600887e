use ews::content::{DeError, XmlEntry, XmlValue};
use ews::message_xml::{
    MessageXml, MessageXmlAttributed, MessageXmlElement, MessageXmlElements, MessageXmlTagged,
    MessageXmlValue, ServerBusy,
};

fn text(s: &str) -> XmlValue {
    XmlValue::Text(s.to_string())
}

fn entry(key: &str, value: XmlValue) -> XmlEntry {
    XmlEntry { key: key.to_string(), value }
}

#[test]
fn types_namespace_declaration_inside_an_element_is_dropped() {
    let value = XmlValue::Element(vec![
        entry(
            "Decl",
            XmlValue::Element(vec![entry(
                "http://schemas.microsoft.com/exchange/services/2006/types",
                text("ignored"),
            )]),
        ),
        entry("Kept", XmlValue::Element(vec![entry("$text", text("v"))])),
    ]);
    assert_eq!(
        MessageXml::from_xml_value(&value),
        Ok(MessageXml::Other(MessageXmlElements {
            elements: vec![MessageXmlElement::MessageXmlTagged(MessageXmlTagged {
                name: "Kept".to_string(),
                value: "v".to_string(),
            })],
        }))
    );
}

#[test]
fn text_alone_matches_no_variant() {
    assert_eq!(MessageXml::from_xml_value(&text("hello")), Err(DeError::NoMatchingVariant));
}

#[test]
fn message_xml_value_errors() {
    // No `Name` attribute.
    let missing = XmlValue::Element(vec![entry("$text", text("1"))]);
    assert_eq!(MessageXmlValue::from_xml_value(&missing), Err(DeError::MissingField));
    // No text.
    let no_text = XmlValue::Element(vec![entry("@Name", text("n"))]);
    assert_eq!(MessageXmlValue::from_xml_value(&no_text), Err(DeError::MissingField));
    // `Name` twice.
    let twice = XmlValue::Element(vec![
        entry("@Name", text("a")),
        entry("@Name", text("b")),
        entry("$text", text("1")),
    ]);
    assert_eq!(MessageXmlValue::from_xml_value(&twice), Err(DeError::DuplicateField));
    // `Name` given as an element.
    let nested = XmlValue::Element(vec![entry("@Name", XmlValue::Element(vec![]))]);
    assert_eq!(MessageXmlValue::from_xml_value(&nested), Err(DeError::ExpectedText));
    // Text where an element is needed.
    assert_eq!(MessageXmlValue::from_xml_value(&text("x")), Err(DeError::ExpectedElement));
    // Both fields, other entries ignored.
    let ok = XmlValue::Element(vec![
        entry("@Other", text("z")),
        entry("@Name", text("n")),
        entry("$text", text("v")),
    ]);
    assert_eq!(
        MessageXmlValue::from_xml_value(&ok),
        Ok(MessageXmlValue { name: "n".to_string(), value: "v".to_string() })
    );
}

#[test]
fn server_busy_errors() {
    assert_eq!(ServerBusy::from_entries(&vec![]), Err(DeError::NoBackOffMilliseconds));
    let not_a_number = vec![entry(
        "Value",
        XmlValue::Element(vec![entry("@Name", text("BackOffMilliseconds")), entry("$text", text("abc"))]),
    )];
    assert_eq!(ServerBusy::from_entries(&not_a_number), Err(DeError::InvalidNumber));
    let negative = vec![entry(
        "Value",
        XmlValue::Element(vec![entry("@Name", text("BackOffMilliseconds")), entry("$text", text("-1"))]),
    )];
    assert_eq!(ServerBusy::from_entries(&negative), Err(DeError::InvalidNumber));
    let max = vec![entry(
        "Value",
        XmlValue::Element(vec![entry("@Name", text("BackOffMilliseconds")), entry("$text", text("4294967295"))]),
    )];
    assert_eq!(
        ServerBusy::from_entries(&max),
        Ok(ServerBusy { back_off_milliseconds: 4294967295 })
    );
}

#[test]
fn attribute_given_as_an_element_is_an_error() {
    let entries = vec![entry("Tag", XmlValue::Element(vec![entry("@a", XmlValue::Element(vec![]))]))];
    assert_eq!(MessageXmlElements::from_entries(&entries), Err(DeError::ExpectedText));
}

