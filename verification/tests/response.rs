use ews::content::{DeError, XmlEntry, XmlValue};
use ews::response::Items;

fn text(s: &str) -> XmlValue {
    XmlValue::Text(s.to_string())
}

fn entry(key: &str, value: XmlValue) -> XmlEntry {
    XmlEntry { key: key.to_string(), value }
}

#[test]
fn items_from_text_is_an_error() {
    assert_eq!(Items::from_xml_value(&text("x")), Err(DeError::ExpectedElement));
    let items = XmlValue::Element(vec![entry("@a", text("b"))]);
    assert_eq!(Items::from_xml_value(&items), Ok(Items { inner: vec![] }));
}

