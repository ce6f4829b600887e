//! Responses read from XML documents: quick_xml's deserializer presents each
//! document as the entries that the library's readers take.

use std::fmt;

use ews::content::{DeError, XmlEntry, XmlValue};
use ews::create_item::CreateItemResponse;
use ews::message_xml::{
    MessageXml, MessageXmlAttributed, MessageXmlElement, MessageXmlElements, MessageXmlTagged,
    MessageXmlValue, ServerBusy,
};
use ews::response::{
    read_message, ItemResponseMessage, Items, ResponseClass, ResponseError, ResponseMessages,
};
use ews::types::{DateTime, Message, RealItem};
use ews::update_item::{UpdateItemResponse, UpdateItemResponseMessage};
use serde::de::{self, Deserialize, Deserializer, MapAccess, Visitor};

/// Gathers what the deserializer presents: strings become text, maps become
/// elements with their entries in document order.
struct Gather;

impl<'de> Visitor<'de> for Gather {
    type Value = XmlValue;

    fn expecting(&self, formatter: &mut fmt::Formatter) -> fmt::Result {
        formatter.write_str("element text or element content")
    }

    fn visit_str<E: de::Error>(self, v: &str) -> Result<XmlValue, E> {
        Ok(XmlValue::Text(v.to_string()))
    }

    fn visit_string<E: de::Error>(self, v: String) -> Result<XmlValue, E> {
        Ok(XmlValue::Text(v))
    }

    fn visit_map<M: MapAccess<'de>>(self, mut access: M) -> Result<XmlValue, M::Error> {
        let mut entries = vec![];
        while let Some(key) = access.next_key::<String>()? {
            let Gathered(value) = access.next_value::<Gathered>()?;
            entries.push(XmlEntry { key, value });
        }
        Ok(XmlValue::Element(entries))
    }
}

struct Gathered(XmlValue);

impl<'de> Deserialize<'de> for Gathered {
    fn deserialize<D: Deserializer<'de>>(deserializer: D) -> Result<Self, D::Error> {
        deserializer.deserialize_any(Gather).map(Gathered)
    }
}

struct Root(Vec<XmlEntry>);

impl<'de> Deserialize<'de> for Root {
    fn deserialize<D: Deserializer<'de>>(deserializer: D) -> Result<Self, D::Error> {
        match deserializer.deserialize_map(Gather)? {
            XmlValue::Element(entries) => Ok(Root(entries)),
            XmlValue::Text(_) => Err(de::Error::custom("expected element content")),
        }
    }
}

/// The entries of the root element of `xml`.
fn xml_entries(xml: &str) -> Vec<XmlEntry> {
    quick_xml::de::from_str::<Root>(xml).unwrap().0
}

/// Reads the `MessageXml` element that `xml` consists of.
fn message_xml_from(xml: &str) -> Result<MessageXml, DeError> {
    MessageXml::from_xml_value(&XmlValue::Element(xml_entries(xml)))
}

fn assert_deserialized_content(content: &str, expected: CreateItemResponse) {
    let actual = CreateItemResponse::from_entries(&xml_entries(content)).unwrap();
    assert_eq!(actual, expected);
}

fn response_with_message(body: &str) -> String {
    format!(
        r#"<m:UpdateItemResponse><m:ResponseMessages>{body}</m:ResponseMessages></m:UpdateItemResponse>"#
    )
}

#[test]
fn test_deserialize_create_item_response() {
    let content = r#"
        <CreateItemResponse
            xmlns:m="http://schemas.microsoft.com/exchange/services/2006/messages"
            xmlns:t="http://schemas.microsoft.com/exchange/services/2006/types"
            xmlns="http://schemas.microsoft.com/exchange/services/2006/messages">
          <m:ResponseMessages>
            <m:CreateItemResponseMessage ResponseClass="Success">
              <m:ResponseCode>NoError</m:ResponseCode>
              <m:Items />
            </m:CreateItemResponseMessage>
          </m:ResponseMessages>
        </CreateItemResponse>"#;

    let expected = CreateItemResponse {
        response_messages: ResponseMessages {
            response_messages: vec![ResponseClass::Success(ItemResponseMessage {
                items: Items { inner: vec![] },
            })],
        },
    };

    assert_deserialized_content(content, expected);
}

#[test]
fn server_busy_back_off_is_read() {
    let xml = r#"<m:MessageXml xmlns:t="http://schemas.microsoft.com/exchange/services/2006/types">
        <t:Value Name="BackOffMilliseconds">297749</t:Value>
    </m:MessageXml>"#;
    assert_eq!(
        message_xml_from(xml),
        Ok(MessageXml::ServerBusy(ServerBusy { back_off_milliseconds: 297749 }))
    );
}

#[test]
fn first_back_off_value_decides() {
    let xml = r#"<m:MessageXml>
        <t:Value Name="Other">x</t:Value>
        <t:Value Name="BackOffMilliseconds">+12</t:Value>
        <t:Value Name="BackOffMilliseconds">34</t:Value>
    </m:MessageXml>"#;
    assert_eq!(
        message_xml_from(xml),
        Ok(MessageXml::ServerBusy(ServerBusy { back_off_milliseconds: 12 }))
    );
}

#[test]
fn unparseable_back_off_falls_back_to_other() {
    let xml = r#"<m:MessageXml><t:Value Name="BackOffMilliseconds">4294967296</t:Value></m:MessageXml>"#;
    assert_eq!(
        message_xml_from(xml),
        Ok(MessageXml::Other(MessageXmlElements {
            elements: vec![MessageXmlElement::MessageXmlValue(MessageXmlValue {
                name: "BackOffMilliseconds".to_string(),
                value: "4294967296".to_string(),
            })],
        }))
    );
}

#[test]
fn tagged_attributed_and_empty_elements_are_kept_in_order() {
    let xml = r#"<m:MessageXml xmlns:t="http://schemas.microsoft.com/exchange/services/2006/types">
        <t:ExceptionType>Microsoft.Exchange.Data.Storage.QuotaExceededException</t:ExceptionType>
        <t:FieldURI FieldURI="calendar:IsMeeting"/>
        <t:Empty/>
    </m:MessageXml>"#;
    assert_eq!(
        message_xml_from(xml),
        Ok(MessageXml::Other(MessageXmlElements {
            elements: vec![
                MessageXmlElement::MessageXmlTagged(MessageXmlTagged {
                    name: "ExceptionType".to_string(),
                    value: "Microsoft.Exchange.Data.Storage.QuotaExceededException".to_string(),
                }),
                MessageXmlElement::MessageXmlAttributed(MessageXmlAttributed {
                    name: "FieldURI".to_string(),
                    attributes: vec![("FieldURI".to_string(), "calendar:IsMeeting".to_string())],
                }),
                MessageXmlElement::MessageXmlTagged(MessageXmlTagged {
                    name: "Empty".to_string(),
                    value: String::new(),
                }),
            ],
        }))
    );
}

#[test]
fn other_attributes_of_the_message_xml_element_become_tagged_elements() {
    let xml = r#"<m:MessageXml xmlns:x="urn:other"><t:A>b</t:A></m:MessageXml>"#;
    assert_eq!(
        message_xml_from(xml),
        Ok(MessageXml::Other(MessageXmlElements {
            elements: vec![
                MessageXmlElement::MessageXmlTagged(MessageXmlTagged {
                    name: "@xmlns:x".to_string(),
                    value: "urn:other".to_string(),
                }),
                MessageXmlElement::MessageXmlTagged(MessageXmlTagged {
                    name: "A".to_string(),
                    value: "b".to_string(),
                }),
            ],
        }))
    );
}

#[test]
fn value_without_name_matches_no_variant() {
    let xml = r#"<m:MessageXml><t:Value>1</t:Value></m:MessageXml>"#;
    assert_eq!(message_xml_from(xml), Err(DeError::NoMatchingVariant));
}

#[test]
fn single_layer_message_xml_is_always_read() {
    // Text, tagged and attributed elements, and a named value: no back-off,
    // so the result is `Other`.
    let xml = r#"<m:MessageXml a="1"><t:X>y</t:X><t:Y k="v"/><t:Value Name="N">v</t:Value></m:MessageXml>"#;
    assert!(matches!(message_xml_from(xml), Ok(MessageXml::Other(_))));
}

#[test]
fn update_item_response_with_server_busy_error() {
    let content = r#"
        <m:UpdateItemResponse xmlns:m="http://schemas.microsoft.com/exchange/services/2006/messages"
                              xmlns:t="http://schemas.microsoft.com/exchange/services/2006/types">
          <m:ResponseMessages>
            <m:UpdateItemResponseMessage ResponseClass="Error">
              <m:MessageText>The server cannot service this request right now. Try again later.</m:MessageText>
              <m:ResponseCode>ErrorServerBusy</m:ResponseCode>
              <m:DescriptiveLinkKey>0</m:DescriptiveLinkKey>
              <m:MessageXml>
                <t:Value Name="BackOffMilliseconds">297749</t:Value>
              </m:MessageXml>
              <m:Items />
            </m:UpdateItemResponseMessage>
          </m:ResponseMessages>
        </m:UpdateItemResponse>"#;

    let response = UpdateItemResponse::from_entries(&xml_entries(content)).unwrap();
    assert_eq!(
        response.response_messages.response_messages,
        vec![ResponseClass::Error(ResponseError {
            message_text: "The server cannot service this request right now. Try again later."
                .to_string(),
            response_code: "ErrorServerBusy".to_string(),
            message_xml: Some(MessageXml::ServerBusy(ServerBusy {
                back_off_milliseconds: 297749,
            })),
        })]
    );
}

#[test]
fn update_item_response_with_items() {
    let content = r#"
        <m:UpdateItemResponse xmlns:m="m" xmlns:t="t">
          <m:ResponseMessages>
            <m:UpdateItemResponseMessage ResponseClass="Warning">
              <m:Items>
                <t:CalendarItem>
                  <t:ItemId Id="abc" ChangeKey="def"/>
                  <t:Subject>Planning &amp; budget</t:Subject>
                  <t:Start>1970-01-01T01:00:00Z</t:Start>
                </t:CalendarItem>
                <t:Message/>
              </m:Items>
            </m:UpdateItemResponseMessage>
          </m:ResponseMessages>
        </m:UpdateItemResponse>"#;

    let response = UpdateItemResponse::from_entries(&xml_entries(content)).unwrap();
    let expected_item = Message {
        subject: Some("Planning & budget".to_string()),
        start: Some(DateTime::from_unix_timestamp(3600).unwrap()),
        ..Default::default()
    };
    assert_eq!(
        response.response_messages.response_messages,
        vec![ResponseClass::Warning(UpdateItemResponseMessage {
            items: Items {
                inner: vec![RealItem::CalendarItem(expected_item), RealItem::Message(Message::default())],
            },
        })]
    );
    let start = match &response.response_messages.response_messages[0] {
        ResponseClass::Warning(m) => match &m.items.inner[0] {
            RealItem::CalendarItem(c) => c.start.clone().unwrap(),
            _ => unreachable!(),
        },
        _ => unreachable!(),
    };
    assert_eq!(start.unix_timestamp_nanos(), 3_600_000_000_000);
}

#[test]
fn response_errors() {
    // No `ResponseMessages`.
    assert_eq!(
        UpdateItemResponse::from_entries(&xml_entries("<m:UpdateItemResponse/>")),
        Err(DeError::MissingField)
    );
    // Two `ResponseMessages`.
    assert_eq!(
        UpdateItemResponse::from_entries(&xml_entries(
            "<r><m:ResponseMessages/><m:ResponseMessages/></r>"
        )),
        Err(DeError::DuplicateField)
    );
    // An unknown response class.
    assert_eq!(
        UpdateItemResponse::from_entries(&xml_entries(&response_with_message(
            r#"<m:M ResponseClass="Bogus"><m:Items/></m:M>"#
        ))),
        Err(DeError::UnknownVariant)
    );
    // No response class.
    assert_eq!(
        UpdateItemResponse::from_entries(&xml_entries(&response_with_message(r#"<m:M><m:Items/></m:M>"#))),
        Err(DeError::MissingField)
    );
    // A successful message without items.
    assert_eq!(
        UpdateItemResponse::from_entries(&xml_entries(&response_with_message(r#"<m:M ResponseClass="Success"/>"#))),
        Err(DeError::MissingField)
    );
    // An unknown kind of item.
    assert_eq!(
        UpdateItemResponse::from_entries(&xml_entries(&response_with_message(
            r#"<m:M ResponseClass="Success"><m:Items><t:Contact/></m:Items></m:M>"#
        ))),
        Err(DeError::UnknownVariant)
    );
    // A date-time that does not parse.
    assert_eq!(
        UpdateItemResponse::from_entries(&xml_entries(&response_with_message(
            r#"<m:M ResponseClass="Success"><m:Items><t:Message><t:End>soon</t:End></t:Message></m:Items></m:M>"#
        ))),
        Err(DeError::InvalidDateTime)
    );
    // A subject that holds an element.
    assert_eq!(
        UpdateItemResponse::from_entries(&xml_entries(&response_with_message(
            r#"<m:M ResponseClass="Success"><m:Items><t:Message><t:Subject><b/></t:Subject></t:Message></m:Items></m:M>"#
        ))),
        Err(DeError::ExpectedText)
    );
    // Text where a response message is expected.
    assert_eq!(
        UpdateItemResponse::from_entries(&xml_entries(&response_with_message("oops"))),
        Err(DeError::ExpectedElement)
    );
    // An error message without its text.
    assert_eq!(
        UpdateItemResponse::from_entries(&xml_entries(&response_with_message(
            r#"<m:M ResponseClass="Error"><m:ResponseCode>ErrorX</m:ResponseCode></m:M>"#
        ))),
        Err(DeError::MissingField)
    );
}

#[test]
fn fractional_seconds_and_offsets_are_read_as_instants() {
    let content = r#"<r><m:ResponseMessages><m:M ResponseClass="Success"><m:Items><t:Message>
        <t:End>2024-01-01T10:00:00.25+02:00</t:End>
    </t:Message></m:Items></m:M></m:ResponseMessages></r>"#;
    let response = UpdateItemResponse::from_entries(&xml_entries(content)).unwrap();
    let end = match &response.response_messages.response_messages[0] {
        ResponseClass::Success(m) => match &m.items.inner[0] {
            RealItem::Message(msg) => msg.end.clone().unwrap(),
            _ => unreachable!(),
        },
        _ => unreachable!(),
    };
    // 2024-01-01T08:00:00.25Z
    assert_eq!(end.unix_timestamp_nanos(), 1_704_096_000_250_000_000);
    let mut out = String::new();
    end.serialize_as_element(&mut out, "t:End");
    assert_eq!(out, "<t:End>2024-01-01T08:00:00.250000000Z</t:End>");
}

#[test]
fn escaped_text_is_read_back_unchanged() {
    let message = Message {
        subject: Some("<a href=\"x\">Tom & Jerry's</a>".to_string()),
        location: Some("Room > 1".to_string()),
        ..Default::default()
    };
    let mut out = String::new();
    message.serialize_as_element(&mut out, "t:Message");
    let read = read_message(&XmlValue::Element(xml_entries(&out))).unwrap();
    assert_eq!(read, message);
}

#[test]
fn comments_cdata_and_character_references_are_read() {
    let xml = r#"<m:MessageXml>
        <!-- a comment -->
        <t:Value Name="BackOffMilliseconds"><![CDATA[12]]>&#51;</t:Value>
    </m:MessageXml>"#;
    assert_eq!(
        message_xml_from(xml),
        Ok(MessageXml::ServerBusy(ServerBusy { back_off_milliseconds: 123 }))
    );
    let xml = r#"<?xml version="1.0"?>
        <m:MessageXml><?pi data?><t:Reason>a&#x26;b<![CDATA[<c>]]></t:Reason></m:MessageXml>"#;
    assert_eq!(
        message_xml_from(xml),
        Ok(MessageXml::Other(MessageXmlElements {
            elements: vec![MessageXmlElement::MessageXmlTagged(MessageXmlTagged {
                name: "Reason".to_string(),
                value: "a&b<c>".to_string(),
            })],
        }))
    );
}

#[test]
fn every_back_off_is_read_back() {
    for n in [0u32, 1, 9, 10, 297749, u32::MAX] {
        let xml = format!(
            r#"<m:MessageXml><t:Value Name="BackOffMilliseconds">{n}</t:Value></m:MessageXml>"#
        );
        assert_eq!(
            message_xml_from(&xml),
            Ok(MessageXml::ServerBusy(ServerBusy { back_off_milliseconds: n }))
        );
    }
}

#[test]
fn attributed_elements_hold_attributes() {
    let xml = r#"<m:MessageXml><t:A/><t:B x="1" y="2"/><t:C></t:C></m:MessageXml>"#;
    let read = message_xml_from(xml).unwrap();
    let elements = match read {
        MessageXml::Other(MessageXmlElements { elements }) => elements,
        other => panic!("{other:?}"),
    };
    assert_eq!(
        elements,
        vec![
            MessageXmlElement::MessageXmlTagged(MessageXmlTagged {
                name: "A".to_string(),
                value: String::new(),
            }),
            MessageXmlElement::MessageXmlAttributed(MessageXmlAttributed {
                name: "B".to_string(),
                attributes: vec![
                    ("x".to_string(), "1".to_string()),
                    ("y".to_string(), "2".to_string()),
                ],
            }),
            MessageXmlElement::MessageXmlTagged(MessageXmlTagged {
                name: "C".to_string(),
                value: String::new(),
            }),
        ]
    );
}

#[test]
fn update_item_response_message_is_read_alone() {
    let entries = xml_entries(
        r#"<m:UpdateItemResponseMessage ResponseClass="Success"><m:Items><t:Message/></m:Items></m:UpdateItemResponseMessage>"#,
    );
    let read = ResponseClass::<UpdateItemResponseMessage>::from_xml_value(&XmlValue::Element(entries));
    assert_eq!(
        read,
        Ok(ResponseClass::Success(UpdateItemResponseMessage {
            items: Items { inner: vec![RealItem::Message(Message::default())] },
        }))
    );
}
