use ews::types::{BaseItemId, DateTime, Message, MessageDisposition};
use ews::update_item::{ItemChange, ItemChangeDescription, ItemChangeInner, UpdateItem, Updates};
use quick_xml::{events::Event, Reader};

/// Removes the indentation and line breaks between the tags of an XML
/// document written over several lines.
fn minify_xml(xml: &str) -> String {
    xml.lines().map(|line| line.trim()).collect::<Vec<_>>().concat()
}

fn assert_serialized_content(request: &UpdateItem, root_name: &str, expected: &str) {
    let mut out = String::new();
    request.serialize_as_element(&mut out, root_name);
    assert_eq!(out, expected);
}

fn update_item_with_updates(updates: Updates) -> UpdateItem {
    UpdateItem {
        message_disposition: MessageDisposition::SaveOnly,
        conflict_resolution: None,
        item_changes: vec![ItemChange {
            item_change: ItemChangeInner {
                item_id: BaseItemId::ItemId {
                    id: "id".to_string(),
                    change_key: None,
                },
                updates,
            },
        }],
    }
}

fn update_item_with_change(change: ItemChangeDescription) -> UpdateItem {
    update_item_with_updates(Updates {
        inner: vec![change],
    })
}

/// The Unix epoch.
fn unix_epoch() -> DateTime {
    DateTime::from_unix_timestamp(0).unwrap()
}

/// Counts the number of direct child elements of the first element named
/// `parent_tag` found in `xml`.
fn count_direct_children(xml: &str, parent_tag: &str) -> usize {
    let mut reader = Reader::from_str(xml);
    let mut depth: i32 = -1;
    let mut parent_depth = None;
    let mut count = 0;

    loop {
        match reader.read_event().unwrap() {
            Event::Start(e) => {
                depth += 1;

                if parent_depth.is_none() && e.name().as_ref() == parent_tag.as_bytes() {
                    parent_depth = Some(depth);
                } else if parent_depth == Some(depth - 1) {
                    count += 1;
                }
            }
            Event::Empty(e) => {
                if parent_depth == Some(depth) {
                    count += 1;
                } else if parent_depth.is_none() && e.name().as_ref() == parent_tag.as_bytes() {
                    // A self-closing `parent_tag` has no children.
                    return 0;
                }
            }
            Event::End(_) => {
                if parent_depth == Some(depth) {
                    return count;
                }

                depth -= 1;
            }
            Event::Eof => panic!("did not find element {parent_tag} in {xml}"),
            _ => {}
        }
    }
}

#[test]
fn test_serialize_set_item_field_message() {
    let request = update_item_with_change(ItemChangeDescription::new_message_field(
        "calendar:End",
        Message::default(),
    ));

    let expected = minify_xml(
        r#"
        <UpdateItem xmlns="http://schemas.microsoft.com/exchange/services/2006/messages" MessageDisposition="SaveOnly">
          <ItemChanges>
            <t:ItemChange>
              <t:ItemId Id="id"/>
              <t:Updates>
                <t:SetItemField>
                  <t:FieldURI FieldURI="calendar:End"/>
                  <t:Message></t:Message>
                </t:SetItemField>
              </t:Updates>
            </t:ItemChange>
          </ItemChanges>
        </UpdateItem>"#,
    );

    assert_serialized_content(&request, "UpdateItem", &expected);
}

#[test]
fn test_serialize_set_item_field_calendar_item() {
    let request = update_item_with_change(ItemChangeDescription::new_calendar_item_field(
        "calendar:End",
        Message::default(),
    ));

    let expected = minify_xml(
        r#"
        <UpdateItem xmlns="http://schemas.microsoft.com/exchange/services/2006/messages" MessageDisposition="SaveOnly">
          <ItemChanges>
            <t:ItemChange>
              <t:ItemId Id="id"/>
              <t:Updates>
                <t:SetItemField>
                  <t:FieldURI FieldURI="calendar:End"/>
                  <t:CalendarItem></t:CalendarItem>
                </t:SetItemField>
              </t:Updates>
            </t:ItemChange>
          </ItemChanges>
        </UpdateItem>"#,
    );

    assert_serialized_content(&request, "UpdateItem", &expected);
}

/// Guards the EWS invariant that a `SetItemField` change may wrap only
/// one changed property (violating it produces
/// `ErrorIncorrectUpdatePropertyCount`).
#[test]
fn test_new_calendar_item_field_wraps_exactly_one_property() {
    let change = ItemChangeDescription::new_calendar_item_field(
        "calendar:End",
        Message {
            end: Some(unix_epoch()),
            ..Default::default()
        },
    );

    let mut xml = String::new();
    change.serialize_as_element(&mut xml, "ItemChangeDescription");

    assert_eq!(
        count_direct_children(&xml, "t:CalendarItem"),
        1,
        "SetItemField must wrap exactly one property, got: {xml}"
    );
}

#[test]
fn test_serialize_updates_with_multiple_set_item_field_calendar_item_changes() {
    let request = update_item_with_updates(Updates {
        inner: vec![
            ItemChangeDescription::new_calendar_item_field(
                "calendar:End",
                Message {
                    end: Some(unix_epoch()),
                    ..Default::default()
                },
            ),
            ItemChangeDescription::new_calendar_item_field(
                "calendar:Location",
                Message {
                    location: Some("Room 1".to_string()),
                    ..Default::default()
                },
            ),
        ],
    });

    let expected = minify_xml(
        r#"
        <UpdateItem xmlns="http://schemas.microsoft.com/exchange/services/2006/messages" MessageDisposition="SaveOnly">
          <ItemChanges>
            <t:ItemChange>
              <t:ItemId Id="id"/>
              <t:Updates>
                <t:SetItemField>
                  <t:FieldURI FieldURI="calendar:End"/>
                  <t:CalendarItem><t:End>__END_PLACEHOLDER__</t:End></t:CalendarItem>
                </t:SetItemField>
                <t:SetItemField>
                  <t:FieldURI FieldURI="calendar:Location"/>
                  <t:CalendarItem><t:Location>Room 1</t:Location></t:CalendarItem>
                </t:SetItemField>
              </t:Updates>
            </t:ItemChange>
          </ItemChanges>
        </UpdateItem>"#,
    )
    .replace(
        "__END_PLACEHOLDER__",
        &time::OffsetDateTime::UNIX_EPOCH
            .format(&time::format_description::well_known::Iso8601::DEFAULT)
            .unwrap(),
    );

    assert_serialized_content(&request, "UpdateItem", &expected);
}
