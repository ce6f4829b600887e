use ews::create_item::CreateItem;
use ews::types::{
    BaseFolderId, BaseItemId, DateTime, Mailbox, Message, MessageDisposition, PathToElement,
    RealItem,
};
use ews::update_item::{
    ConflictResolution, ItemChange, ItemChangeDescription, ItemChangeFieldValue, ItemChangeInner,
    UpdateItem, Updates,
};

#[test]
fn conflict_resolution_defaults_to_auto_resolve() {
    assert_eq!(ConflictResolution::default(), ConflictResolution::AutoResolve);
}

#[test]
fn text_and_attribute_values_are_escaped() {
    let message = Message {
        subject: Some("a < b & \"c\" > 'd'".to_string()),
        ..Default::default()
    };
    let mut out = String::new();
    message.serialize_as_element(&mut out, "t:Message");
    assert_eq!(
        out,
        "<t:Message><t:Subject>a &lt; b &amp; &quot;c&quot; &gt; &apos;d&apos;</t:Subject></t:Message>"
    );

    let mut out = String::new();
    BaseItemId::ItemId { id: "x\"&y".to_string(), change_key: Some("<k>".to_string()) }
        .serialize_child_nodes(&mut out);
    assert_eq!(out, "<t:ItemId Id=\"x&quot;&amp;y\" ChangeKey=\"&lt;k&gt;\"/>");
}

#[test]
fn message_properties_are_written_in_order() {
    let message = Message {
        subject: Some("S".to_string()),
        start: Some(DateTime::from_unix_timestamp(0).unwrap()),
        end: Some(DateTime::from_unix_timestamp(86400).unwrap()),
        location: Some("L".to_string()),
    };
    let mut out = String::new();
    message.serialize_child_nodes(&mut out);
    assert_eq!(
        out,
        "<t:Subject>S</t:Subject><t:Start>1970-01-01T00:00:00.000000000Z</t:Start><t:End>1970-01-02T00:00:00.000000000Z</t:End><t:Location>L</t:Location>"
    );
}

#[test]
fn date_time_out_of_range_is_refused() {
    assert!(DateTime::from_unix_timestamp(i64::MAX).is_none());
    assert!(DateTime::from_unix_timestamp(i64::MIN).is_none());
    assert_eq!(DateTime::from_unix_timestamp(-1).unwrap().unix_timestamp_nanos(), -1_000_000_000);
    assert_eq!(
        DateTime::from_unix_timestamp_nanos(1_500_000_000)
            .unwrap()
            .unix_timestamp_nanos(),
        1_500_000_000
    );
    assert!(DateTime::from_unix_timestamp_nanos(i128::MAX).is_none());
}

#[test]
fn folder_ids_and_mailboxes() {
    let mut out = String::new();
    BaseFolderId::FolderId { id: "f".to_string(), change_key: Some("c".to_string()) }
        .serialize_as_element(&mut out, "SavedItemFolderId");
    assert_eq!(out, "<SavedItemFolderId><t:FolderId Id=\"f\" ChangeKey=\"c\"/></SavedItemFolderId>");

    let mut out = String::new();
    BaseFolderId::DistinguishedFolderId {
        id: "inbox".to_string(),
        change_key: None,
        mailbox: Some(Mailbox { name: None, email_address: "a@b.c".to_string() }),
    }
    .serialize_child_nodes(&mut out);
    assert_eq!(
        out,
        "<t:DistinguishedFolderId Id=\"inbox\"><t:Mailbox><t:EmailAddress>a@b.c</t:EmailAddress></t:Mailbox></t:DistinguishedFolderId>"
    );
}

#[test]
fn create_item_with_messages_and_both_attributes() {
    let request = CreateItem {
        message_disposition: Some(MessageDisposition::SendOnly),
        send_meeting_invitations: None,
        saved_item_folder_id: None,
        items: vec![
            RealItem::Message(Message { subject: Some("Hi".to_string()), ..Default::default() }),
            RealItem::Message(Message::default()),
        ],
    };
    let mut out = String::new();
    request.serialize_as_element(&mut out, "CreateItem");
    assert_eq!(
        out,
        "<CreateItem xmlns=\"http://schemas.microsoft.com/exchange/services/2006/messages\" MessageDisposition=\"SendOnly\"><Items><t:Message><t:Subject>Hi</t:Subject></t:Message><t:Message></t:Message></Items></CreateItem>"
    );
}

#[test]
fn update_item_with_conflict_resolution_and_indexed_field() {
    let request = UpdateItem {
        message_disposition: MessageDisposition::SendAndSaveCopy,
        conflict_resolution: Some(ConflictResolution::AlwaysOverwrite),
        item_changes: vec![ItemChange {
            item_change: ItemChangeInner {
                item_id: BaseItemId::ItemId { id: "i".to_string(), change_key: Some("k".to_string()) },
                updates: Updates {
                    inner: vec![ItemChangeDescription::SetItemField {
                        field_uri: PathToElement::IndexedFieldURI {
                            field_uri: "contacts:EmailAddress".to_string(),
                            field_index: "EmailAddress1".to_string(),
                        },
                        value: ItemChangeFieldValue::Message(Message::default()),
                    }],
                },
            },
        }],
    };
    let mut out = String::new();
    request.serialize_as_element(&mut out, "UpdateItem");
    assert_eq!(
        out,
        "<UpdateItem xmlns=\"http://schemas.microsoft.com/exchange/services/2006/messages\" MessageDisposition=\"SendAndSaveCopy\" ConflictResolution=\"AlwaysOverwrite\"><ItemChanges><t:ItemChange><t:ItemId Id=\"i\" ChangeKey=\"k\"/><t:Updates><t:SetItemField><t:IndexedFieldURI FieldURI=\"contacts:EmailAddress\" FieldIndex=\"EmailAddress1\"/><t:Message></t:Message></t:SetItemField></t:Updates></t:ItemChange></ItemChanges></UpdateItem>"
    );
}

#[test]
fn set_item_field_constructors_wrap_value_by_item_kind() {
    let message = Message { location: Some("Room".to_string()), ..Default::default() };
    match ItemChangeDescription::new_message_field("item:Location", message.clone()) {
        ItemChangeDescription::SetItemField { field_uri, value } => {
            assert!(matches!(field_uri, PathToElement::FieldURI { field_uri } if field_uri == "item:Location"));
            assert!(matches!(value, ItemChangeFieldValue::Message(m) if m == message));
        }
    }
    match ItemChangeDescription::new_calendar_item_field("calendar:Location", message.clone()) {
        ItemChangeDescription::SetItemField { field_uri, value } => {
            assert!(matches!(field_uri, PathToElement::FieldURI { field_uri } if field_uri == "calendar:Location"));
            assert!(matches!(value, ItemChangeFieldValue::CalendarItem(m) if m == message));
        }
    }
    // Exactly one property inside the value element.
    let mut out = String::new();
    ItemChangeDescription::new_calendar_item_field("calendar:Location", message)
        .serialize_child_nodes(&mut out);
    assert_eq!(
        out,
        "<t:SetItemField><t:FieldURI FieldURI=\"calendar:Location\"/><t:CalendarItem><t:Location>Room</t:Location></t:CalendarItem></t:SetItemField>"
    );
}


#[test]
fn field_constructors_differ_only_in_the_wrapper() {
    let message = Message {
        subject: Some("Review".to_string()),
        start: Some(DateTime::from_unix_timestamp(0).unwrap()),
        ..Default::default()
    };
    let copy = message.clone();
    assert_eq!(copy, message);
    let mut as_message = String::new();
    ItemChangeDescription::new_message_field("calendar:Start", copy)
        .serialize_child_nodes(&mut as_message);
    let mut as_calendar_item = String::new();
    ItemChangeDescription::new_calendar_item_field("calendar:Start", message)
        .serialize_child_nodes(&mut as_calendar_item);
    assert_eq!(
        as_message,
        "<t:SetItemField><t:FieldURI FieldURI=\"calendar:Start\"/><t:Message><t:Subject>Review</t:Subject><t:Start>1970-01-01T00:00:00.000000000Z</t:Start></t:Message></t:SetItemField>"
    );
    assert_eq!(as_calendar_item, as_message.replace("t:Message", "t:CalendarItem"));
}
