use ews::create_item::CreateItem;
use ews::types::{BaseFolderId, Message, MessageDisposition, RealItem, SendMeetingInvitations};

/// Removes the indentation and line breaks between the tags of an XML
/// document written over several lines.
fn minify_xml(xml: &str) -> String {
    xml.lines().map(|line| line.trim()).collect::<Vec<_>>().concat()
}

fn assert_serialized_content(request: &CreateItem, root_name: &str, expected: &str) {
    let mut out = String::new();
    request.serialize_as_element(&mut out, root_name);
    assert_eq!(out, expected);
}

#[test]
fn test_serialize_create_item_send_meeting_invitations() {
    let request = CreateItem {
        message_disposition: None,
        send_meeting_invitations: Some(SendMeetingInvitations::SendToAllAndSaveCopy),
        saved_item_folder_id: Some(BaseFolderId::new_distinguished("calendar")),
        items: vec![RealItem::CalendarItem(Message::default())],
    };

    let expected = minify_xml(
        r#"
        <CreateItem xmlns="http://schemas.microsoft.com/exchange/services/2006/messages" SendMeetingInvitations="SendToAllAndSaveCopy">
          <SavedItemFolderId>
            <t:DistinguishedFolderId Id="calendar"></t:DistinguishedFolderId>
          </SavedItemFolderId>
          <Items>
            <t:CalendarItem></t:CalendarItem>
          </Items>
        </CreateItem>"#,
    );

    assert_serialized_content(&request, "CreateItem", &expected);
}

#[test]
fn test_serialize_create_item_message_disposition() {
    let request = CreateItem {
        message_disposition: Some(MessageDisposition::SendAndSaveCopy),
        send_meeting_invitations: None,
        saved_item_folder_id: None,
        items: vec![],
    };

    let expected = minify_xml(
        r#"
        <CreateItem xmlns="http://schemas.microsoft.com/exchange/services/2006/messages" MessageDisposition="SendAndSaveCopy">
          <Items></Items>
        </CreateItem>"#,
    );

    assert_serialized_content(&request, "CreateItem", &expected);
}

