//! The `CreateItem` operation.
use vstd::prelude::*;

use crate::content::{entries_view, DeError, XmlEntry};
use crate::message_xml::result_view;
use crate::response::{read_operation_response, spec_operation_response, ItemResponseMessage, ResponseMessages, SpecResponseClass};
use crate::types::{SpecRealItem, 
    attributes_view, items_nodes, push_attribute, serialize_items, BaseFolderId,
    MessageDisposition, RealItem, SendMeetingInvitations, MESSAGES_NS_URI,
};
use crate::xml::{
    element, lemma_render_element, lemma_render_all_concat, lemma_render_all_push, lemma_render_all_single,
    optional_attribute, render, render_all, write_close_tag, write_open_tag, XmlNode,
};

verus! {

/// A request to create (and optionally send) one or more Exchange items.
///
/// See <https://learn.microsoft.com/en-us/exchange/client-developer/web-service-reference/createitem>
#[derive(Clone, Debug)]
pub struct CreateItem {
    /// The action the Exchange server will take upon creating this item.
    ///
    /// This field is required for and only applicable to `Message` items.
    pub message_disposition: Option<MessageDisposition>,
    /// Whether/how meeting invitations are sent to attendees.
    ///
    /// This field is required for and only applicable to calendar items.
    pub send_meeting_invitations: Option<SendMeetingInvitations>,
    /// The folder in which to store an item once it has been created.
    ///
    /// This is ignored if `message_disposition` is `SendOnly`.
    pub saved_item_folder_id: Option<BaseFolderId>,
    /// The item or items to create.
    pub items: Vec<RealItem>,
}

impl CreateItem {
    /// The attributes of the request element: the messages namespace, then
    /// `MessageDisposition` and `SendMeetingInvitations` where they are set.
    pub open spec fn xml_attributes(self) -> Seq<(Seq<char>, Seq<char>)> {
        seq![("xmlns"@, MESSAGES_NS_URI@)] + optional_attribute(
            "MessageDisposition"@,
            match self.message_disposition {
                Some(m) => Some(m.spec_text()),
                None => None,
            },
        ) + optional_attribute(
            "SendMeetingInvitations"@,
            match self.send_meeting_invitations {
                Some(s) => Some(s.spec_text()),
                None => None,
            },
        )
    }

    /// The children of the request element: `SavedItemFolderId` where it is
    /// set, then `Items` with one element per item.
    pub open spec fn xml_nodes(self) -> Seq<XmlNode> {
        let folder = match self.saved_item_folder_id {
            Some(f) => seq![f.xml_element("SavedItemFolderId"@)],
            None => seq![],
        };
        folder + seq![element("Items"@, items_nodes(self.items@))]
    }

    pub open spec fn xml_element(self, name: Seq<char>) -> XmlNode {
        XmlNode::Element {
            name,
            attributes: self.xml_attributes(),
            content: Some(self.xml_nodes()),
        }
    }

    /// Writes the request as an element named `name`.
    pub fn serialize_as_element(&self, out: &mut String, name: &str)
        ensures
            final(out)@ == old(out)@ + render(self.xml_element(name@)),
    {
        let ghost start = out@;
        let mut attrs: Vec<(&str, &str)> = Vec::new();
        push_attribute(&mut attrs, "xmlns", MESSAGES_NS_URI);
        let ghost a0 = attributes_view(attrs@);
        match &self.message_disposition {
            Some(m) => push_attribute(&mut attrs, "MessageDisposition", m.as_str()),
            None => {},
        }
        let ghost a1 = attributes_view(attrs@);
        match &self.send_meeting_invitations {
            Some(s) => push_attribute(&mut attrs, "SendMeetingInvitations", s.as_str()),
            None => {},
        }
        proof {
            assert(attributes_view(attrs@) =~= self.xml_attributes());
        }
        write_open_tag(out, name, &attrs, false);
        self.serialize_child_nodes(out);
        write_close_tag(out, name);
        proof {
            lemma_render_element(name@, self.xml_attributes(), self.xml_nodes());
            assert(out@ =~= start + render(self.xml_element(name@)));
        }
    }

    /// Writes the children of the request element.
    pub fn serialize_child_nodes(&self, out: &mut String)
        ensures
            final(out)@ == old(out)@ + render_all(self.xml_nodes()),
    {
        let ghost mid = out@;
        match &self.saved_item_folder_id {
            Some(f) => {
                f.serialize_as_element(out, "SavedItemFolderId");
                proof {
                    lemma_render_all_single(f.xml_element("SavedItemFolderId"@));
                }
            },
            None => {
                proof {
                    assert(out@ =~= mid + render_all(Seq::<XmlNode>::empty()));
                }
            },
        }
        let ghost folder = if self.saved_item_folder_id is Some {
            seq![self.saved_item_folder_id->Some_0.xml_element("SavedItemFolderId"@)]
        } else {
            Seq::<XmlNode>::empty()
        };
        assert(out@ == mid + render_all(folder));
        self.write_items_element(out);
        let ghost items = element("Items"@, items_nodes(self.items@));
        proof {
            lemma_render_all_push(folder, items);
            assert(folder.push(items) =~= self.xml_nodes());
        }
    }

    fn write_items_element(&self, out: &mut String)
        ensures
            final(out)@ == old(out)@ + render(element("Items"@, items_nodes(self.items@))),
    {
        let ghost start = out@;
        let no_attrs: Vec<(&str, &str)> = Vec::new();
        write_open_tag(out, "Items", &no_attrs, false);
        serialize_items(&self.items, out);
        write_close_tag(out, "Items");
        proof {
            assert(attributes_view(no_attrs@) =~= seq![]);
            lemma_render_element("Items"@, seq![], items_nodes(self.items@));
            assert(out@ =~= start + render(element("Items"@, items_nodes(self.items@))));
        }
    }
}

/// The response to a `CreateItem` request.
#[derive(Clone, Debug, PartialEq, Eq)]
pub struct CreateItemResponse {
    pub response_messages: ResponseMessages<ItemResponseMessage>,
}

impl View for CreateItemResponse {
    type V = Seq<SpecResponseClass<Seq<SpecRealItem>>>;

    open spec fn view(&self) -> Seq<SpecResponseClass<Seq<SpecRealItem>>> {
        self.response_messages@
    }
}

impl CreateItemResponse {
    /// Reads a `CreateItem` response from the entries of its root element, as
    /// a deserializer presents them: the root's attributes under `@` keys,
    /// its child elements under their local names.
    pub fn from_entries(es: &Vec<XmlEntry>) -> (r: Result<CreateItemResponse, DeError>)
        ensures
            result_view(r) == spec_operation_response::<ItemResponseMessage>(entries_view(es@)),
    {
        let response_messages = read_operation_response::<ItemResponseMessage>(es)?;
        Ok(CreateItemResponse { response_messages })
    }
}

} // verus!
