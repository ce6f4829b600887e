//! The `UpdateItem` operation.
use vstd::prelude::*;

use crate::content::{entries_view, DeError, SpecXmlEntry, XmlEntry};
use crate::message_xml::result_view;
use crate::response::{items_field, read_operation_response, spec_items_field, spec_operation_response, Items, ResponseMessageBody, ResponseMessages, SpecResponseClass};
use crate::types::{SpecRealItem, 
    attributes_view, flat_nodes, lemma_flat_nodes_step, push_attribute, BaseItemId, Message,
    MessageDisposition, PathToElement, MESSAGES_NS_URI,
};
use crate::xml::{
    element, lemma_render_all_concat, lemma_render_all_push, lemma_render_all_single,
    lemma_render_element, optional_attribute, render, render_all, write_close_tag, write_open_tag,
    XmlNode,
};

verus! {

/// A request to update properties of one or more Exchange items.
///
/// See <https://learn.microsoft.com/en-us/exchange/client-developer/web-service-reference/updateitem>
#[derive(Clone, Debug)]
pub struct UpdateItem {
    /// The action the Exchange server will take upon updating this item.
    ///
    /// This field is required for and only applicable to `Message` items.
    pub message_disposition: MessageDisposition,
    /// The method the Exchange server will use to resolve conflicts between
    /// updates.
    ///
    /// If omitted, the server will default to `AutoResolve`.
    pub conflict_resolution: Option<ConflictResolution>,
    /// A list of items and their corresponding updates.
    pub item_changes: Vec<ItemChange>,
}

/// The method used by the Exchange server to resolve conflicts between item
/// updates.
#[derive(Clone, Copy, Debug, PartialEq, Eq)]
pub enum ConflictResolution {
    /// Conflicts will cause the update to fail and return an error.
    NeverOverwrite,
    /// The Exchange server will attempt to resolve any conflicts automatically.
    AutoResolve,
    /// Conflicting fields will be overwritten with the contents of the update.
    AlwaysOverwrite,
}

impl Default for ConflictResolution {
    fn default() -> (r: ConflictResolution)
        ensures
            r == ConflictResolution::AutoResolve,
    {
        ConflictResolution::AutoResolve
    }
}

impl ConflictResolution {
    /// The name the value is written as.
    pub open spec fn spec_text(self) -> Seq<char> {
        match self {
            ConflictResolution::NeverOverwrite => "NeverOverwrite"@,
            ConflictResolution::AutoResolve => "AutoResolve"@,
            ConflictResolution::AlwaysOverwrite => "AlwaysOverwrite"@,
        }
    }

    pub fn as_str(&self) -> (r: &'static str)
        ensures
            r@ == self.spec_text(),
    {
        match self {
            ConflictResolution::NeverOverwrite => "NeverOverwrite",
            ConflictResolution::AutoResolve => "AutoResolve",
            ConflictResolution::AlwaysOverwrite => "AlwaysOverwrite",
        }
    }
}

#[derive(Clone, Debug)]
pub struct ItemChange {
    pub item_change: ItemChangeInner,
}

/// One or more updates to a single item.
#[derive(Clone, Debug)]
pub struct ItemChangeInner {
    /// The ID of the item to be updated.
    pub item_id: BaseItemId,
    /// The changes to make to the item, including appending, setting, or
    /// deleting fields.
    pub updates: Updates,
}

/// A list of changes to fields, with each element representing a single change.
#[derive(Clone, Debug)]
pub struct Updates {
    pub inner: Vec<ItemChangeDescription>,
}

/// An individual change to a single field.
#[derive(Clone, Debug)]
pub enum ItemChangeDescription {
    /// An update setting the value of a single field.
    SetItemField {
        /// The field to be updated.
        field_uri: PathToElement,
        /// The new value of the specified field, wrapped in an element
        /// identifying the type of the item being updated.
        value: ItemChangeFieldValue,
    },
}

/// The new value of a field being set via [`ItemChangeDescription::SetItemField`].
///
/// EWS requires this value to be wrapped in an element matching the type of
/// the item being updated (e.g. `CalendarItem` for a calendar item), rather
/// than always using `Message`; the server rejects a request for a calendar
/// item's field wrapped in `Message` with `ErrorIncorrectUpdatePropertyCount`.
#[derive(Clone, Debug)]
pub enum ItemChangeFieldValue {
    Message(Message),
    CalendarItem(Message),
}

/// `d` sets the property named by `field_uri` to `message`, wrapped as a
/// message.
pub open spec fn sets_message_field(d: ItemChangeDescription, field_uri: Seq<char>, message: Message) -> bool {
    d matches ItemChangeDescription::SetItemField {
        field_uri: PathToElement::FieldURI { field_uri: u },
        value: ItemChangeFieldValue::Message(m),
    } && u@ == field_uri && m == message
}

/// `d` sets the property named by `field_uri` to `calendar_item`, wrapped as
/// a calendar item.
pub open spec fn sets_calendar_item_field(d: ItemChangeDescription, field_uri: Seq<char>, calendar_item: Message) -> bool {
    d matches ItemChangeDescription::SetItemField {
        field_uri: PathToElement::FieldURI { field_uri: u },
        value: ItemChangeFieldValue::CalendarItem(m),
    } && u@ == field_uri && m == calendar_item
}

impl ItemChangeDescription {
    /// Creates a `SetItemField` update for a `Message` item.
    pub fn new_message_field(field_uri: &str, message: Message) -> (r: Self)
        ensures
            sets_message_field(r, field_uri@, message),
    {
        ItemChangeDescription::SetItemField {
            field_uri: PathToElement::new_field_uri(field_uri),
            value: ItemChangeFieldValue::Message(message),
        }
    }

    /// Creates a `SetItemField` update for a calendar item.
    pub fn new_calendar_item_field(field_uri: &str, calendar_item: Message) -> (r: Self)
        ensures
            sets_calendar_item_field(r, field_uri@, calendar_item),
    {
        ItemChangeDescription::SetItemField {
            field_uri: PathToElement::new_field_uri(field_uri),
            value: ItemChangeFieldValue::CalendarItem(calendar_item),
        }
    }

    /// One `SetItemField` element: the path of the field, then the value
    /// element.
    pub open spec fn xml_nodes(self) -> Seq<XmlNode> {
        match self {
            ItemChangeDescription::SetItemField { field_uri, value } => seq![
                element("t:SetItemField"@, field_uri.xml_nodes() + value.xml_nodes()),
            ],
        }
    }

    pub fn serialize_child_nodes(&self, out: &mut String)
        ensures
            final(out)@ == old(out)@ + render_all(self.xml_nodes()),
    {
        let ghost start = out@;
        match self {
            ItemChangeDescription::SetItemField { field_uri, value } => {
                let no_attrs: Vec<(&str, &str)> = Vec::new();
                write_open_tag(out, "t:SetItemField", &no_attrs, false);
                let ghost mid = out@;
                field_uri.serialize_child_nodes(out);
                value.serialize_child_nodes(out);
                write_close_tag(out, "t:SetItemField");
                proof {
                    assert(attributes_view(no_attrs@) =~= seq![]);
                    lemma_render_all_concat(field_uri.xml_nodes(), value.xml_nodes());
                    let children = field_uri.xml_nodes() + value.xml_nodes();
                    lemma_render_element("t:SetItemField"@, seq![], children);
                    lemma_render_all_single(element("t:SetItemField"@, children));
                    assert(out@ =~= start + render_all(self.xml_nodes()));
                }
            },
        }
    }

    /// Writes the change as an element named `name` around its own element.
    pub fn serialize_as_element(&self, out: &mut String, name: &str)
        ensures
            final(out)@ == old(out)@ + render(element(name@, self.xml_nodes())),
    {
        let no_attrs: Vec<(&str, &str)> = Vec::new();
        write_open_tag(out, name, &no_attrs, false);
        self.serialize_child_nodes(out);
        write_close_tag(out, name);
        proof {
            assert(attributes_view(no_attrs@) =~= seq![]);
        }
    }
}

impl ItemChangeFieldValue {
    /// The value element, named after the kind of item.
    pub open spec fn xml_nodes(self) -> Seq<XmlNode> {
        match self {
            ItemChangeFieldValue::Message(m) => seq![m.xml_element("t:Message"@)],
            ItemChangeFieldValue::CalendarItem(m) => seq![m.xml_element("t:CalendarItem"@)],
        }
    }

    pub fn serialize_child_nodes(&self, out: &mut String)
        ensures
            final(out)@ == old(out)@ + render_all(self.xml_nodes()),
    {
        match self {
            ItemChangeFieldValue::Message(m) => m.serialize_as_element(out, "t:Message"),
            ItemChangeFieldValue::CalendarItem(m) => m.serialize_as_element(out, "t:CalendarItem"),
        }
        proof {
            lemma_render_all_single(self.xml_nodes()[0]);
            assert(self.xml_nodes() =~= seq![self.xml_nodes()[0]]);
        }
    }
}

impl Updates {
    /// The changes, one after the other.
    pub open spec fn xml_nodes(self) -> Seq<XmlNode> {
        flat_nodes(self.inner@, |d: ItemChangeDescription| d.xml_nodes())
    }

    pub fn serialize_child_nodes(&self, out: &mut String)
        ensures
            final(out)@ == old(out)@ + render_all(self.xml_nodes()),
    {
        let ghost start = out@;
        let ghost f = |d: ItemChangeDescription| d.xml_nodes();
        let mut i: usize = 0;
        proof {
            assert(self.inner@.take(0) =~= Seq::<ItemChangeDescription>::empty());
            assert(out@ =~= start + render_all(flat_nodes(self.inner@.take(0), f)));
        }
        while i < self.inner.len()
            invariant
                i <= self.inner.len(),
                f == (|d: ItemChangeDescription| d.xml_nodes()),
                out@ == start + render_all(flat_nodes(self.inner@.take(i as int), f)),
            decreases self.inner.len() - i,
        {
            self.inner[i].serialize_child_nodes(out);
            proof {
                lemma_flat_nodes_step(self.inner@, i as int, f);
            }
            i += 1;
        }
        proof {
            assert(self.inner@.take(i as int) =~= self.inner@);
        }
    }
}

impl ItemChangeInner {
    /// The item's ID, then its `Updates`.
    pub open spec fn xml_nodes(self) -> Seq<XmlNode> {
        self.item_id.xml_nodes() + seq![element("t:Updates"@, self.updates.xml_nodes())]
    }

    pub fn serialize_child_nodes(&self, out: &mut String)
        ensures
            final(out)@ == old(out)@ + render_all(self.xml_nodes()),
    {
        let ghost start = out@;
        self.item_id.serialize_child_nodes(out);
        let ghost mid = out@;
        let no_attrs: Vec<(&str, &str)> = Vec::new();
        write_open_tag(out, "t:Updates", &no_attrs, false);
        self.updates.serialize_child_nodes(out);
        write_close_tag(out, "t:Updates");
        proof {
            assert(attributes_view(no_attrs@) =~= seq![]);
            let u = element("t:Updates"@, self.updates.xml_nodes());
            lemma_render_element("t:Updates"@, seq![], self.updates.xml_nodes());
            assert(out@ =~= mid + render(u));
            lemma_render_all_push(self.item_id.xml_nodes(), u);
            assert(self.item_id.xml_nodes().push(u) =~= self.xml_nodes());
        }
    }
}

impl ItemChange {
    /// One `t:ItemChange` element.
    pub open spec fn xml_nodes(self) -> Seq<XmlNode> {
        seq![element("t:ItemChange"@, self.item_change.xml_nodes())]
    }

    pub fn serialize_child_nodes(&self, out: &mut String)
        ensures
            final(out)@ == old(out)@ + render_all(self.xml_nodes()),
    {
        let ghost start = out@;
        let no_attrs: Vec<(&str, &str)> = Vec::new();
        write_open_tag(out, "t:ItemChange", &no_attrs, false);
        self.item_change.serialize_child_nodes(out);
        write_close_tag(out, "t:ItemChange");
        proof {
            assert(attributes_view(no_attrs@) =~= seq![]);
            let e = element("t:ItemChange"@, self.item_change.xml_nodes());
            lemma_render_element("t:ItemChange"@, seq![], self.item_change.xml_nodes());
            lemma_render_all_single(e);
            assert(out@ =~= start + render_all(self.xml_nodes()));
        }
    }
}

impl UpdateItem {
    /// The attributes of the request element: the messages namespace,
    /// `MessageDisposition`, then `ConflictResolution` where it is set.
    pub open spec fn xml_attributes(self) -> Seq<(Seq<char>, Seq<char>)> {
        seq![
            ("xmlns"@, MESSAGES_NS_URI@),
            ("MessageDisposition"@, self.message_disposition.spec_text()),
        ] + optional_attribute(
            "ConflictResolution"@,
            match self.conflict_resolution {
                Some(c) => Some(c.spec_text()),
                None => None,
            },
        )
    }

    /// The single child of the request element: `ItemChanges`, holding every
    /// item change in order.
    pub open spec fn xml_nodes(self) -> Seq<XmlNode> {
        seq![element("ItemChanges"@, flat_nodes(self.item_changes@, |c: ItemChange| c.xml_nodes()))]
    }

    pub open spec fn xml_element(self, name: Seq<char>) -> XmlNode {
        XmlNode::Element {
            name,
            attributes: self.xml_attributes(),
            content: Some(self.xml_nodes()),
        }
    }

    fn write_item_changes(&self, out: &mut String)
        ensures
            final(out)@ == old(out)@ + render_all(
                flat_nodes(self.item_changes@, |c: ItemChange| c.xml_nodes()),
            ),
    {
        let ghost start = out@;
        let ghost f = |c: ItemChange| c.xml_nodes();
        let mut i: usize = 0;
        proof {
            assert(self.item_changes@.take(0) =~= Seq::<ItemChange>::empty());
            assert(out@ =~= start + render_all(flat_nodes(self.item_changes@.take(0), f)));
        }
        while i < self.item_changes.len()
            invariant
                i <= self.item_changes.len(),
                f == (|c: ItemChange| c.xml_nodes()),
                out@ == start + render_all(flat_nodes(self.item_changes@.take(i as int), f)),
            decreases self.item_changes.len() - i,
        {
            self.item_changes[i].serialize_child_nodes(out);
            proof {
                lemma_flat_nodes_step(self.item_changes@, i as int, f);
            }
            i += 1;
        }
        proof {
            assert(self.item_changes@.take(i as int) =~= self.item_changes@);
        }
    }

    /// Writes the children of the request element.
    pub fn serialize_child_nodes(&self, out: &mut String)
        ensures
            final(out)@ == old(out)@ + render_all(self.xml_nodes()),
    {
        let ghost mid = out@;
        let no_attrs: Vec<(&str, &str)> = Vec::new();
        write_open_tag(out, "ItemChanges", &no_attrs, false);
        self.write_item_changes(out);
        write_close_tag(out, "ItemChanges");
        let ghost changes = flat_nodes(self.item_changes@, |c: ItemChange| c.xml_nodes());
        proof {
            assert(attributes_view(no_attrs@) =~= seq![]);
            lemma_render_element("ItemChanges"@, seq![], changes);
            lemma_render_all_single(element("ItemChanges"@, changes));
            assert(out@ =~= mid + render_all(self.xml_nodes()));
        }
    }

    /// Writes the request as an element named `name`.
    pub fn serialize_as_element(&self, out: &mut String, name: &str)
        ensures
            final(out)@ == old(out)@ + render(self.xml_element(name@)),
    {
        let ghost start = out@;
        let mut attrs: Vec<(&str, &str)> = Vec::new();
        push_attribute(&mut attrs, "xmlns", MESSAGES_NS_URI);
        push_attribute(&mut attrs, "MessageDisposition", self.message_disposition.as_str());
        match &self.conflict_resolution {
            Some(c) => push_attribute(&mut attrs, "ConflictResolution", c.as_str()),
            None => {},
        }
        proof {
            assert(attributes_view(attrs@) =~= self.xml_attributes());
        }
        write_open_tag(out, name, &attrs, false);
        self.serialize_child_nodes(out);
        write_close_tag(out, name);
        proof {
            lemma_render_element(name@, self.xml_attributes(), self.xml_nodes());
            assert(out@ =~= start + render(self.xml_element(name@)));
        }
    }
}

/// Each property of a message that is set is written as exactly one child
/// element of the message's element, and nothing else is.
pub proof fn law_message_element_has_one_child_per_set_property(m: Message)
    ensures
        m.xml_nodes().len() == m.set_property_count(),
        forall|i: int| 0 <= i < m.xml_nodes().len() ==> (#[trigger] m.xml_nodes()[i]) is Element,
{
}

/// A `SetItemField` change is one element holding the path of the field,
/// then exactly one value element, named after the kind of item being
/// updated, whose children are the set properties of the new value.
pub proof fn law_set_item_field_wraps_one_value(d: ItemChangeDescription)
    ensures
        d.xml_nodes().len() == 1,
        ({
            let ItemChangeDescription::SetItemField { field_uri, value } = d;
            let (kind, m) = match value {
                ItemChangeFieldValue::Message(m) => ("t:Message"@, m),
                ItemChangeFieldValue::CalendarItem(m) => ("t:CalendarItem"@, m),
            };
            &&& d.xml_nodes()[0] == element(
                "t:SetItemField"@,
                field_uri.xml_nodes() + seq![element(kind, m.xml_nodes())],
            )
            &&& field_uri.xml_nodes().len() == 1
            &&& m.xml_nodes().len() == m.set_property_count()
        }),
{
}

/// For the same field and the same new value, the two constructors give
/// changes that differ only in the element wrapping the value: the same path
/// of the field, the same message, and the same XML but for `t:Message`
/// against `t:CalendarItem`.
pub proof fn law_field_constructors_differ_only_in_wrapper(
    a: ItemChangeDescription,
    b: ItemChangeDescription,
    field_uri: Seq<char>,
    message: Message,
)
    requires
        sets_message_field(a, field_uri, message),
        sets_calendar_item_field(b, field_uri, message),
    ensures
        a->field_uri.xml_nodes() == b->field_uri.xml_nodes(),
        a->value == ItemChangeFieldValue::Message(message),
        b->value == ItemChangeFieldValue::CalendarItem(message),
        a.xml_nodes() == seq![element(
            "t:SetItemField"@,
            a->field_uri.xml_nodes() + seq![message.xml_element("t:Message"@)],
        )],
        b.xml_nodes() == seq![element(
            "t:SetItemField"@,
            a->field_uri.xml_nodes() + seq![message.xml_element("t:CalendarItem"@)],
        )],
{
}

/// A response message to an `UpdateItem` request: the updated items.
#[derive(Clone, Debug, Eq, PartialEq)]
pub struct UpdateItemResponseMessage {
    pub items: Items,
}

impl View for UpdateItemResponseMessage {
    type V = Seq<SpecRealItem>;

    open spec fn view(&self) -> Seq<SpecRealItem> {
        self.items@
    }
}

impl ResponseMessageBody for UpdateItemResponseMessage {
    open spec fn spec_read(es: Seq<SpecXmlEntry>) -> Result<Seq<SpecRealItem>, DeError> {
        spec_items_field(es)
    }

    fn read(es: &Vec<XmlEntry>) -> (r: Result<UpdateItemResponseMessage, DeError>) {
        let items = items_field(es)?;
        Ok(UpdateItemResponseMessage { items })
    }
}

/// The response to an `UpdateItem` request.
#[derive(Clone, Debug, PartialEq, Eq)]
pub struct UpdateItemResponse {
    pub response_messages: ResponseMessages<UpdateItemResponseMessage>,
}

impl View for UpdateItemResponse {
    type V = Seq<SpecResponseClass<Seq<SpecRealItem>>>;

    open spec fn view(&self) -> Seq<SpecResponseClass<Seq<SpecRealItem>>> {
        self.response_messages@
    }
}

impl UpdateItemResponse {
    /// Reads an `UpdateItem` response from the entries of its root element, as
    /// a deserializer presents them: the root's attributes under `@` keys,
    /// its child elements under their local names.
    pub fn from_entries(es: &Vec<XmlEntry>) -> (r: Result<UpdateItemResponse, DeError>)
        ensures
            result_view(r) == spec_operation_response::<UpdateItemResponseMessage>(entries_view(es@)),
    {
        let response_messages = read_operation_response::<UpdateItemResponseMessage>(es)?;
        Ok(UpdateItemResponse { response_messages })
    }
}


/// Each conflict resolution is written as its own variant name, so two different values
/// are never written alike.
pub proof fn law_conflict_resolution_written_by_name(a: ConflictResolution, b: ConflictResolution)
    ensures
        ConflictResolution::NeverOverwrite.spec_text() == "NeverOverwrite"@,
        ConflictResolution::AutoResolve.spec_text() == "AutoResolve"@,
        ConflictResolution::AlwaysOverwrite.spec_text() == "AlwaysOverwrite"@,
        a.spec_text() == b.spec_text() ==> a == b,
{
    reveal_strlit("NeverOverwrite");
    reveal_strlit("AutoResolve");
    reveal_strlit("AlwaysOverwrite");
    if a.spec_text() == b.spec_text() && a != b {
        assert(a.spec_text().len() != b.spec_text().len() || a.spec_text()[1] != b.spec_text()[1]);
    }
}

} // verus!
