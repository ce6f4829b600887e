//! Data types shared by EWS operations, and the XML they are written as.
use vstd::prelude::*;

use crate::xml::{
    element, lemma_render_all_concat, lemma_render_all_push, lemma_render_all_single, open_tag,
    optional_attribute, optional_text_element, render, render_all, text_element, write_close_tag,
    write_open_tag, write_text_element, XmlNode,
};

verus! {

/// The namespace of EWS messages (requests and responses).
pub const MESSAGES_NS_URI: &'static str = "http://schemas.microsoft.com/exchange/services/2006/messages";

/// The nodes of a sequence of values, each contributing its own nodes, in order.
pub open spec fn flat_nodes<T>(s: Seq<T>, f: spec_fn(T) -> Seq<XmlNode>) -> Seq<XmlNode>
    decreases s.len(),
{
    if s.len() == 0 {
        seq![]
    } else {
        flat_nodes(s.drop_last(), f) + f(s.last())
    }
}

pub proof fn lemma_flat_nodes_step<T>(s: Seq<T>, i: int, f: spec_fn(T) -> Seq<XmlNode>)
    requires
        0 <= i < s.len(),
    ensures
        flat_nodes(s.take(i + 1), f) == flat_nodes(s.take(i), f) + f(s[i]),
        render_all(flat_nodes(s.take(i + 1), f)) == render_all(flat_nodes(s.take(i), f)) + render_all(
            f(s[i]),
        ),
{
    assert(s.take(i + 1).drop_last() =~= s.take(i));
    assert(s.take(i + 1).last() == s[i]);
    lemma_render_all_concat(flat_nodes(s.take(i), f), f(s[i]));
}

/// The view of an attribute list built from string slices.
pub open spec fn attributes_view(a: Seq<(&str, &str)>) -> Seq<(Seq<char>, Seq<char>)> {
    a.map_values(|p: (&str, &str)| (p.0@, p.1@))
}

/// Pushes an attribute onto a list, keeping track of the list's view.
pub(crate) fn push_attribute<'a>(attrs: &mut Vec<(&'a str, &'a str)>, name: &'a str, value: &'a str)
    ensures
        attributes_view(final(attrs)@) == attributes_view(old(attrs)@) + seq![(name@, value@)],
{
    attrs.push((name, value));
    proof {
        assert(attributes_view(attrs@) =~= attributes_view(old(attrs)@) + seq![(name@, value@)]);
    }
}

/// Pushes an attribute onto a list if `value` is present.
pub(crate) fn push_optional_attribute<'a>(
    attrs: &mut Vec<(&'a str, &'a str)>,
    name: &'a str,
    value: &'a Option<String>,
)
    ensures
        attributes_view(final(attrs)@) == attributes_view(old(attrs)@) + optional_attribute(
            name@,
            match value {
                Some(v) => Some(v@),
                None => None,
            },
        ),
{
    match value {
        Some(v) => push_attribute(attrs, name, v.as_str()),
        None => {
            proof {
                assert(attributes_view(attrs@) =~= attributes_view(attrs@) + seq![]);
            }
        },
    }
}

/// Writes an element with no children and the given attributes.
pub(crate) fn write_empty_element(out: &mut String, name: &str, attrs: &Vec<(&str, &str)>)
    ensures
        final(out)@ == old(out)@ + render(
            XmlNode::Element { name: name@, attributes: attributes_view(attrs@), content: None },
        ),
{
    write_open_tag(out, name, attrs, true);
}

/// Writes an optional text element.
pub(crate) fn write_optional_text_element(out: &mut String, name: &str, text: &Option<String>)
    ensures
        final(out)@ == old(out)@ + render_all(optional_text_element(name@, *text)),
{
    match text {
        Some(t) => {
            write_text_element(out, name, t.as_str());
            proof {
                lemma_render_all_single(text_element(name@, t@));
            }
        },
        None => {
            proof {
                assert(old(out)@ + render_all(Seq::<XmlNode>::empty()) =~= old(out)@);
            }
        },
    }
}

/// What a message should do with an item once it is created or updated.
#[derive(Clone, Copy, Debug, PartialEq, Eq)]
pub enum MessageDisposition {
    SaveOnly,
    SendOnly,
    SendAndSaveCopy,
}

impl MessageDisposition {
    /// The name the value is written as.
    pub open spec fn spec_text(self) -> Seq<char> {
        match self {
            MessageDisposition::SaveOnly => "SaveOnly"@,
            MessageDisposition::SendOnly => "SendOnly"@,
            MessageDisposition::SendAndSaveCopy => "SendAndSaveCopy"@,
        }
    }

    pub fn as_str(&self) -> (r: &'static str)
        ensures
            r@ == self.spec_text(),
    {
        match self {
            MessageDisposition::SaveOnly => "SaveOnly",
            MessageDisposition::SendOnly => "SendOnly",
            MessageDisposition::SendAndSaveCopy => "SendAndSaveCopy",
        }
    }
}

/// Whether and how meeting invitations are sent to attendees.
#[derive(Clone, Copy, Debug, PartialEq, Eq)]
pub enum SendMeetingInvitations {
    SendToNone,
    SendOnlyToAll,
    SendToAllAndSaveCopy,
}

impl SendMeetingInvitations {
    /// The name the value is written as.
    pub open spec fn spec_text(self) -> Seq<char> {
        match self {
            SendMeetingInvitations::SendToNone => "SendToNone"@,
            SendMeetingInvitations::SendOnlyToAll => "SendOnlyToAll"@,
            SendMeetingInvitations::SendToAllAndSaveCopy => "SendToAllAndSaveCopy"@,
        }
    }

    pub fn as_str(&self) -> (r: &'static str)
        ensures
            r@ == self.spec_text(),
    {
        match self {
            SendMeetingInvitations::SendToNone => "SendToNone",
            SendMeetingInvitations::SendOnlyToAll => "SendOnlyToAll",
            SendMeetingInvitations::SendToAllAndSaveCopy => "SendToAllAndSaveCopy",
        }
    }
}

/// A mailbox: an email address and, optionally, its owner's name.
#[derive(Clone, Debug, PartialEq, Eq)]
pub struct Mailbox {
    pub name: Option<String>,
    pub email_address: String,
}

impl Mailbox {
    pub open spec fn xml_nodes(self) -> Seq<XmlNode> {
        optional_text_element("t:Name"@, self.name) + seq![
            text_element("t:EmailAddress"@, self.email_address@),
        ]
    }

    pub open spec fn xml_element(self, name: Seq<char>) -> XmlNode {
        element(name, self.xml_nodes())
    }

    pub fn serialize_child_nodes(&self, out: &mut String)
        ensures
            final(out)@ == old(out)@ + render_all(self.xml_nodes()),
    {
        let ghost start = out@;
        write_optional_text_element(out, "t:Name", &self.name);
        write_text_element(out, "t:EmailAddress", self.email_address.as_str());
        proof {
            let a = optional_text_element("t:Name"@, self.name);
            let b = text_element("t:EmailAddress"@, self.email_address@);
            lemma_render_all_push(a, b);
            assert(a.push(b) =~= self.xml_nodes());
        }
    }

    pub fn serialize_as_element(&self, out: &mut String, name: &str)
        ensures
            final(out)@ == old(out)@ + render(self.xml_element(name@)),
    {
        let attrs: Vec<(&str, &str)> = Vec::new();
        write_open_tag(out, name, &attrs, false);
        self.serialize_child_nodes(out);
        write_close_tag(out, name);
        proof {
            assert(attributes_view(attrs@) =~= seq![]);
        }
    }
}

/// An identifier of a folder: by its ID, or by its well-known name.
#[derive(Clone, Debug, PartialEq, Eq)]
pub enum BaseFolderId {
    FolderId { id: String, change_key: Option<String> },
    DistinguishedFolderId { id: String, change_key: Option<String>, mailbox: Option<Mailbox> },
}

/// The `Id` attribute followed by an optional `ChangeKey` attribute.
pub open spec fn id_attributes(id: String, change_key: Option<String>) -> Seq<(Seq<char>, Seq<char>)> {
    seq![("Id"@, id@)] + optional_attribute(
        "ChangeKey"@,
        match change_key {
            Some(c) => Some(c@),
            None => None,
        },
    )
}

impl BaseFolderId {
    /// A well-known folder, such as `calendar` or `inbox`, of the user's own
    /// mailbox.
    pub fn new_distinguished(id: &str) -> (r: BaseFolderId)
        ensures
            r matches BaseFolderId::DistinguishedFolderId { id: i, change_key: None, mailbox: None }
                && i@ == id@,
    {
        BaseFolderId::DistinguishedFolderId { id: id.to_owned(), change_key: None, mailbox: None }
    }

    pub open spec fn xml_nodes(self) -> Seq<XmlNode> {
        match self {
            BaseFolderId::FolderId { id, change_key } => seq![
                XmlNode::Element {
                    name: "t:FolderId"@,
                    attributes: id_attributes(id, change_key),
                    content: None,
                },
            ],
            BaseFolderId::DistinguishedFolderId { id, change_key, mailbox } => seq![
                XmlNode::Element {
                    name: "t:DistinguishedFolderId"@,
                    attributes: id_attributes(id, change_key),
                    content: Some(
                        match mailbox {
                            Some(m) => seq![m.xml_element("t:Mailbox"@)],
                            None => seq![],
                        },
                    ),
                },
            ],
        }
    }

    pub open spec fn xml_element(self, name: Seq<char>) -> XmlNode {
        element(name, self.xml_nodes())
    }

    pub fn serialize_child_nodes(&self, out: &mut String)
        ensures
            final(out)@ == old(out)@ + render_all(self.xml_nodes()),
    {
        let ghost start = out@;
        match self {
            BaseFolderId::FolderId { id, change_key } => {
                let mut attrs: Vec<(&str, &str)> = Vec::new();
                push_attribute(&mut attrs, "Id", id.as_str());
                push_optional_attribute(&mut attrs, "ChangeKey", change_key);
                proof {
                    assert(attributes_view(attrs@) =~= id_attributes(*id, *change_key));
                }
                write_empty_element(out, "t:FolderId", &attrs);
            },
            BaseFolderId::DistinguishedFolderId { id, change_key, mailbox } => {
                let mut attrs: Vec<(&str, &str)> = Vec::new();
                push_attribute(&mut attrs, "Id", id.as_str());
                push_optional_attribute(&mut attrs, "ChangeKey", change_key);
                proof {
                    assert(attributes_view(attrs@) =~= id_attributes(*id, *change_key));
                }
                write_open_tag(out, "t:DistinguishedFolderId", &attrs, false);
                let ghost mid = out@;
                match mailbox {
                    Some(m) => {
                        m.serialize_as_element(out, "t:Mailbox");
                        proof {
                            lemma_render_all_single(m.xml_element("t:Mailbox"@));
                        }
                    },
                    None => {
                        proof {
                            assert(out@ =~= mid + render_all(Seq::<XmlNode>::empty()));
                        }
                    },
                }
                write_close_tag(out, "t:DistinguishedFolderId");
            },
        }
        proof {
            let ns = self.xml_nodes();
            lemma_render_all_single(ns[0]);
            assert(ns =~= seq![ns[0]]);
            assert(out@ =~= start + render_all(ns));
        }
    }

    pub fn serialize_as_element(&self, out: &mut String, name: &str)
        ensures
            final(out)@ == old(out)@ + render(self.xml_element(name@)),
    {
        let attrs: Vec<(&str, &str)> = Vec::new();
        write_open_tag(out, name, &attrs, false);
        self.serialize_child_nodes(out);
        write_close_tag(out, name);
        proof {
            assert(attributes_view(attrs@) =~= seq![]);
        }
    }
}

/// An identifier of an item.
#[derive(Clone, Debug, PartialEq, Eq)]
pub enum BaseItemId {
    ItemId { id: String, change_key: Option<String> },
}

impl BaseItemId {
    pub open spec fn xml_nodes(self) -> Seq<XmlNode> {
        match self {
            BaseItemId::ItemId { id, change_key } => seq![
                XmlNode::Element {
                    name: "t:ItemId"@,
                    attributes: id_attributes(id, change_key),
                    content: None,
                },
            ],
        }
    }

    pub fn serialize_child_nodes(&self, out: &mut String)
        ensures
            final(out)@ == old(out)@ + render_all(self.xml_nodes()),
    {
        match self {
            BaseItemId::ItemId { id, change_key } => {
                let mut attrs: Vec<(&str, &str)> = Vec::new();
                push_attribute(&mut attrs, "Id", id.as_str());
                push_optional_attribute(&mut attrs, "ChangeKey", change_key);
                proof {
                    assert(attributes_view(attrs@) =~= id_attributes(*id, *change_key));
                    lemma_render_all_single(self.xml_nodes()[0]);
                    assert(self.xml_nodes() =~= seq![self.xml_nodes()[0]]);
                }
                write_empty_element(out, "t:ItemId", &attrs);
            },
        }
    }
}

/// The path to a field of an item.
#[derive(Clone, Debug, PartialEq, Eq)]
pub enum PathToElement {
    /// A property, identified by its URI (e.g. `calendar:End`).
    FieldURI { field_uri: String },
    /// One entry of a property that is a dictionary.
    IndexedFieldURI { field_uri: String, field_index: String },
}

impl PathToElement {
    /// A path naming a property by its URI.
    pub fn new_field_uri(field_uri: &str) -> (r: PathToElement)
        ensures
            r matches PathToElement::FieldURI { field_uri: u } && u@ == field_uri@,
    {
        PathToElement::FieldURI { field_uri: field_uri.to_owned() }
    }

    pub open spec fn xml_nodes(self) -> Seq<XmlNode> {
        match self {
            PathToElement::FieldURI { field_uri } => seq![
                XmlNode::Element {
                    name: "t:FieldURI"@,
                    attributes: seq![("FieldURI"@, field_uri@)],
                    content: None,
                },
            ],
            PathToElement::IndexedFieldURI { field_uri, field_index } => seq![
                XmlNode::Element {
                    name: "t:IndexedFieldURI"@,
                    attributes: seq![("FieldURI"@, field_uri@), ("FieldIndex"@, field_index@)],
                    content: None,
                },
            ],
        }
    }

    pub fn serialize_child_nodes(&self, out: &mut String)
        ensures
            final(out)@ == old(out)@ + render_all(self.xml_nodes()),
    {
        let mut attrs: Vec<(&str, &str)> = Vec::new();
        match self {
            PathToElement::FieldURI { field_uri } => {
                push_attribute(&mut attrs, "FieldURI", field_uri.as_str());
                proof {
                    assert(attributes_view(attrs@) =~= seq![("FieldURI"@, field_uri@)]);
                }
                write_empty_element(out, "t:FieldURI", &attrs);
            },
            PathToElement::IndexedFieldURI { field_uri, field_index } => {
                push_attribute(&mut attrs, "FieldURI", field_uri.as_str());
                push_attribute(&mut attrs, "FieldIndex", field_index.as_str());
                proof {
                    assert(attributes_view(attrs@) =~= seq![
                        ("FieldURI"@, field_uri@),
                        ("FieldIndex"@, field_index@),
                    ]);
                }
                write_empty_element(out, "t:IndexedFieldURI", &attrs);
            },
        }
        proof {
            lemma_render_all_single(self.xml_nodes()[0]);
            assert(self.xml_nodes() =~= seq![self.xml_nodes()[0]]);
        }
    }
}

/// The ISO 8601 text of an instant given in nanoseconds since the Unix
/// epoch, as the `time` crate formats it with its default ISO 8601
/// configuration, or `None` where it cannot represent or format that instant.
pub uninterp spec fn iso8601_text(nanos: i128) -> Option<Seq<char>>;

/// `time::OffsetDateTime::format` with `Iso8601::DEFAULT`, applied to the
/// UTC instant `nanos` nanoseconds after the Unix epoch (converted with
/// `OffsetDateTime::from_unix_timestamp_nanos`). The contract claims only
/// that the text, or the failure, is determined by the instant
/// (`iso8601_text`).
#[verifier::external_body]
fn format_iso8601(nanos: i128) -> (r: Option<String>)
    ensures
        match r {
            Some(s) => iso8601_text(nanos) == Some(s@),
            None => iso8601_text(nanos) is None,
        },
{
    let instant = time::OffsetDateTime::from_unix_timestamp_nanos(nanos).ok()?;
    instant.format(&time::format_description::well_known::Iso8601::DEFAULT).ok()
}

/// A point in time, as nanoseconds since the Unix epoch (UTC), together
/// with its ISO 8601 text.
#[derive(Debug, PartialEq, Eq)]
pub struct DateTime {
    nanos: i128,
    text: String,
}

impl DateTime {
    #[verifier::type_invariant]
    spec fn well_formed(self) -> bool {
        iso8601_text(self.nanos) == Some(self.text@)
    }

    /// The instant, in nanoseconds since the Unix epoch.
    pub closed spec fn spec_unix_timestamp_nanos(self) -> i128 {
        self.nanos
    }

    /// The text this instant is written as.
    pub open spec fn spec_text(self) -> Seq<char> {
        iso8601_text(self.spec_unix_timestamp_nanos())->Some_0
    }

    /// The instant `nanos` nanoseconds after the Unix epoch, if it can be
    /// written in ISO 8601 form.
    pub fn from_unix_timestamp_nanos(nanos: i128) -> (r: Option<DateTime>)
        ensures
            r is Some <==> iso8601_text(nanos) is Some,
            r matches Some(d) ==> d.spec_unix_timestamp_nanos() == nanos,
    {
        match format_iso8601(nanos) {
            Some(text) => Some(DateTime { nanos, text }),
            None => None,
        }
    }

    /// The instant `seconds` seconds after the Unix epoch, if it can be
    /// written in ISO 8601 form.
    pub fn from_unix_timestamp(seconds: i64) -> (r: Option<DateTime>)
        ensures
            r is Some <==> iso8601_text((seconds * 1_000_000_000) as i128) is Some,
            r matches Some(d) ==> d.spec_unix_timestamp_nanos() == seconds * 1_000_000_000,
    {
        let nanos = (seconds as i128) * 1_000_000_000i128;
        DateTime::from_unix_timestamp_nanos(nanos)
    }

    pub fn unix_timestamp_nanos(&self) -> (r: i128)
        ensures
            r == self.spec_unix_timestamp_nanos(),
    {
        self.nanos
    }

    /// Writes this instant as an element holding its ISO 8601 text.
    pub fn serialize_as_element(&self, out: &mut String, name: &str)
        ensures
            final(out)@ == old(out)@ + render(text_element(name@, self.spec_text())),
    {
        proof {
            use_type_invariant(self);
        }
        write_text_element(out, name, self.text.as_str());
    }
}

impl Clone for DateTime {
    fn clone(&self) -> (r: DateTime)
        ensures
            r == *self,
    {
        proof {
            use_type_invariant(self);
        }
        DateTime { nanos: self.nanos, text: self.text.clone() }
    }
}

/// The nodes of an optional date-time element.
pub open spec fn optional_date_time_element(name: Seq<char>, d: Option<DateTime>) -> Seq<XmlNode> {
    match d {
        Some(d) => seq![text_element(name, d.spec_text())],
        None => seq![],
    }
}

fn write_optional_date_time_element(out: &mut String, name: &str, d: &Option<DateTime>)
    ensures
        final(out)@ == old(out)@ + render_all(optional_date_time_element(name@, *d)),
{
    match d {
        Some(d) => {
            d.serialize_as_element(out, name);
            proof {
                lemma_render_all_single(text_element(name@, d.spec_text()));
            }
        },
        None => {
            proof {
                assert(old(out)@ + render_all(Seq::<XmlNode>::empty()) =~= old(out)@);
            }
        },
    }
}

/// An email message or calendar item: the properties that are set.
#[derive(Debug, PartialEq, Eq)]
pub struct Message {
    pub subject: Option<String>,
    pub start: Option<DateTime>,
    pub end: Option<DateTime>,
    pub location: Option<String>,
}

fn clone_optional_text(s: &Option<String>) -> (r: Option<String>)
    ensures
        r == *s,
{
    match s {
        Some(t) => Some(t.clone()),
        None => None,
    }
}

fn clone_optional_date_time(d: &Option<DateTime>) -> (r: Option<DateTime>)
    ensures
        r == *d,
{
    match d {
        Some(t) => Some(t.clone()),
        None => None,
    }
}

impl Clone for Message {
    /// A message with the same properties set to the same values.
    fn clone(&self) -> (r: Message)
        ensures
            r == *self,
    {
        Message {
            subject: clone_optional_text(&self.subject),
            start: clone_optional_date_time(&self.start),
            end: clone_optional_date_time(&self.end),
            location: clone_optional_text(&self.location),
        }
    }
}

impl Default for Message {
    fn default() -> (r: Message)
        ensures
            r.subject is None,
            r.start is None,
            r.end is None,
            r.location is None,
    {
        Message { subject: None, start: None, end: None, location: None }
    }
}

impl Message {
    /// Each property that is set becomes one child element, in order.
    pub open spec fn xml_nodes(self) -> Seq<XmlNode> {
        optional_text_element("t:Subject"@, self.subject) + optional_date_time_element(
            "t:Start"@,
            self.start,
        ) + optional_date_time_element("t:End"@, self.end) + optional_text_element(
            "t:Location"@,
            self.location,
        )
    }

    pub open spec fn xml_element(self, name: Seq<char>) -> XmlNode {
        element(name, self.xml_nodes())
    }

    /// How many properties are set.
    pub open spec fn set_property_count(self) -> nat {
        (if self.subject is Some { 1nat } else { 0nat }) + (if self.start is Some {
            1nat
        } else {
            0nat
        }) + (if self.end is Some { 1nat } else { 0nat }) + (if self.location is Some {
            1nat
        } else {
            0nat
        })
    }

    pub fn serialize_child_nodes(&self, out: &mut String)
        ensures
            final(out)@ == old(out)@ + render_all(self.xml_nodes()),
    {
        let ghost start = out@;
        write_optional_text_element(out, "t:Subject", &self.subject);
        write_optional_date_time_element(out, "t:Start", &self.start);
        write_optional_date_time_element(out, "t:End", &self.end);
        write_optional_text_element(out, "t:Location", &self.location);
        proof {
            let a = optional_text_element("t:Subject"@, self.subject);
            let b = optional_date_time_element("t:Start"@, self.start);
            let c = optional_date_time_element("t:End"@, self.end);
            let d = optional_text_element("t:Location"@, self.location);
            lemma_render_all_concat(a, b);
            lemma_render_all_concat(a + b, c);
            lemma_render_all_concat(a + b + c, d);
            assert(out@ =~= start + render_all(self.xml_nodes()));
        }
    }

    pub fn serialize_as_element(&self, out: &mut String, name: &str)
        ensures
            final(out)@ == old(out)@ + render(self.xml_element(name@)),
    {
        let attrs: Vec<(&str, &str)> = Vec::new();
        write_open_tag(out, name, &attrs, false);
        self.serialize_child_nodes(out);
        write_close_tag(out, name);
        proof {
            assert(attributes_view(attrs@) =~= seq![]);
        }
    }
}

/// An item of a concrete kind.
#[derive(Clone, Debug, PartialEq, Eq)]
pub enum RealItem {
    Message(Message),
    CalendarItem(Message),
}

impl RealItem {
    pub open spec fn xml_nodes(self) -> Seq<XmlNode> {
        match self {
            RealItem::Message(m) => seq![m.xml_element("t:Message"@)],
            RealItem::CalendarItem(m) => seq![m.xml_element("t:CalendarItem"@)],
        }
    }

    pub fn serialize_child_nodes(&self, out: &mut String)
        ensures
            final(out)@ == old(out)@ + render_all(self.xml_nodes()),
    {
        match self {
            RealItem::Message(m) => {
                m.serialize_as_element(out, "t:Message");
            },
            RealItem::CalendarItem(m) => {
                m.serialize_as_element(out, "t:CalendarItem");
            },
        }
        proof {
            lemma_render_all_single(self.xml_nodes()[0]);
            assert(self.xml_nodes() =~= seq![self.xml_nodes()[0]]);
        }
    }
}

/// The nodes of a list of items, each written as its own element.
pub open spec fn items_nodes(items: Seq<RealItem>) -> Seq<XmlNode> {
    flat_nodes(items, |i: RealItem| i.xml_nodes())
}

/// Writes each item in turn.
pub fn serialize_items(items: &Vec<RealItem>, out: &mut String)
    ensures
        final(out)@ == old(out)@ + render_all(items_nodes(items@)),
{
    let ghost start = out@;
    let ghost f = |i: RealItem| i.xml_nodes();
    let mut i: usize = 0;
    proof {
        assert(items@.take(0) =~= Seq::<RealItem>::empty());
        assert(out@ =~= start + render_all(flat_nodes(items@.take(0), f)));
    }
    while i < items.len()
        invariant
            i <= items.len(),
            f == (|i: RealItem| i.xml_nodes()),
            out@ == start + render_all(flat_nodes(items@.take(i as int), f)),
        decreases items.len() - i,
    {
        items[i].serialize_child_nodes(out);
        proof {
            lemma_flat_nodes_step(items@, i as int, f);
        }
        i += 1;
    }
    proof {
        assert(items@.take(i as int) =~= items@);
    }
}

/// The model of a [`Message`]: its properties, the date-times by their
/// instants in nanoseconds.
pub struct SpecMessage {
    pub subject: Option<Seq<char>>,
    pub start: Option<i128>,
    pub end: Option<i128>,
    pub location: Option<Seq<char>>,
}

pub open spec fn optional_string_view(o: Option<String>) -> Option<Seq<char>> {
    match o {
        Some(s) => Some(s@),
        None => None,
    }
}

pub open spec fn optional_date_time_view(o: Option<DateTime>) -> Option<i128> {
    match o {
        Some(d) => Some(d.spec_unix_timestamp_nanos()),
        None => None,
    }
}

impl View for Message {
    type V = SpecMessage;

    open spec fn view(&self) -> SpecMessage {
        SpecMessage {
            subject: optional_string_view(self.subject),
            start: optional_date_time_view(self.start),
            end: optional_date_time_view(self.end),
            location: optional_string_view(self.location),
        }
    }
}

/// The model of a [`RealItem`].
pub enum SpecRealItem {
    Message(SpecMessage),
    CalendarItem(SpecMessage),
}

impl View for RealItem {
    type V = SpecRealItem;

    open spec fn view(&self) -> SpecRealItem {
        match self {
            RealItem::Message(m) => SpecRealItem::Message(m@),
            RealItem::CalendarItem(m) => SpecRealItem::CalendarItem(m@),
        }
    }
}


/// Each message disposition is written as its own variant name, so two different values
/// are never written alike.
pub proof fn law_message_disposition_written_by_name(a: MessageDisposition, b: MessageDisposition)
    ensures
        MessageDisposition::SaveOnly.spec_text() == "SaveOnly"@,
        MessageDisposition::SendOnly.spec_text() == "SendOnly"@,
        MessageDisposition::SendAndSaveCopy.spec_text() == "SendAndSaveCopy"@,
        a.spec_text() == b.spec_text() ==> a == b,
{
    reveal_strlit("SaveOnly");
    reveal_strlit("SendOnly");
    reveal_strlit("SendAndSaveCopy");
    if a.spec_text() == b.spec_text() && a != b {
        assert(a.spec_text().len() != b.spec_text().len() || a.spec_text()[1] != b.spec_text()[1]);
    }
}

/// Each choice of meeting invitations is written as its own variant name, so two different values
/// are never written alike.
pub proof fn law_send_meeting_invitations_written_by_name(a: SendMeetingInvitations, b: SendMeetingInvitations)
    ensures
        SendMeetingInvitations::SendToNone.spec_text() == "SendToNone"@,
        SendMeetingInvitations::SendOnlyToAll.spec_text() == "SendOnlyToAll"@,
        SendMeetingInvitations::SendToAllAndSaveCopy.spec_text() == "SendToAllAndSaveCopy"@,
        a.spec_text() == b.spec_text() ==> a == b,
{
    reveal_strlit("SendToNone");
    reveal_strlit("SendOnlyToAll");
    reveal_strlit("SendToAllAndSaveCopy");
    if a.spec_text() == b.spec_text() && a != b {
        assert(a.spec_text().len() != b.spec_text().len() || a.spec_text()[1] != b.spec_text()[1]);
    }
}

} // verus!
