//! Responses of EWS operations, read from the deserializer's view of the
//! response document.
use vstd::prelude::*;

use crate::content::{entries_view, entry_view, lemma_entries_view, lemma_skip_step, DeError, SpecXmlEntry, SpecXmlValue, XmlEntry, XmlValue};
use crate::message_xml::{is_attribute_key, is_attribute_key_exec, key_count, result_view, spec_message_xml, MessageXml, SpecMessageXml};
use crate::text::str_eq;
use crate::types::{iso8601_text, DateTime, Message, RealItem, SpecMessage, SpecRealItem};

verus! {

// ----- Fields -----

/// The value of the field `key`: none if no entry has that key, the value if
/// exactly one has, a duplicate-field error if more do.
pub open spec fn spec_find_field(es: Seq<SpecXmlEntry>, key: Seq<char>) -> Result<Option<SpecXmlValue>, DeError>
    decreases es.len(),
{
    if es.len() == 0 {
        Ok(None)
    } else {
        let rest = spec_find_field(es.drop_first(), key);
        if es[0].key == key {
            match rest {
                Ok(None) => Ok(Some(es[0].value)),
                Ok(Some(_)) => Err(DeError::DuplicateField),
                Err(e) => Err(e),
            }
        } else {
            rest
        }
    }
}

proof fn lemma_find_field_err(es: Seq<SpecXmlEntry>, key: Seq<char>)
    ensures
        spec_find_field(es, key) is Err ==> spec_find_field(es, key) == Err::<Option<SpecXmlValue>, DeError>(
            DeError::DuplicateField,
        ),
    decreases es.len(),
{
    if es.len() > 0 {
        lemma_find_field_err(es.drop_first(), key);
    }
}

pub open spec fn combine_found(found: Option<SpecXmlValue>, r: Result<Option<SpecXmlValue>, DeError>) -> Result<Option<SpecXmlValue>, DeError> {
    match found {
        None => r,
        Some(v) => match r {
            Ok(None) => Ok(Some(v)),
            Ok(Some(_)) => Err(DeError::DuplicateField),
            Err(e) => Err(e),
        },
    }
}

/// Finds the field `key` among the entries.
fn find_field<'a>(es: &'a Vec<XmlEntry>, key: &str) -> (r: Result<Option<&'a XmlValue>, DeError>)
    ensures
        spec_find_field(entries_view(es@), key@) == match r {
            Ok(Some(v)) => Ok(Some(v@)),
            Ok(None) => Ok(None),
            Err(e) => Err::<Option<SpecXmlValue>, DeError>(e),
        },
{
    let ghost ev = entries_view(es@);
    proof {
        lemma_entries_view(es@);
        assert(ev.skip(0) =~= ev);
    }
    let mut found: Option<&'a XmlValue> = None;
    let mut i: usize = 0;
    while i < es.len()
        invariant
            i <= es.len(),
            ev == entries_view(es@),
            ev.len() == es.len(),
            forall|j: int| 0 <= j < es.len() ==> #[trigger] ev[j] == entry_view(es@[j]),
            spec_find_field(ev, key@) == combine_found(
                match found {
                    Some(v) => Some(v@),
                    None => None,
                },
                spec_find_field(ev.skip(i as int), key@),
            ),
        decreases es.len() - i,
    {
        proof {
            lemma_skip_step(ev, i as int);
            assert(ev[i as int] == entry_view(es@[i as int]));
            lemma_find_field_err(ev.skip(i + 1), key@);
        }
        if str_eq(es[i].key.as_str(), key) {
            if found.is_some() {
                return Err(DeError::DuplicateField);
            }
            found = Some(&es[i].value);
        }
        i += 1;
    }
    proof {
        assert(ev.skip(i as int) =~= Seq::<SpecXmlEntry>::empty());
    }
    Ok(found)
}

pub open spec fn prepend_chars(c: Seq<char>, r: Result<Seq<char>, DeError>) -> Result<Seq<char>, DeError> {
    match r {
        Ok(rest) => Ok(c + rest),
        Err(e) => Err(e),
    }
}

/// The text of an element: its `$text` entries in order, attributes
/// ignored; a child element makes it not text.
pub open spec fn spec_text_content(es: Seq<SpecXmlEntry>) -> Result<Seq<char>, DeError>
    decreases es.len(),
{
    if es.len() == 0 {
        Ok(seq![])
    } else if is_attribute_key(es[0].key) {
        spec_text_content(es.drop_first())
    } else if es[0].key == seq!['$', 't', 'e', 'x', 't'] {
        match es[0].value {
            SpecXmlValue::Text(t) => prepend_chars(t, spec_text_content(es.drop_first())),
            SpecXmlValue::Element(_) => Err(DeError::ExpectedText),
        }
    } else {
        Err(DeError::ExpectedText)
    }
}

/// A string field: an attribute value, or the text of an element.
pub open spec fn spec_string_value(v: SpecXmlValue) -> Result<Seq<char>, DeError> {
    match v {
        SpecXmlValue::Text(s) => Ok(s),
        SpecXmlValue::Element(es) => spec_text_content(es),
    }
}

fn is_text_key(k: &String) -> (r: bool)
    ensures
        r == (k@ == seq!['$', 't', 'e', 'x', 't']),
{
    let r = str_eq(k.as_str(), "$text");
    proof {
        reveal_strlit("$text");
        assert("$text"@ =~= seq!['$', 't', 'e', 'x', 't']);
    }
    r
}

/// Reads a string field.
pub fn string_value(v: &XmlValue) -> (r: Result<String, DeError>)
    ensures
        spec_string_value(v@) == match r {
            Ok(s) => Ok(s@),
            Err(e) => Err::<Seq<char>, DeError>(e),
        },
{
    let es = match v {
        XmlValue::Text(s) => {
            return Ok(s.clone());
        },
        XmlValue::Element(es) => es,
    };
    let ghost ev = entries_view(es@);
    proof {
        lemma_entries_view(es@);
        assert(ev.skip(0) =~= ev);
        if let Ok(rest) = spec_text_content(ev) {
            assert(Seq::<char>::empty() + rest =~= rest);
        }
    }
    let mut out = String::new();
    let mut i: usize = 0;
    while i < es.len()
        invariant
            i <= es.len(),
            v@ == SpecXmlValue::Element(ev),
            ev == entries_view(es@),
            ev.len() == es.len(),
            forall|j: int| 0 <= j < es.len() ==> #[trigger] ev[j] == entry_view(es@[j]),
            spec_text_content(ev) == prepend_chars(out@, spec_text_content(ev.skip(i as int))),
        decreases es.len() - i,
    {
        proof {
            lemma_skip_step(ev, i as int);
            assert(ev[i as int] == entry_view(es@[i as int]));
        }
        let e = &es[i];
        if is_attribute_key_exec(&e.key) {
        } else if is_text_key(&e.key) {
            match &e.value {
                XmlValue::Text(t) => {
                    let ghost before = out@;
                    out.append(t.as_str());
                    proof {
                        if let Ok(rest) = spec_text_content(ev.skip(i + 1)) {
                            assert(before + (t@ + rest) =~= (before + t@) + rest);
                        }
                    }
                },
                XmlValue::Element(_) => {
                    return Err(DeError::ExpectedText);
                },
            }
        } else {
            return Err(DeError::ExpectedText);
        }
        i += 1;
    }
    proof {
        assert(ev.skip(i as int) =~= Seq::<SpecXmlEntry>::empty());
        assert(out@ + Seq::<char>::empty() =~= out@);
    }
    Ok(out)
}

/// The instant that `OffsetDateTime::parse` with `Iso8601::DEFAULT` reads
/// from a text, in nanoseconds since the Unix epoch as
/// `unix_timestamp_nanos` gives it, or `None` where parsing fails.
pub uninterp spec fn iso8601_timestamp(text: Seq<char>) -> Option<i128>;

/// `time::OffsetDateTime::parse` with `Iso8601::DEFAULT`; the parsed
/// instant is converted to plain nanoseconds with `unix_timestamp_nanos`
/// (its UTC offset is not kept). The contract claims only that the outcome
/// is determined by the text (`iso8601_timestamp`).
#[verifier::external_body]
fn parse_iso8601(text: &str) -> (r: Option<i128>)
    ensures
        r == iso8601_timestamp(text@),
{
    match time::OffsetDateTime::parse(text, &time::format_description::well_known::Iso8601::DEFAULT) {
        Ok(instant) => Some(instant.unix_timestamp_nanos()),
        Err(_) => None,
    }
}

/// A date-time field: ISO 8601 text whose instant can be written back.
pub open spec fn spec_date_time_value(v: SpecXmlValue) -> Result<i128, DeError> {
    match spec_string_value(v) {
        Ok(t) => match iso8601_timestamp(t) {
            Some(ts) => if iso8601_text(ts) is Some {
                Ok(ts)
            } else {
                Err(DeError::InvalidDateTime)
            },
            None => Err(DeError::InvalidDateTime),
        },
        Err(e) => Err(e),
    }
}

fn date_time_value(v: &XmlValue) -> (r: Result<DateTime, DeError>)
    ensures
        spec_date_time_value(v@) == match r {
            Ok(d) => Ok(d.spec_unix_timestamp_nanos()),
            Err(e) => Err::<i128, DeError>(e),
        },
{
    let t = string_value(v)?;
    match parse_iso8601(t.as_str()) {
        Some(ts) => match DateTime::from_unix_timestamp_nanos(ts) {
            Some(d) => Ok(d),
            None => Err(DeError::InvalidDateTime),
        },
        None => Err(DeError::InvalidDateTime),
    }
}

pub open spec fn spec_optional_string_field(es: Seq<SpecXmlEntry>, key: Seq<char>) -> Result<Option<Seq<char>>, DeError> {
    match spec_find_field(es, key) {
        Err(e) => Err(e),
        Ok(None) => Ok(None),
        Ok(Some(v)) => match spec_string_value(v) {
            Ok(s) => Ok(Some(s)),
            Err(e) => Err(e),
        },
    }
}

pub open spec fn spec_optional_date_time_field(es: Seq<SpecXmlEntry>, key: Seq<char>) -> Result<Option<i128>, DeError> {
    match spec_find_field(es, key) {
        Err(e) => Err(e),
        Ok(None) => Ok(None),
        Ok(Some(v)) => match spec_date_time_value(v) {
            Ok(d) => Ok(Some(d)),
            Err(e) => Err(e),
        },
    }
}

fn optional_string_field(es: &Vec<XmlEntry>, key: &str) -> (r: Result<Option<String>, DeError>)
    ensures
        spec_optional_string_field(entries_view(es@), key@) == match r {
            Ok(Some(s)) => Ok(Some(s@)),
            Ok(None) => Ok(None),
            Err(e) => Err::<Option<Seq<char>>, DeError>(e),
        },
{
    match find_field(es, key)? {
        None => Ok(None),
        Some(v) => Ok(Some(string_value(v)?)),
    }
}

fn optional_date_time_field(es: &Vec<XmlEntry>, key: &str) -> (r: Result<Option<DateTime>, DeError>)
    ensures
        spec_optional_date_time_field(entries_view(es@), key@) == match r {
            Ok(Some(d)) => Ok(Some(d.spec_unix_timestamp_nanos())),
            Ok(None) => Ok(None),
            Err(e) => Err::<Option<i128>, DeError>(e),
        },
{
    match find_field(es, key)? {
        None => Ok(None),
        Some(v) => Ok(Some(date_time_value(v)?)),
    }
}

// ----- Items -----

/// A message read from an element: each known property at most once,
/// other entries ignored.
pub open spec fn spec_message(v: SpecXmlValue) -> Result<SpecMessage, DeError> {
    match v {
        SpecXmlValue::Text(_) => Err(DeError::ExpectedElement),
        SpecXmlValue::Element(es) => match spec_optional_string_field(es, "Subject"@) {
            Err(e) => Err(e),
            Ok(subject) => match spec_optional_date_time_field(es, "Start"@) {
                Err(e) => Err(e),
                Ok(start) => match spec_optional_date_time_field(es, "End"@) {
                    Err(e) => Err(e),
                    Ok(end) => match spec_optional_string_field(es, "Location"@) {
                        Err(e) => Err(e),
                        Ok(location) => Ok(SpecMessage { subject, start, end, location }),
                    },
                },
            },
        },
    }
}

/// Reads a message from its element.
pub fn read_message(v: &XmlValue) -> (r: Result<Message, DeError>)
    ensures
        result_view(r) == spec_message(v@),
{
    let es = match v {
        XmlValue::Text(_) => {
            return Err(DeError::ExpectedElement);
        },
        XmlValue::Element(es) => es,
    };
    let subject = optional_string_field(es, "Subject")?;
    let start = optional_date_time_field(es, "Start")?;
    let end = optional_date_time_field(es, "End")?;
    let location = optional_string_field(es, "Location")?;
    Ok(Message { subject, start, end, location })
}

/// An item read from an entry: the key names the kind of item.
pub open spec fn spec_real_item(e: SpecXmlEntry) -> Result<SpecRealItem, DeError> {
    if e.key == "Message"@ {
        match spec_message(e.value) {
            Ok(m) => Ok(SpecRealItem::Message(m)),
            Err(x) => Err(x),
        }
    } else if e.key == "CalendarItem"@ {
        match spec_message(e.value) {
            Ok(m) => Ok(SpecRealItem::CalendarItem(m)),
            Err(x) => Err(x),
        }
    } else {
        Err(DeError::UnknownVariant)
    }
}

fn read_real_item(e: &XmlEntry) -> (r: Result<RealItem, DeError>)
    ensures
        result_view(r) == spec_real_item(entry_view(*e)),
{
    if str_eq(e.key.as_str(), "Message") {
        Ok(RealItem::Message(read_message(&e.value)?))
    } else if str_eq(e.key.as_str(), "CalendarItem") {
        Ok(RealItem::CalendarItem(read_message(&e.value)?))
    } else {
        Err(DeError::UnknownVariant)
    }
}

pub open spec fn prepend_seq<A>(a: Seq<A>, r: Result<Seq<A>, DeError>) -> Result<Seq<A>, DeError> {
    match r {
        Ok(rest) => Ok(a + rest),
        Err(e) => Err(e),
    }
}

/// Every entry but attributes is one item, in order.
pub open spec fn spec_items(es: Seq<SpecXmlEntry>) -> Result<Seq<SpecRealItem>, DeError>
    decreases es.len(),
{
    if es.len() == 0 {
        Ok(seq![])
    } else if is_attribute_key(es[0].key) {
        spec_items(es.drop_first())
    } else {
        match spec_real_item(es[0]) {
            Ok(item) => prepend_seq(seq![item], spec_items(es.drop_first())),
            Err(x) => Err(x),
        }
    }
}

pub open spec fn spec_items_value(v: SpecXmlValue) -> Result<Seq<SpecRealItem>, DeError> {
    match v {
        SpecXmlValue::Text(_) => Err(DeError::ExpectedElement),
        SpecXmlValue::Element(es) => spec_items(es),
    }
}

/// A collection of items, as found in a response.
#[derive(Clone, Debug, PartialEq, Eq)]
pub struct Items {
    pub inner: Vec<RealItem>,
}

impl View for Items {
    type V = Seq<SpecRealItem>;

    open spec fn view(&self) -> Seq<SpecRealItem> {
        self.inner@.map_values(|i: RealItem| i@)
    }
}

impl Items {
    /// Reads the items held by an element.
    pub fn from_xml_value(v: &XmlValue) -> (r: Result<Items, DeError>)
        ensures
            result_view(r) == spec_items_value(v@),
    {
        let es = match v {
            XmlValue::Text(_) => {
                return Err(DeError::ExpectedElement);
            },
            XmlValue::Element(es) => es,
        };
        let ghost ev = entries_view(es@);
        proof {
            lemma_entries_view(es@);
            assert(ev.skip(0) =~= ev);
            if let Ok(rest) = spec_items(ev) {
                assert(Seq::<SpecRealItem>::empty() + rest =~= rest);
            }
        }
        let mut inner: Vec<RealItem> = Vec::new();
        let mut i: usize = 0;
        while i < es.len()
            invariant
                i <= es.len(),
                v@ == SpecXmlValue::Element(ev),
                ev == entries_view(es@),
                ev.len() == es.len(),
                forall|j: int| 0 <= j < es.len() ==> #[trigger] ev[j] == entry_view(es@[j]),
                spec_items(ev) == prepend_seq(
                    inner@.map_values(|i: RealItem| i@),
                    spec_items(ev.skip(i as int)),
                ),
            decreases es.len() - i,
        {
            proof {
                lemma_skip_step(ev, i as int);
                assert(ev[i as int] == entry_view(es@[i as int]));
            }
            if !is_attribute_key_exec(&es[i].key) {
                let item = read_real_item(&es[i])?;
                let ghost before = inner@.map_values(|i: RealItem| i@);
                inner.push(item);
                proof {
                    assert(inner@.map_values(|i: RealItem| i@) =~= before.push(item@));
                    if let Ok(rest) = spec_items(ev.skip(i + 1)) {
                        assert(before + (seq![item@] + rest) =~= before.push(item@) + rest);
                    }
                }
            }
            i += 1;
        }
        proof {
            assert(ev.skip(i as int) =~= Seq::<SpecXmlEntry>::empty());
            let acc = inner@.map_values(|i: RealItem| i@);
            assert(acc + Seq::<SpecRealItem>::empty() =~= acc);
        }
        Ok(Items { inner })
    }
}

/// The body of a successful response message, read from its entries.
pub trait ResponseMessageBody: Sized + View {
    /// What the body's entries are read as.
    spec fn spec_read(es: Seq<SpecXmlEntry>) -> Result<Self::V, DeError>;

    fn read(es: &Vec<XmlEntry>) -> (r: Result<Self, DeError>)
        ensures
            result_view(r) == Self::spec_read(entries_view(es@)),
    ;
}

/// The `Items` field of a response message, required once.
pub open spec fn spec_items_field(es: Seq<SpecXmlEntry>) -> Result<Seq<SpecRealItem>, DeError> {
    match spec_find_field(es, "Items"@) {
        Err(e) => Err(e),
        Ok(None) => Err(DeError::MissingField),
        Ok(Some(v)) => spec_items_value(v),
    }
}

pub(crate) fn items_field(es: &Vec<XmlEntry>) -> (r: Result<Items, DeError>)
    ensures
        result_view(r) == spec_items_field(entries_view(es@)),
{
    match find_field(es, "Items")? {
        None => Err(DeError::MissingField),
        Some(v) => Items::from_xml_value(v),
    }
}

/// A response message carrying the items an operation created or found.
#[derive(Clone, Debug, PartialEq, Eq)]
pub struct ItemResponseMessage {
    pub items: Items,
}

impl View for ItemResponseMessage {
    type V = Seq<SpecRealItem>;

    open spec fn view(&self) -> Seq<SpecRealItem> {
        self.items@
    }
}

impl ResponseMessageBody for ItemResponseMessage {
    open spec fn spec_read(es: Seq<SpecXmlEntry>) -> Result<Seq<SpecRealItem>, DeError> {
        spec_items_field(es)
    }

    fn read(es: &Vec<XmlEntry>) -> (r: Result<ItemResponseMessage, DeError>) {
        let items = items_field(es)?;
        Ok(ItemResponseMessage { items })
    }
}

// ----- Response classes -----

/// The details of a failed response message.
#[derive(Clone, Debug, PartialEq, Eq)]
pub struct ResponseError {
    /// A description of the error.
    pub message_text: String,
    /// The error code (such as `ErrorServerBusy`).
    pub response_code: String,
    /// Further data about the error, where the server gives any.
    pub message_xml: Option<MessageXml>,
}

pub struct SpecResponseError {
    pub message_text: Seq<char>,
    pub response_code: Seq<char>,
    pub message_xml: Option<SpecMessageXml>,
}

impl View for ResponseError {
    type V = SpecResponseError;

    open spec fn view(&self) -> SpecResponseError {
        SpecResponseError {
            message_text: self.message_text@,
            response_code: self.response_code@,
            message_xml: match self.message_xml {
                Some(m) => Some(m@),
                None => None,
            },
        }
    }
}

pub open spec fn spec_required_string_field(es: Seq<SpecXmlEntry>, key: Seq<char>) -> Result<Seq<char>, DeError> {
    match spec_optional_string_field(es, key) {
        Err(e) => Err(e),
        Ok(None) => Err(DeError::MissingField),
        Ok(Some(s)) => Ok(s),
    }
}

/// `MessageText` and `ResponseCode` are required, `MessageXml` optional.
pub open spec fn spec_response_error(es: Seq<SpecXmlEntry>) -> Result<SpecResponseError, DeError> {
    match spec_required_string_field(es, "MessageText"@) {
        Err(e) => Err(e),
        Ok(message_text) => match spec_required_string_field(es, "ResponseCode"@) {
            Err(e) => Err(e),
            Ok(response_code) => match spec_find_field(es, "MessageXml"@) {
                Err(e) => Err(e),
                Ok(None) => Ok(SpecResponseError { message_text, response_code, message_xml: None }),
                Ok(Some(v)) => match spec_message_xml(v) {
                    Ok(m) => Ok(SpecResponseError { message_text, response_code, message_xml: Some(m) }),
                    Err(e) => Err(e),
                },
            },
        },
    }
}

fn required_string_field(es: &Vec<XmlEntry>, key: &str) -> (r: Result<String, DeError>)
    ensures
        spec_required_string_field(entries_view(es@), key@) == match r {
            Ok(s) => Ok(s@),
            Err(e) => Err::<Seq<char>, DeError>(e),
        },
{
    match optional_string_field(es, key)? {
        Some(s) => Ok(s),
        None => Err(DeError::MissingField),
    }
}

impl ResponseError {
    pub fn from_entries(es: &Vec<XmlEntry>) -> (r: Result<ResponseError, DeError>)
        ensures
            result_view(r) == spec_response_error(entries_view(es@)),
    {
        let message_text = required_string_field(es, "MessageText")?;
        let response_code = required_string_field(es, "ResponseCode")?;
        let message_xml = match find_field(es, "MessageXml")? {
            None => None,
            Some(v) => Some(MessageXml::from_xml_value(v)?),
        };
        Ok(ResponseError { message_text, response_code, message_xml })
    }
}

/// The outcome of one response message, as its `ResponseClass` attribute
/// names it.
#[derive(Clone, Debug, PartialEq, Eq)]
pub enum ResponseClass<T> {
    Success(T),
    Warning(T),
    Error(ResponseError),
}

pub enum SpecResponseClass<V> {
    Success(V),
    Warning(V),
    Error(SpecResponseError),
}

impl<T: View> View for ResponseClass<T> {
    type V = SpecResponseClass<T::V>;

    open spec fn view(&self) -> SpecResponseClass<T::V> {
        match self {
            ResponseClass::Success(t) => SpecResponseClass::Success(t@),
            ResponseClass::Warning(t) => SpecResponseClass::Warning(t@),
            ResponseClass::Error(e) => SpecResponseClass::Error(e@),
        }
    }
}

/// A response message: the `ResponseClass` attribute is required and names
/// the variant; `Success` and `Warning` carry the body, `Error` the error.
pub open spec fn spec_response_class<T: ResponseMessageBody>(v: SpecXmlValue) -> Result<SpecResponseClass<T::V>, DeError> {
    match v {
        SpecXmlValue::Text(_) => Err(DeError::ExpectedElement),
        SpecXmlValue::Element(es) => match spec_find_field(es, "@ResponseClass"@) {
            Err(e) => Err(e),
            Ok(None) => Err(DeError::MissingField),
            Ok(Some(SpecXmlValue::Element(_))) => Err(DeError::ExpectedText),
            Ok(Some(SpecXmlValue::Text(class))) => if class == "Success"@ {
                match T::spec_read(es) {
                    Ok(t) => Ok(SpecResponseClass::Success(t)),
                    Err(e) => Err(e),
                }
            } else if class == "Warning"@ {
                match T::spec_read(es) {
                    Ok(t) => Ok(SpecResponseClass::Warning(t)),
                    Err(e) => Err(e),
                }
            } else if class == "Error"@ {
                match spec_response_error(es) {
                    Ok(e) => Ok(SpecResponseClass::Error(e)),
                    Err(x) => Err(x),
                }
            } else {
                Err(DeError::UnknownVariant)
            },
        },
    }
}

impl<T: ResponseMessageBody> ResponseClass<T> {
    pub fn from_xml_value(v: &XmlValue) -> (r: Result<ResponseClass<T>, DeError>)
        ensures
            result_view(r) == spec_response_class::<T>(v@),
    {
        let es = match v {
            XmlValue::Text(_) => {
                return Err(DeError::ExpectedElement);
            },
            XmlValue::Element(es) => es,
        };
        let class = match find_field(es, "@ResponseClass")? {
            None => {
                return Err(DeError::MissingField);
            },
            Some(XmlValue::Element(_)) => {
                return Err(DeError::ExpectedText);
            },
            Some(XmlValue::Text(class)) => class,
        };
        if str_eq(class.as_str(), "Success") {
            Ok(ResponseClass::Success(T::read(es)?))
        } else if str_eq(class.as_str(), "Warning") {
            Ok(ResponseClass::Warning(T::read(es)?))
        } else if str_eq(class.as_str(), "Error") {
            Ok(ResponseClass::Error(ResponseError::from_entries(es)?))
        } else {
            Err(DeError::UnknownVariant)
        }
    }
}

/// The response messages of an operation, one per request item.
#[derive(Clone, Debug, PartialEq, Eq)]
pub struct ResponseMessages<T> {
    pub response_messages: Vec<ResponseClass<T>>,
}

impl<T: View> View for ResponseMessages<T> {
    type V = Seq<SpecResponseClass<T::V>>;

    open spec fn view(&self) -> Seq<SpecResponseClass<T::V>> {
        self.response_messages@.map_values(|c: ResponseClass<T>| c@)
    }
}

/// Every entry but attributes is one response message, in order.
pub open spec fn spec_response_message_list<T: ResponseMessageBody>(es: Seq<SpecXmlEntry>) -> Result<Seq<SpecResponseClass<T::V>>, DeError>
    decreases es.len(),
{
    if es.len() == 0 {
        Ok(seq![])
    } else if is_attribute_key(es[0].key) {
        spec_response_message_list::<T>(es.drop_first())
    } else {
        match spec_response_class::<T>(es[0].value) {
            Ok(c) => prepend_seq(seq![c], spec_response_message_list::<T>(es.drop_first())),
            Err(x) => Err(x),
        }
    }
}

pub open spec fn spec_response_messages<T: ResponseMessageBody>(v: SpecXmlValue) -> Result<Seq<SpecResponseClass<T::V>>, DeError> {
    match v {
        SpecXmlValue::Text(_) => Err(DeError::ExpectedElement),
        SpecXmlValue::Element(es) => spec_response_message_list::<T>(es),
    }
}

impl<T: ResponseMessageBody> ResponseMessages<T> {
    pub fn from_xml_value(v: &XmlValue) -> (r: Result<ResponseMessages<T>, DeError>)
        ensures
            result_view(r) == spec_response_messages::<T>(v@),
    {
        let es = match v {
            XmlValue::Text(_) => {
                return Err(DeError::ExpectedElement);
            },
            XmlValue::Element(es) => es,
        };
        let ghost ev = entries_view(es@);
        proof {
            lemma_entries_view(es@);
            assert(ev.skip(0) =~= ev);
            if let Ok(rest) = spec_response_message_list::<T>(ev) {
                assert(Seq::<SpecResponseClass<T::V>>::empty() + rest =~= rest);
            }
        }
        let mut list: Vec<ResponseClass<T>> = Vec::new();
        let mut i: usize = 0;
        while i < es.len()
            invariant
                i <= es.len(),
                v@ == SpecXmlValue::Element(ev),
                ev == entries_view(es@),
                ev.len() == es.len(),
                forall|j: int| 0 <= j < es.len() ==> #[trigger] ev[j] == entry_view(es@[j]),
                spec_response_message_list::<T>(ev) == prepend_seq(
                    list@.map_values(|c: ResponseClass<T>| c@),
                    spec_response_message_list::<T>(ev.skip(i as int)),
                ),
            decreases es.len() - i,
        {
            proof {
                lemma_skip_step(ev, i as int);
                assert(ev[i as int] == entry_view(es@[i as int]));
            }
            if !is_attribute_key_exec(&es[i].key) {
                let c = ResponseClass::<T>::from_xml_value(&es[i].value)?;
                let ghost before = list@.map_values(|c: ResponseClass<T>| c@);
                list.push(c);
                proof {
                    assert(list@.map_values(|c: ResponseClass<T>| c@) =~= before.push(c@));
                    if let Ok(rest) = spec_response_message_list::<T>(ev.skip(i + 1)) {
                        assert(before + (seq![c@] + rest) =~= before.push(c@) + rest);
                    }
                }
            }
            i += 1;
        }
        proof {
            assert(ev.skip(i as int) =~= Seq::<SpecXmlEntry>::empty());
            let acc = list@.map_values(|c: ResponseClass<T>| c@);
            assert(acc + Seq::<SpecResponseClass<T::V>>::empty() =~= acc);
        }
        Ok(ResponseMessages { response_messages: list })
    }
}

/// The `ResponseMessages` field of an operation's response, required once.
pub open spec fn spec_operation_response<T: ResponseMessageBody>(es: Seq<SpecXmlEntry>) -> Result<Seq<SpecResponseClass<T::V>>, DeError> {
    match spec_find_field(es, "ResponseMessages"@) {
        Err(e) => Err(e),
        Ok(None) => Err(DeError::MissingField),
        Ok(Some(v)) => spec_response_messages::<T>(v),
    }
}

/// Reads the `ResponseMessages` of an operation's response from the
/// entries of its root element.
pub fn read_operation_response<T: ResponseMessageBody>(es: &Vec<XmlEntry>) -> (r: Result<ResponseMessages<T>, DeError>)
    ensures
        result_view(r) == spec_operation_response::<T>(entries_view(es@)),
{
    match find_field(es, "ResponseMessages")? {
        None => Err(DeError::MissingField),
        Some(v) => ResponseMessages::<T>::from_xml_value(v),
    }
}


/// The entries of an element that are not attributes, in order.
pub open spec fn child_entries(es: Seq<SpecXmlEntry>) -> Seq<SpecXmlEntry>
    decreases es.len(),
{
    if es.len() == 0 {
        seq![]
    } else if is_attribute_key(es[0].key) {
        child_entries(es.drop_first())
    } else {
        seq![es[0]] + child_entries(es.drop_first())
    }
}

/// A `ResponseMessages` element holds one response message per child, in
/// order: the list is read exactly when every child is read, and then its
/// length is the number of children and its `i`-th message is the one read
/// from the `i`-th child.
pub proof fn law_one_response_message_per_child<T: ResponseMessageBody>(es: Seq<SpecXmlEntry>)
    ensures
        spec_response_message_list::<T>(es) is Ok <==> forall|i: int|
            0 <= i < child_entries(es).len() ==> #[trigger] spec_response_class::<T>(child_entries(es)[i].value) is Ok,
        spec_response_message_list::<T>(es) matches Ok(l) ==> {
            &&& l.len() == child_entries(es).len()
            &&& forall|i: int| 0 <= i < l.len() ==> #[trigger] spec_response_class::<T>(child_entries(es)[i].value)
                == Ok::<SpecResponseClass<T::V>, DeError>(l[i])
        },
    decreases es.len(),
{
    if es.len() > 0 {
        let rest = es.drop_first();
        law_one_response_message_per_child::<T>(rest);
        if !is_attribute_key(es[0].key) {
            let ch = child_entries(es);
            let chr = child_entries(rest);
            assert(ch == seq![es[0]] + chr);
            assert forall|i: int| 0 <= i < chr.len() implies ch[i + 1] == chr[i] by {}
            match spec_response_class::<T>(es[0].value) {
                Err(_) => {
                    assert(ch[0] == es[0]);
                },
                Ok(c) => {
                    assert(ch[0] == es[0]);
                    if (forall|i: int| 0 <= i < chr.len() ==> #[trigger] spec_response_class::<T>(chr[i].value) is Ok) {
                        assert forall|i: int| 0 <= i < ch.len() implies #[trigger] spec_response_class::<T>(ch[i].value) is Ok by {
                            if i > 0 {
                                assert(ch[i] == chr[i - 1]);
                            }
                        }
                    } else {
                        let j = choose|j: int| 0 <= j < chr.len() && !(#[trigger] spec_response_class::<T>(chr[j].value) is Ok);
                        assert(ch[j + 1] == chr[j]);
                    }
                    if let Ok(lr) = spec_response_message_list::<T>(rest) {
                        let l = seq![c] + lr;
                        assert forall|i: int| 0 <= i < l.len() implies #[trigger] spec_response_class::<T>(ch[i].value)
                            == Ok::<SpecResponseClass<T::V>, DeError>(l[i]) by {
                            if i > 0 {
                                assert(ch[i] == chr[i - 1]);
                                assert(l[i] == lr[i - 1]);
                            }
                        }
                    }
                },
            }
        }
    }
}

/// How the field `k` is found from how many entries carry it: none gives
/// no value, one gives the value of an entry with that key.
proof fn lemma_find_field_by_count(es: Seq<SpecXmlEntry>, k: Seq<char>)
    ensures
        key_count(es, k) == 0 ==> spec_find_field(es, k) == Ok::<Option<SpecXmlValue>, DeError>(None),
        key_count(es, k) == 1 ==> (spec_find_field(es, k) matches Ok(Some(v))
            && es.contains((SpecXmlEntry { key: k, value: v }))),
    decreases es.len(),
{
    if es.len() > 0 {
        let rest = es.drop_first();
        lemma_find_field_by_count(rest, k);
        if key_count(es, k) == 1 {
            if es[0].key == k {
                assert(es[0] == SpecXmlEntry { key: k, value: es[0].value });
            } else {
                let v = spec_find_field(rest, k)->Ok_0->Some_0;
                let j = choose|j: int| 0 <= j < rest.len() && rest[j] == SpecXmlEntry { key: k, value: v };
                assert(es[j + 1] == rest[j]);
            }
        }
    }
}

/// An error response message that gives its text and code once each and
/// carries no `MessageXml` is read, with no `MessageXml`.
pub proof fn law_error_without_message_xml_is_read(
    es: Seq<SpecXmlEntry>,
    message_text: Seq<char>,
    response_code: Seq<char>,
)
    requires
        key_count(es, "MessageText"@) == 1,
        key_count(es, "ResponseCode"@) == 1,
        key_count(es, "MessageXml"@) == 0,
        forall|e: SpecXmlEntry| #[trigger] es.contains(e) && e.key == "MessageText"@
            ==> spec_string_value(e.value) == Ok::<Seq<char>, DeError>(message_text),
        forall|e: SpecXmlEntry| #[trigger] es.contains(e) && e.key == "ResponseCode"@
            ==> spec_string_value(e.value) == Ok::<Seq<char>, DeError>(response_code),
    ensures
        spec_response_error(es) == Ok::<SpecResponseError, DeError>(
            SpecResponseError { message_text, response_code, message_xml: None },
        ),
{
    lemma_find_field_by_count(es, "MessageText"@);
    lemma_find_field_by_count(es, "ResponseCode"@);
    lemma_find_field_by_count(es, "MessageXml"@);
}


/// An `Items` element holds one item per child, in order: the items are read
/// exactly when every child is read, and then there are as many items as
/// children and the `i`-th item is the one read from the `i`-th child.
pub proof fn law_one_item_per_child(es: Seq<SpecXmlEntry>)
    ensures
        spec_items(es) is Ok <==> forall|i: int|
            0 <= i < child_entries(es).len() ==> #[trigger] spec_real_item(child_entries(es)[i]) is Ok,
        spec_items(es) matches Ok(l) ==> {
            &&& l.len() == child_entries(es).len()
            &&& forall|i: int| 0 <= i < l.len() ==> #[trigger] spec_real_item(child_entries(es)[i])
                == Ok::<SpecRealItem, DeError>(l[i])
        },
    decreases es.len(),
{
    if es.len() > 0 {
        let rest = es.drop_first();
        law_one_item_per_child(rest);
        if !is_attribute_key(es[0].key) {
            let ch = child_entries(es);
            let chr = child_entries(rest);
            assert(ch == seq![es[0]] + chr);
            assert(ch[0] == es[0]);
            match spec_real_item(es[0]) {
                Err(_) => {},
                Ok(c) => {
                    if (forall|i: int| 0 <= i < chr.len() ==> #[trigger] spec_real_item(chr[i]) is Ok) {
                        assert forall|i: int| 0 <= i < ch.len() implies #[trigger] spec_real_item(ch[i]) is Ok by {
                            if i > 0 {
                                assert(ch[i] == chr[i - 1]);
                            }
                        }
                    } else {
                        let j = choose|j: int| 0 <= j < chr.len() && !(#[trigger] spec_real_item(chr[j]) is Ok);
                        assert(ch[j + 1] == chr[j]);
                    }
                    if let Ok(lr) = spec_items(rest) {
                        let l = seq![c] + lr;
                        assert forall|i: int| 0 <= i < l.len() implies #[trigger] spec_real_item(ch[i])
                            == Ok::<SpecRealItem, DeError>(l[i]) by {
                            if i > 0 {
                                assert(ch[i] == chr[i - 1]);
                                assert(l[i] == lr[i - 1]);
                            }
                        }
                    }
                },
            }
        }
    }
}

/// A response message takes its variant from its `ResponseClass` attribute:
/// `Success` and `Warning` carry the body read from the message, `Error`
/// carries the error read from it, and any other class is unknown.
pub proof fn law_response_class_follows_attribute<T: ResponseMessageBody>(es: Seq<SpecXmlEntry>, class: Seq<char>)
    requires
        key_count(es, "@ResponseClass"@) == 1,
        forall|e: SpecXmlEntry| #[trigger] es.contains(e) && e.key == "@ResponseClass"@
            ==> e.value == SpecXmlValue::Text(class),
    ensures
        class == "Success"@ ==> spec_response_class::<T>(SpecXmlValue::Element(es)) == match T::spec_read(es) {
            Ok(t) => Ok(SpecResponseClass::Success(t)),
            Err(e) => Err(e),
        },
        class == "Warning"@ ==> spec_response_class::<T>(SpecXmlValue::Element(es)) == match T::spec_read(es) {
            Ok(t) => Ok(SpecResponseClass::Warning(t)),
            Err(e) => Err(e),
        },
        class == "Error"@ ==> spec_response_class::<T>(SpecXmlValue::Element(es)) == match spec_response_error(es) {
            Ok(e) => Ok(SpecResponseClass::<T::V>::Error(e)),
            Err(x) => Err(x),
        },
        class != "Success"@ && class != "Warning"@ && class != "Error"@
            ==> spec_response_class::<T>(SpecXmlValue::Element(es)) == Err::<SpecResponseClass<T::V>, DeError>(
            DeError::UnknownVariant,
        ),
{
    lemma_find_field_by_count(es, "@ResponseClass"@);
    reveal_strlit("Success");
    reveal_strlit("Warning");
    reveal_strlit("Error");
    assert("Success"@ != "Warning"@) by {
        assert("Success"@[0] != "Warning"@[0]);
    }
    assert("Success"@ != "Error"@ && "Warning"@ != "Error"@) by {
        assert("Success"@.len() != "Error"@.len());
    }
}


/// What finding the field `k` says of the entries: no value means no entry
/// has that key; a value means exactly one entry has it, with that value.
proof fn lemma_found_field(es: Seq<SpecXmlEntry>, k: Seq<char>)
    ensures
        spec_find_field(es, k) matches Ok(None) ==> key_count(es, k) == 0,
        spec_find_field(es, k) matches Ok(Some(v)) ==> key_count(es, k) == 1
            && es.contains((SpecXmlEntry { key: k, value: v })),
    decreases es.len(),
{
    if es.len() > 0 {
        let rest = es.drop_first();
        lemma_found_field(rest, k);
        if let Ok(Some(v)) = spec_find_field(es, k) {
            if es[0].key == k {
                assert(es[0] == SpecXmlEntry { key: k, value: v });
            } else {
                let j = choose|j: int| 0 <= j < rest.len() && rest[j] == SpecXmlEntry { key: k, value: v };
                assert(es[j + 1] == rest[j]);
            }
        }
    }
}

/// A string property of a message read from its element: present exactly
/// when one child carries its name, and then the text of that child.
pub open spec fn string_property_from(es: Seq<SpecXmlEntry>, name: Seq<char>, p: Option<Seq<char>>) -> bool {
    &&& p is None <==> key_count(es, name) == 0
    &&& p matches Some(s) ==> key_count(es, name) == 1 && exists|v: SpecXmlValue|
        #[trigger] es.contains((SpecXmlEntry { key: name, value: v })) && spec_string_value(v) == Ok::<Seq<char>, DeError>(s)
}

/// A date-time property of a message read from its element: present
/// exactly when one child carries its name, and then the instant that
/// child's text names.
pub open spec fn date_time_property_from(es: Seq<SpecXmlEntry>, name: Seq<char>, p: Option<i128>) -> bool {
    &&& p is None <==> key_count(es, name) == 0
    &&& p matches Some(t) ==> key_count(es, name) == 1 && exists|v: SpecXmlValue|
        #[trigger] es.contains((SpecXmlEntry { key: name, value: v })) && spec_date_time_value(v) == Ok::<i128, DeError>(t)
}

/// Each property of a message read from a response comes from the child
/// element named after it: `Subject`, `Start`, `End` and `Location` each
/// come from their own element, and a property is absent exactly when its
/// element is.
pub proof fn law_message_properties_come_from_their_elements(es: Seq<SpecXmlEntry>)
    ensures
        spec_message(SpecXmlValue::Element(es)) matches Ok(m) ==> {
            &&& string_property_from(es, "Subject"@, m.subject)
            &&& date_time_property_from(es, "Start"@, m.start)
            &&& date_time_property_from(es, "End"@, m.end)
            &&& string_property_from(es, "Location"@, m.location)
        },
{
    lemma_found_field(es, "Subject"@);
    lemma_found_field(es, "Start"@);
    lemma_found_field(es, "End"@);
    lemma_found_field(es, "Location"@);
    if let Ok(m) = spec_message(SpecXmlValue::Element(es)) {
        if let Ok(Some(v)) = spec_find_field(es, "Subject"@) {
            assert(es.contains((SpecXmlEntry { key: "Subject"@, value: v })));
        }
        if let Ok(Some(v)) = spec_find_field(es, "Start"@) {
            assert(es.contains((SpecXmlEntry { key: "Start"@, value: v })));
        }
        if let Ok(Some(v)) = spec_find_field(es, "End"@) {
            assert(es.contains((SpecXmlEntry { key: "End"@, value: v })));
        }
        if let Ok(Some(v)) = spec_find_field(es, "Location"@) {
            assert(es.contains((SpecXmlEntry { key: "Location"@, value: v })));
        }
    }
}

} // verus!
