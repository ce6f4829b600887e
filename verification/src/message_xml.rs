//! Semi-structured data attached to an EWS error response (`MessageXml`),
//! and the rules by which it is read from the deserializer's view of XML.
use vstd::prelude::*;

use crate::content::{entries_view, entry_view, lemma_entries_view, lemma_skip_step, DeError, SpecXmlEntry, SpecXmlValue, XmlEntry, XmlValue};
use crate::text::{decimal_digits, lemma_parse_decimal_digits, parse_u32, spec_parse_u32, str_eq};

verus! {

/// The namespace of EWS types (the `t:` prefix).
pub const TYPES_NS_URI: &'static str = "http://schemas.microsoft.com/exchange/services/2006/types";

/// The key under which the deserializer presents an element's text.
pub const TEXT_KEY: &'static str = "$text";

/// The key of the `Name` attribute of a `Value` element.
pub const NAME_KEY: &'static str = "@Name";

/// The local name of `Value` elements.
pub const VALUE_KEY: &'static str = "Value";

/// The `Name` of the `Value` element that carries a server back-off.
pub const BACK_OFF_NAME: &'static str = "BackOffMilliseconds";

/// Semi-structured data for diagnosing or responding to an EWS error.
///
/// Because the possible contents of this field are not documented, this may not
/// precisely represent all potential messages. Known fields that are relevant
/// for programmatic error responses are variants of their own; all other
/// responses are represented via the `Other` variant.
#[derive(Clone, Debug, PartialEq, Eq)]
#[non_exhaustive]
pub enum MessageXml {
    ServerBusy(ServerBusy),
    /// Any elements not handled above, for debugging and troubleshooting purposes.
    Other(MessageXmlElements),
}

/// One of the two observed kinds of MessageXml elements: a Value named via the @Name attribute.
#[derive(Debug, Clone, PartialEq, Eq)]
pub struct MessageXmlValue {
    pub name: String,
    pub value: String,
}

/// One of the two observed kinds of MessageXml elements: a tag with a single text value.
#[derive(Debug, Clone, PartialEq, Eq)]
pub struct MessageXmlTagged {
    pub name: String,
    pub value: String,
}

/// A tag with one or more XML attributes and no text content, e.g.
/// `<t:FieldURI FieldURI="calendar:IsMeeting"/>`.
#[derive(Debug, Clone, PartialEq, Eq)]
pub struct MessageXmlAttributed {
    pub name: String,
    pub attributes: Vec<(String, String)>,
}

#[derive(Debug, Clone, PartialEq, Eq)]
pub struct MessageXmlElements {
    pub elements: Vec<MessageXmlElement>,
}

#[derive(Debug, Clone, PartialEq, Eq)]
pub enum MessageXmlElement {
    MessageXmlTagged(MessageXmlTagged),
    MessageXmlValue(MessageXmlValue),
    MessageXmlAttributed(MessageXmlAttributed),
}

/// Data associated with an `ErrorServerBusy` response code.
#[derive(Debug, Clone, PartialEq, Eq)]
pub struct ServerBusy {
    /// The duration in milliseconds to wait before making additional requests.
    pub back_off_milliseconds: u32,
}

/// The content of one element of a `MessageXml`: its text, the declaration
/// of the types namespace, or, if it has neither, its XML attributes.
#[derive(Debug, Clone, PartialEq, Eq)]
enum Text {
    Content(String),
    TypesNsDeclaration,
    Attributed(Vec<(String, String)>),
}

// ----- Models -----

/// A list of name/value string pairs, as mathematical sequences.
pub open spec fn pairs_view(v: Seq<(String, String)>) -> Seq<(Seq<char>, Seq<char>)> {
    v.map_values(|p: (String, String)| (p.0@, p.1@))
}

pub enum SpecText {
    Content(Seq<char>),
    TypesNsDeclaration,
    Attributed(Seq<(Seq<char>, Seq<char>)>),
}

impl View for Text {
    type V = SpecText;

    closed spec fn view(&self) -> SpecText {
        match self {
            Text::Content(s) => SpecText::Content(s@),
            Text::TypesNsDeclaration => SpecText::TypesNsDeclaration,
            Text::Attributed(a) => SpecText::Attributed(pairs_view(a@)),
        }
    }
}

impl View for MessageXmlValue {
    type V = (Seq<char>, Seq<char>);

    open spec fn view(&self) -> (Seq<char>, Seq<char>) {
        (self.name@, self.value@)
    }
}

/// The model of a [`MessageXmlElement`].
pub enum SpecMessageXmlElement {
    Tagged { name: Seq<char>, value: Seq<char> },
    Value { name: Seq<char>, value: Seq<char> },
    Attributed { name: Seq<char>, attributes: Seq<(Seq<char>, Seq<char>)> },
}

impl View for MessageXmlElement {
    type V = SpecMessageXmlElement;

    open spec fn view(&self) -> SpecMessageXmlElement {
        match self {
            MessageXmlElement::MessageXmlTagged(t) => SpecMessageXmlElement::Tagged {
                name: t.name@,
                value: t.value@,
            },
            MessageXmlElement::MessageXmlValue(v) => SpecMessageXmlElement::Value {
                name: v.name@,
                value: v.value@,
            },
            MessageXmlElement::MessageXmlAttributed(a) => SpecMessageXmlElement::Attributed {
                name: a.name@,
                attributes: pairs_view(a.attributes@),
            },
        }
    }
}

impl View for MessageXmlElements {
    type V = Seq<SpecMessageXmlElement>;

    open spec fn view(&self) -> Seq<SpecMessageXmlElement> {
        self.elements@.map_values(|e: MessageXmlElement| e@)
    }
}

/// The model of a [`MessageXml`].
pub enum SpecMessageXml {
    ServerBusy { back_off_milliseconds: u32 },
    Other { elements: Seq<SpecMessageXmlElement> },
}

impl View for MessageXml {
    type V = SpecMessageXml;

    open spec fn view(&self) -> SpecMessageXml {
        match self {
            MessageXml::ServerBusy(b) => SpecMessageXml::ServerBusy {
                back_off_milliseconds: b.back_off_milliseconds,
            },
            MessageXml::Other(e) => SpecMessageXml::Other { elements: e@ },
        }
    }
}

/// A result, with its success value taken by its model.
pub open spec fn result_view<T: View>(r: Result<T, DeError>) -> Result<T::V, DeError> {
    match r {
        Ok(t) => Ok(t@),
        Err(e) => Err(e),
    }
}

// ----- The rules, over the model -----

pub open spec fn is_attribute_key(k: Seq<char>) -> bool {
    k.len() > 0 && k[0] == '@'
}

/// Text given directly as a string: the namespace declaration if it is the
/// types namespace, content otherwise.
pub open spec fn spec_text_from_str(s: Seq<char>) -> SpecText {
    if s == TYPES_NS_URI@ {
        SpecText::TypesNsDeclaration
    } else {
        SpecText::Content(s)
    }
}

pub open spec fn prepend_attributes(
    acc: Seq<(Seq<char>, Seq<char>)>,
    r: Result<SpecText, DeError>,
) -> Result<SpecText, DeError> {
    match r {
        Ok(SpecText::Attributed(rest)) => Ok(SpecText::Attributed(acc + rest)),
        _ => r,
    }
}

/// Text read from an element's entries: the first `$text` entry gives the
/// content, an entry keyed by the types namespace gives the declaration, and
/// otherwise the attributes (`@` keys, prefix removed) are collected in order.
/// Other entries are ignored.
pub open spec fn spec_text_from_entries(es: Seq<SpecXmlEntry>) -> Result<SpecText, DeError>
    decreases es.len(),
{
    if es.len() == 0 {
        Ok(SpecText::Attributed(seq![]))
    } else {
        let e = es[0];
        if e.key == TEXT_KEY@ {
            match e.value {
                SpecXmlValue::Text(s) => Ok(SpecText::Content(s)),
                SpecXmlValue::Element(_) => Err(DeError::ExpectedText),
            }
        } else if e.key == TYPES_NS_URI@ {
            Ok(SpecText::TypesNsDeclaration)
        } else if is_attribute_key(e.key) {
            match e.value {
                SpecXmlValue::Text(s) => prepend_attributes(
                    seq![(e.key.drop_first(), s)],
                    spec_text_from_entries(es.drop_first()),
                ),
                SpecXmlValue::Element(_) => Err(DeError::ExpectedText),
            }
        } else {
            spec_text_from_entries(es.drop_first())
        }
    }
}

pub open spec fn spec_text_from_value(v: SpecXmlValue) -> Result<SpecText, DeError> {
    match v {
        SpecXmlValue::Text(s) => Ok(spec_text_from_str(s)),
        SpecXmlValue::Element(es) => spec_text_from_entries(es),
    }
}

/// The `@Name` and `$text` fields of a `Value` element, each required once;
/// other entries are ignored.
pub open spec fn spec_value_fields(
    es: Seq<SpecXmlEntry>,
    name: Option<Seq<char>>,
    text: Option<Seq<char>>,
) -> Result<(Seq<char>, Seq<char>), DeError>
    decreases es.len(),
{
    if es.len() == 0 {
        match (name, text) {
            (Some(n), Some(t)) => Ok((n, t)),
            _ => Err(DeError::MissingField),
        }
    } else {
        let e = es[0];
        if e.key == NAME_KEY@ {
            if name is Some {
                Err(DeError::DuplicateField)
            } else {
                match e.value {
                    SpecXmlValue::Text(s) => spec_value_fields(es.drop_first(), Some(s), text),
                    SpecXmlValue::Element(_) => Err(DeError::ExpectedText),
                }
            }
        } else if e.key == TEXT_KEY@ {
            if text is Some {
                Err(DeError::DuplicateField)
            } else {
                match e.value {
                    SpecXmlValue::Text(s) => spec_value_fields(es.drop_first(), name, Some(s)),
                    SpecXmlValue::Element(_) => Err(DeError::ExpectedText),
                }
            }
        } else {
            spec_value_fields(es.drop_first(), name, text)
        }
    }
}

/// A [`MessageXmlValue`], as `(name, value)`.
pub open spec fn spec_message_xml_value(v: SpecXmlValue) -> Result<(Seq<char>, Seq<char>), DeError> {
    match v {
        SpecXmlValue::Text(_) => Err(DeError::ExpectedElement),
        SpecXmlValue::Element(es) => spec_value_fields(es, None, None),
    }
}

/// The back-off of a server-busy message: the first `Value` element named
/// `BackOffMilliseconds` decides; entries not keyed `Value` are skipped.
pub open spec fn spec_server_busy(es: Seq<SpecXmlEntry>) -> Result<u32, DeError>
    decreases es.len(),
{
    if es.len() == 0 {
        Err(DeError::NoBackOffMilliseconds)
    } else if es[0].key == VALUE_KEY@ {
        match spec_message_xml_value(es[0].value) {
            Err(e) => Err(e),
            Ok((name, value)) => if name == BACK_OFF_NAME@ {
                match spec_parse_u32(value) {
                    Some(n) => Ok(n),
                    None => Err(DeError::InvalidNumber),
                }
            } else {
                spec_server_busy(es.drop_first())
            },
        }
    } else {
        spec_server_busy(es.drop_first())
    }
}

/// The element, if any, that one entry of a `MessageXml` contributes.
pub open spec fn spec_element_of(e: SpecXmlEntry) -> Result<Option<SpecMessageXmlElement>, DeError> {
    if e.key == VALUE_KEY@ {
        match spec_message_xml_value(e.value) {
            Ok((n, v)) => Ok(Some(SpecMessageXmlElement::Value { name: n, value: v })),
            Err(x) => Err(x),
        }
    } else {
        match spec_text_from_value(e.value) {
            Ok(SpecText::Content(s)) => Ok(Some(SpecMessageXmlElement::Tagged { name: e.key, value: s })),
            Ok(SpecText::TypesNsDeclaration) => Ok(None),
            Ok(SpecText::Attributed(a)) => if a.len() > 0 {
                Ok(Some(SpecMessageXmlElement::Attributed { name: e.key, attributes: a }))
            } else {
                Ok(Some(SpecMessageXmlElement::Tagged { name: e.key, value: seq![] }))
            },
            Err(x) => Err(x),
        }
    }
}

pub open spec fn option_seq<A>(o: Option<A>) -> Seq<A> {
    match o {
        Some(a) => seq![a],
        None => seq![],
    }
}

/// Every attributed element holds at least one attribute.
pub open spec fn attributes_present(els: Seq<SpecMessageXmlElement>) -> bool {
    forall|i: int|
        0 <= i < els.len() ==> (#[trigger] els[i] matches SpecMessageXmlElement::Attributed {
            attributes,
            ..
        } ==> attributes.len() > 0)
}

/// Every entry in order contributes its element; the first failure decides.
pub open spec fn spec_elements(es: Seq<SpecXmlEntry>) -> Result<Seq<SpecMessageXmlElement>, DeError>
    decreases es.len(),
{
    if es.len() == 0 {
        Ok(seq![])
    } else {
        match spec_element_of(es[0]) {
            Err(x) => Err(x),
            Ok(h) => match spec_elements(es.drop_first()) {
                Ok(rest) => Ok(option_seq(h) + rest),
                Err(x) => Err(x),
            },
        }
    }
}

/// A `MessageXml` is `ServerBusy` when that reading succeeds, and `Other`
/// otherwise; text alone matches neither.
pub open spec fn spec_message_xml(v: SpecXmlValue) -> Result<SpecMessageXml, DeError> {
    match v {
        SpecXmlValue::Text(_) => Err(DeError::NoMatchingVariant),
        SpecXmlValue::Element(es) => match spec_server_busy(es) {
            Ok(n) => Ok(SpecMessageXml::ServerBusy { back_off_milliseconds: n }),
            Err(_) => match spec_elements(es) {
                Ok(els) => Ok(SpecMessageXml::Other { elements: els }),
                Err(_) => Err(DeError::NoMatchingVariant),
            },
        },
    }
}

pub open spec fn option_view(o: Option<String>) -> Option<Seq<char>> {
    match o {
        Some(s) => Some(s@),
        None => None,
    }
}

pub open spec fn prepend_elements(
    acc: Seq<SpecMessageXmlElement>,
    r: Result<Seq<SpecMessageXmlElement>, DeError>,
) -> Result<Seq<SpecMessageXmlElement>, DeError> {
    match r {
        Ok(rest) => Ok(acc + rest),
        Err(x) => Err(x),
    }
}

// ----- Lemmas used by the readers below -----

proof fn lemma_prepend_attributes(
    acc: Seq<(Seq<char>, Seq<char>)>,
    p: (Seq<char>, Seq<char>),
    r: Result<SpecText, DeError>,
)
    ensures
        prepend_attributes(acc, prepend_attributes(seq![p], r)) == prepend_attributes(acc.push(p), r),
{
    if let Ok(SpecText::Attributed(rest)) = r {
        assert(acc + (seq![p] + rest) =~= acc.push(p) + rest);
    }
}

proof fn lemma_prepend_attributes_empty(r: Result<SpecText, DeError>)
    ensures
        prepend_attributes(seq![], r) == r,
{
    if let Ok(SpecText::Attributed(rest)) = r {
        assert(Seq::<(Seq<char>, Seq<char>)>::empty() + rest =~= rest);
    }
}

proof fn lemma_pairs_view_push(v: Seq<(String, String)>, p: (String, String))
    ensures
        pairs_view(v.push(p)) == pairs_view(v).push((p.0@, p.1@)),
{
    assert(pairs_view(v.push(p)) =~= pairs_view(v).push((p.0@, p.1@)));
}

// ----- Readers -----

/// Whether `s` begins with `@`, the mark of an attribute key.
pub(crate) fn is_attribute_key_exec(s: &String) -> (r: bool)
    ensures
        r == is_attribute_key(s@),
{
    let n = s.as_str().unicode_len();
    n > 0 && s.as_str().get_char(0) == '@'
}

/// `s` without its first character.
fn drop_first_char(s: &String) -> (r: String)
    requires
        s@.len() > 0,
    ensures
        r@ == s@.drop_first(),
{
    let n = s.as_str().unicode_len();
    let r = s.as_str().substring_char(1, n).to_owned();
    assert(r@ =~= s@.drop_first());
    r
}

fn text_from_str(v: &String) -> (r: Text)
    ensures
        r@ == spec_text_from_str(v@),
{
    if str_eq(v.as_str(), TYPES_NS_URI) {
        Text::TypesNsDeclaration
    } else {
        Text::Content(v.clone())
    }
}

fn text_from_entries(es: &Vec<XmlEntry>) -> (r: Result<Text, DeError>)
    ensures
        result_view(r) == spec_text_from_entries(entries_view(es@)),
{
    let ghost ev = entries_view(es@);
    proof {
        lemma_entries_view(es@);
    }
    let mut attrs: Vec<(String, String)> = Vec::new();
    let mut i: usize = 0;
    proof {
        assert(ev.skip(0) =~= ev);
        assert(pairs_view(attrs@) =~= seq![]);
        lemma_prepend_attributes_empty(spec_text_from_entries(ev));
    }
    while i < es.len()
        invariant
            i <= es.len(),
            ev == entries_view(es@),
            ev.len() == es.len(),
            forall|j: int| 0 <= j < es.len() ==> #[trigger] ev[j] == entry_view(es@[j]),
            spec_text_from_entries(ev) == prepend_attributes(
                pairs_view(attrs@),
                spec_text_from_entries(ev.skip(i as int)),
            ),
        decreases es.len() - i,
    {
        let e = &es[i];
        proof {
            lemma_skip_step(ev, i as int);
            assert(ev[i as int] == entry_view(es@[i as int]));
        }
        if str_eq(e.key.as_str(), TEXT_KEY) {
            match &e.value {
                XmlValue::Text(s) => {
                    return Ok(Text::Content(s.clone()));
                },
                XmlValue::Element(_) => {
                    return Err(DeError::ExpectedText);
                },
            }
        } else if str_eq(e.key.as_str(), TYPES_NS_URI) {
            return Ok(Text::TypesNsDeclaration);
        } else if is_attribute_key_exec(&e.key) {
            match &e.value {
                XmlValue::Text(s) => {
                    let name = drop_first_char(&e.key);
                    let value = s.clone();
                    proof {
                        lemma_prepend_attributes(
                            pairs_view(attrs@),
                            (name@, value@),
                            spec_text_from_entries(ev.skip(i + 1)),
                        );
                        lemma_pairs_view_push(attrs@, (name, value));
                    }
                    attrs.push((name, value));
                },
                XmlValue::Element(_) => {
                    return Err(DeError::ExpectedText);
                },
            }
        }
        i += 1;
    }
    proof {
        assert(ev.skip(i as int) =~= Seq::<SpecXmlEntry>::empty());
        assert(pairs_view(attrs@) + Seq::<(Seq<char>, Seq<char>)>::empty() =~= pairs_view(attrs@));
    }
    Ok(Text::Attributed(attrs))
}

fn text_from_value(v: &XmlValue) -> (r: Result<Text, DeError>)
    ensures
        result_view(r) == spec_text_from_value(v@),
{
    match v {
        XmlValue::Text(s) => Ok(text_from_str(s)),
        XmlValue::Element(es) => text_from_entries(es),
    }
}

impl MessageXmlValue {
    /// Reads a `Value` element: its `Name` attribute and its text, each
    /// required exactly once.
    pub fn from_xml_value(v: &XmlValue) -> (r: Result<MessageXmlValue, DeError>)
        ensures
            result_view(r) == spec_message_xml_value(v@),
    {
        let es = match v {
            XmlValue::Text(_) => {
                return Err(DeError::ExpectedElement);
            },
            XmlValue::Element(es) => es,
        };
        let ghost ev = entries_view(es@);
        proof {
            lemma_entries_view(es@);
        }
        let mut name: Option<String> = None;
        let mut text: Option<String> = None;
        let mut i: usize = 0;
        proof {
            assert(ev.skip(0) =~= ev);
        }
        while i < es.len()
            invariant
                i <= es.len(),
                ev == entries_view(es@),
                ev.len() == es.len(),
                forall|j: int| 0 <= j < es.len() ==> #[trigger] ev[j] == entry_view(es@[j]),
                v@ == SpecXmlValue::Element(ev),
                spec_value_fields(ev, None, None) == spec_value_fields(
                    ev.skip(i as int),
                    option_view(name),
                    option_view(text),
                ),
            decreases es.len() - i,
        {
            let e = &es[i];
            proof {
                lemma_skip_step(ev, i as int);
                assert(ev[i as int] == entry_view(es@[i as int]));
            }
            if str_eq(e.key.as_str(), NAME_KEY) {
                if name.is_some() {
                    return Err(DeError::DuplicateField);
                }
                match &e.value {
                    XmlValue::Text(s) => {
                        name = Some(s.clone());
                    },
                    XmlValue::Element(_) => {
                        return Err(DeError::ExpectedText);
                    },
                }
            } else if str_eq(e.key.as_str(), TEXT_KEY) {
                if text.is_some() {
                    return Err(DeError::DuplicateField);
                }
                match &e.value {
                    XmlValue::Text(s) => {
                        text = Some(s.clone());
                    },
                    XmlValue::Element(_) => {
                        return Err(DeError::ExpectedText);
                    },
                }
            }
            i += 1;
        }
        proof {
            assert(ev.skip(i as int) =~= Seq::<SpecXmlEntry>::empty());
        }
        match (name, text) {
            (Some(n), Some(t)) => Ok(MessageXmlValue { name: n, value: t }),
            _ => Err(DeError::MissingField),
        }
    }
}

impl ServerBusy {
    /// Reads a server-busy message from the entries of a `MessageXml`
    /// element: the first `Value` element named `BackOffMilliseconds` gives
    /// the back-off, which must be an unsigned 32-bit number.
    pub fn from_entries(es: &Vec<XmlEntry>) -> (r: Result<ServerBusy, DeError>)
        ensures
            match r {
                Ok(b) => spec_server_busy(entries_view(es@)) == Ok::<u32, DeError>(
                    b.back_off_milliseconds,
                ),
                Err(e) => spec_server_busy(entries_view(es@)) == Err::<u32, DeError>(e),
            },
    {
        let ghost ev = entries_view(es@);
        proof {
            lemma_entries_view(es@);
            assert(ev.skip(0) =~= ev);
        }
        let mut i: usize = 0;
        while i < es.len()
            invariant
                i <= es.len(),
                ev == entries_view(es@),
                ev.len() == es.len(),
                forall|j: int| 0 <= j < es.len() ==> #[trigger] ev[j] == entry_view(es@[j]),
                spec_server_busy(ev) == spec_server_busy(ev.skip(i as int)),
            decreases es.len() - i,
        {
            let e = &es[i];
            proof {
                lemma_skip_step(ev, i as int);
                assert(ev[i as int] == entry_view(es@[i as int]));
            }
            if str_eq(e.key.as_str(), VALUE_KEY) {
                let value = MessageXmlValue::from_xml_value(&e.value)?;
                if str_eq(value.name.as_str(), BACK_OFF_NAME) {
                    return match parse_u32(value.value.as_str()) {
                        Some(ms) => Ok(ServerBusy { back_off_milliseconds: ms }),
                        None => Err(DeError::InvalidNumber),
                    };
                }
            }
            i += 1;
        }
        proof {
            assert(ev.skip(i as int) =~= Seq::<SpecXmlEntry>::empty());
        }
        Err(DeError::NoBackOffMilliseconds)
    }
}

/// The element, if any, that one entry of a `MessageXml` contributes.
fn element_of(e: &XmlEntry) -> (r: Result<Option<MessageXmlElement>, DeError>)
    ensures
        spec_element_of(entry_view(*e)) == match r {
            Ok(Some(el)) => Ok(Some(el@)),
            Ok(None) => Ok(None),
            Err(x) => Err::<Option<SpecMessageXmlElement>, DeError>(x),
        },
{
    if str_eq(e.key.as_str(), VALUE_KEY) {
        let value = MessageXmlValue::from_xml_value(&e.value)?;
        Ok(Some(MessageXmlElement::MessageXmlValue(value)))
    } else {
        match text_from_value(&e.value)? {
            Text::Content(value) => Ok(
                Some(MessageXmlElement::MessageXmlTagged(MessageXmlTagged { name: e.key.clone(), value })),
            ),
            Text::TypesNsDeclaration => Ok(None),
            Text::Attributed(attributes) => if attributes.len() > 0 {
                Ok(
                    Some(
                        MessageXmlElement::MessageXmlAttributed(
                            MessageXmlAttributed { name: e.key.clone(), attributes },
                        ),
                    ),
                )
            } else {
                Ok(
                    Some(
                        MessageXmlElement::MessageXmlTagged(
                            MessageXmlTagged { name: e.key.clone(), value: String::new() },
                        ),
                    ),
                )
            },
        }
    }
}

impl MessageXmlElements {
    /// Reads the elements of a `MessageXml` from its entries, in order. An
    /// entry keyed `Value` becomes a [`MessageXmlValue`]; any other becomes a
    /// tagged element (its text, empty if it has neither text nor
    /// attributes), an attributed element (attributes and no text), or, for
    /// the declaration of the types namespace, nothing.
    pub fn from_entries(es: &Vec<XmlEntry>) -> (r: Result<MessageXmlElements, DeError>)
        ensures
            result_view(r) == spec_elements(entries_view(es@)),
            r matches Ok(els) ==> attributes_present(els@),
    {
        proof {
            lemma_elements_attributes_present(entries_view(es@));
        }
        let ghost ev = entries_view(es@);
        proof {
            lemma_entries_view(es@);
            assert(ev.skip(0) =~= ev);
            if let Ok(rest) = spec_elements(ev) {
                assert(Seq::<SpecMessageXmlElement>::empty() + rest =~= rest);
            }
        }
        let mut elements: Vec<MessageXmlElement> = Vec::new();
        let mut i: usize = 0;
        while i < es.len()
            invariant
                i <= es.len(),
                ev == entries_view(es@),
                ev.len() == es.len(),
                forall|j: int| 0 <= j < es.len() ==> #[trigger] ev[j] == entry_view(es@[j]),
                spec_elements(ev) == prepend_elements(
                    elements@.map_values(|e: MessageXmlElement| e@),
                    spec_elements(ev.skip(i as int)),
                ),
            decreases es.len() - i,
        {
            let e = &es[i];
            proof {
                lemma_skip_step(ev, i as int);
                assert(ev[i as int] == entry_view(es@[i as int]));
            }
            let ghost before = elements@.map_values(|e: MessageXmlElement| e@);
            let ghost rest = spec_elements(ev.skip(i + 1));
            match element_of(e)? {
                Some(el) => {
                    elements.push(el);
                    proof {
                        assert(elements@.map_values(|e: MessageXmlElement| e@) =~= before.push(el@));
                        if let Ok(r) = rest {
                            assert(before + (seq![el@] + r) =~= before.push(el@) + r);
                        }
                    }
                },
                None => {
                    proof {
                        if let Ok(r) = rest {
                            assert(Seq::<SpecMessageXmlElement>::empty() + r =~= r);
                        }
                    }
                },
            }
            i += 1;
        }
        proof {
            assert(ev.skip(i as int) =~= Seq::<SpecXmlEntry>::empty());
            let acc = elements@.map_values(|e: MessageXmlElement| e@);
            assert(acc + Seq::<SpecMessageXmlElement>::empty() =~= acc);
        }
        Ok(MessageXmlElements { elements })
    }
}

impl MessageXml {
    /// Reads a `MessageXml` element. It is a [`ServerBusy`] when it holds a
    /// `Value` named `BackOffMilliseconds` with a valid number (the first such
    /// `Value` decides); otherwise it is `Other`, which matches any element
    /// whose entries can all be read as elements.
    pub fn from_xml_value(v: &XmlValue) -> (r: Result<MessageXml, DeError>)
        ensures
            result_view(r) == spec_message_xml(v@),
            r matches Ok(MessageXml::Other(els)) ==> attributes_present(els@),
    {
        match v {
            XmlValue::Text(_) => Err(DeError::NoMatchingVariant),
            XmlValue::Element(es) => match ServerBusy::from_entries(es) {
                Ok(b) => Ok(MessageXml::ServerBusy(b)),
                Err(_) => match MessageXmlElements::from_entries(es) {
                    Ok(e) => Ok(MessageXml::Other(e)),
                    Err(_) => Err(DeError::NoMatchingVariant),
                },
            },
        }
    }
}

// ----- Laws -----

/// Whatever `MessageXml` elements are read, each attributed one holds at
/// least one attribute: an element with neither text nor attributes is read
/// as a tagged element with empty text.
pub proof fn lemma_elements_attributes_present(es: Seq<SpecXmlEntry>)
    ensures
        spec_elements(es) matches Ok(els) ==> attributes_present(els),
    decreases es.len(),
{
    if es.len() > 0 {
        lemma_elements_attributes_present(es.drop_first());
        if let Ok(els) = spec_elements(es) {
            let h = spec_element_of(es[0])->Ok_0;
            let rest = spec_elements(es.drop_first())->Ok_0;
            assert(els == option_seq(h) + rest);
            assert forall|i: int| 0 <= i < els.len() implies (#[trigger] els[i] matches SpecMessageXmlElement::Attributed {
                attributes,
                ..
            } ==> attributes.len() > 0) by {
                if i < option_seq(h).len() {
                    assert(els[i] == h->Some_0);
                } else {
                    assert(els[i] == rest[i - option_seq(h).len()]);
                }
            }
        }
    }
}

/// How many entries carry key `k`.
pub open spec fn key_count(es: Seq<SpecXmlEntry>, k: Seq<char>) -> nat
    decreases es.len(),
{
    if es.len() == 0 {
        0
    } else {
        (if es[0].key == k { 1nat } else { 0nat }) + key_count(es.drop_first(), k)
    }
}

/// Every entry holds text.
pub open spec fn all_text_entries(es: Seq<SpecXmlEntry>) -> bool {
    forall|j: int| 0 <= j < es.len() ==> (#[trigger] es[j]).value is Text
}

/// An entry of a single-layer `MessageXml`: text, or an element whose own
/// entries are all text; a `Value` element holds exactly one `Name`
/// attribute and one text.
pub open spec fn is_single_layer_entry(e: SpecXmlEntry) -> bool {
    match e.value {
        SpecXmlValue::Text(_) => e.key != VALUE_KEY@,
        SpecXmlValue::Element(sub) => {
            &&& all_text_entries(sub)
            &&& e.key == VALUE_KEY@ ==> key_count(sub, NAME_KEY@) == 1 && key_count(
                sub,
                TEXT_KEY@,
            ) == 1
        },
    }
}

proof fn lemma_text_entries_ok(es: Seq<SpecXmlEntry>)
    requires
        all_text_entries(es),
    ensures
        spec_text_from_entries(es) is Ok,
    decreases es.len(),
{
    if es.len() > 0 {
        assert(es[0].value is Text);
        let rest = es.drop_first();
        assert forall|j: int| 0 <= j < rest.len() implies (#[trigger] rest[j]).value is Text by {
            assert(rest[j] == es[j + 1]);
        }
        lemma_text_entries_ok(rest);
    }
}

proof fn lemma_value_fields_ok(
    es: Seq<SpecXmlEntry>,
    name: Option<Seq<char>>,
    text: Option<Seq<char>>,
)
    requires
        all_text_entries(es),
        key_count(es, NAME_KEY@) == (if name is Some { 0nat } else { 1nat }),
        key_count(es, TEXT_KEY@) == (if text is Some { 0nat } else { 1nat }),
    ensures
        spec_value_fields(es, name, text) is Ok,
    decreases es.len(),
{
    reveal_strlit("@Name");
    reveal_strlit("$text");
    assert(NAME_KEY@[0] != TEXT_KEY@[0]);
    if es.len() > 0 {
        assert(es[0].value is Text);
        let rest = es.drop_first();
        assert forall|j: int| 0 <= j < rest.len() implies (#[trigger] rest[j]).value is Text by {
            assert(rest[j] == es[j + 1]);
        }
        if es[0].key == NAME_KEY@ {
            lemma_value_fields_ok(rest, Some(es[0].value->Text_0), text);
        } else if es[0].key == TEXT_KEY@ {
            lemma_value_fields_ok(rest, name, Some(es[0].value->Text_0));
        } else {
            lemma_value_fields_ok(rest, name, text);
        }
    }
}

proof fn lemma_elements_ok(es: Seq<SpecXmlEntry>)
    requires
        forall|i: int| 0 <= i < es.len() ==> #[trigger] spec_element_of(es[i]) is Ok,
    ensures
        spec_elements(es) is Ok,
    decreases es.len(),
{
    if es.len() > 0 {
        let rest = es.drop_first();
        assert forall|i: int| 0 <= i < rest.len() implies #[trigger] spec_element_of(rest[i]) is Ok by {
            assert(rest[i] == es[i + 1]);
        }
        lemma_elements_ok(rest);
    }
}

/// A single-layer `MessageXml` is always read: as `ServerBusy` when it
/// carries a valid back-off, and as `Other` in every other case.
pub proof fn law_single_layer_message_xml_is_read(es: Seq<SpecXmlEntry>)
    requires
        forall|i: int| 0 <= i < es.len() ==> is_single_layer_entry(#[trigger] es[i]),
    ensures
        spec_message_xml(SpecXmlValue::Element(es)) is Ok,
        spec_server_busy(es) is Err ==> spec_message_xml(SpecXmlValue::Element(es))->Ok_0 is Other,
{
    assert forall|i: int| 0 <= i < es.len() implies #[trigger] spec_element_of(es[i]) is Ok by {
        let e = es[i];
        assert(is_single_layer_entry(e));
        match e.value {
            SpecXmlValue::Text(_) => {},
            SpecXmlValue::Element(sub) => {
                if e.key == VALUE_KEY@ {
                    lemma_value_fields_ok(sub, None, None);
                } else {
                    lemma_text_entries_ok(sub);
                }
            },
        }
    }
    lemma_elements_ok(es);
}


/// The entry of a `Value` element named `BackOffMilliseconds` whose text is
/// the decimal form of `n`: `<t:Value Name="BackOffMilliseconds">n</t:Value>`.
pub open spec fn back_off_entry(n: u32) -> SpecXmlEntry {
    SpecXmlEntry {
        key: VALUE_KEY@,
        value: SpecXmlValue::Element(seq![
            SpecXmlEntry { key: NAME_KEY@, value: SpecXmlValue::Text(BACK_OFF_NAME@) },
            SpecXmlEntry { key: TEXT_KEY@, value: SpecXmlValue::Text(decimal_digits(n as nat)) },
        ]),
    }
}

/// The `Value` element of [`back_off_entry`] is read as named
/// `BackOffMilliseconds`, with the decimal text of `n`.
proof fn lemma_back_off_entry_value(n: u32)
    ensures
        spec_message_xml_value(back_off_entry(n).value)
            == Ok::<(Seq<char>, Seq<char>), DeError>((BACK_OFF_NAME@, decimal_digits(n as nat))),
        spec_parse_u32(decimal_digits(n as nat)) == Some(n),
{
    reveal_strlit("@Name");
    reveal_strlit("$text");
    let fields = back_off_entry(n).value->Element_0;
    assert(NAME_KEY@ != TEXT_KEY@) by {
        assert(NAME_KEY@[0] != TEXT_KEY@[0]);
    }
    assert(fields.drop_first().drop_first() =~= Seq::<SpecXmlEntry>::empty());
    assert(spec_value_fields(fields.drop_first().drop_first(), Some(BACK_OFF_NAME@), Some(decimal_digits(n as nat)))
        == Ok::<(Seq<char>, Seq<char>), DeError>((BACK_OFF_NAME@, decimal_digits(n as nat))));
    assert(spec_value_fields(fields.drop_first(), Some(BACK_OFF_NAME@), None)
        == Ok::<(Seq<char>, Seq<char>), DeError>((BACK_OFF_NAME@, decimal_digits(n as nat))));
    lemma_parse_decimal_digits(n);
}

/// Every 32-bit back-off, written in decimal in a `BackOffMilliseconds`
/// value, is read back as that number, and the message as server-busy.
pub proof fn law_every_back_off_is_read(n: u32)
    ensures
        spec_server_busy(seq![back_off_entry(n)]) == Ok::<u32, DeError>(n),
        spec_message_xml(SpecXmlValue::Element(seq![back_off_entry(n)]))
            == Ok::<SpecMessageXml, DeError>(SpecMessageXml::ServerBusy { back_off_milliseconds: n }),
{
    lemma_back_off_entry_value(n);
}

/// An entry that cannot carry the back-off: it is not a `Value`, or it is a
/// `Value` read with another name.
pub open spec fn passes_over_back_off(e: SpecXmlEntry) -> bool {
    e.key != VALUE_KEY@ || (spec_message_xml_value(e.value) matches Ok((name, _)) && name != BACK_OFF_NAME@)
}

/// The first `BackOffMilliseconds` value decides the back-off: the entries
/// before it that cannot carry one are passed over, and whatever follows it
/// is ignored.
pub proof fn law_first_back_off_decides(before: Seq<SpecXmlEntry>, n: u32, after: Seq<SpecXmlEntry>)
    requires
        forall|i: int| 0 <= i < before.len() ==> passes_over_back_off(#[trigger] before[i]),
    ensures
        spec_server_busy(before + seq![back_off_entry(n)] + after) == Ok::<u32, DeError>(n),
    decreases before.len(),
{
    let es = before + seq![back_off_entry(n)] + after;
    if before.len() == 0 {
        assert(es[0] == back_off_entry(n));
        lemma_back_off_entry_value(n);
    } else {
        let tail = before.drop_first();
        assert forall|i: int| 0 <= i < tail.len() implies passes_over_back_off(#[trigger] tail[i]) by {
            assert(tail[i] == before[i + 1]);
        }
        law_first_back_off_decides(tail, n, after);
        assert(es.drop_first() =~= tail + seq![back_off_entry(n)] + after);
        assert(es[0] == before[0]);
        assert(passes_over_back_off(before[0]));
    }
}


/// Every entry is an attribute given as text.
pub open spec fn text_attributes(attrs: Seq<SpecXmlEntry>) -> bool {
    forall|i: int| 0 <= i < attrs.len() ==> is_attribute_key(#[trigger] attrs[i].key) && attrs[i].value is Text
}

/// An element's text wins over its attributes: when attributes (given as
/// text) come before a `$text` entry holding `s`, the element's content is
/// `s`, whatever follows; the attributes seen before it are dropped.
pub proof fn law_element_text_wins_over_attributes(attrs: Seq<SpecXmlEntry>, s: Seq<char>, rest: Seq<SpecXmlEntry>)
    requires
        text_attributes(attrs),
    ensures
        spec_text_from_entries(
            attrs + seq![SpecXmlEntry { key: TEXT_KEY@, value: SpecXmlValue::Text(s) }] + rest,
        ) == Ok::<SpecText, DeError>(SpecText::Content(s)),
    decreases attrs.len(),
{
    reveal_strlit("$text");
    reveal_strlit("http://schemas.microsoft.com/exchange/services/2006/types");
    let t = SpecXmlEntry { key: TEXT_KEY@, value: SpecXmlValue::Text(s) };
    let es = attrs + seq![t] + rest;
    if attrs.len() == 0 {
        assert(es[0] == t);
    } else {
        let tail = attrs.drop_first();
        assert forall|i: int| 0 <= i < tail.len() implies is_attribute_key(#[trigger] tail[i].key) && tail[i].value is Text by {
            assert(tail[i] == attrs[i + 1]);
        }
        law_element_text_wins_over_attributes(tail, s, rest);
        assert(es.drop_first() =~= tail + seq![t] + rest);
        assert(es[0] == attrs[0]);
        assert(is_attribute_key(attrs[0].key) && attrs[0].value is Text);
        assert(es[0].key != TEXT_KEY@) by {
            assert(es[0].key[0] != TEXT_KEY@[0]);
        }
        assert(es[0].key != TYPES_NS_URI@) by {
            assert(es[0].key[0] != TYPES_NS_URI@[0]);
        }
    }
}

/// An element of a `MessageXml` (other than a `Value`) that has text is read
/// as a tagged element carrying that text, whatever attributes precede it.
pub proof fn law_element_with_text_is_tagged(
    name: Seq<char>,
    attrs: Seq<SpecXmlEntry>,
    s: Seq<char>,
    rest: Seq<SpecXmlEntry>,
)
    requires
        name != VALUE_KEY@,
        text_attributes(attrs),
    ensures
        spec_element_of(SpecXmlEntry {
            key: name,
            value: SpecXmlValue::Element(
                attrs + seq![SpecXmlEntry { key: TEXT_KEY@, value: SpecXmlValue::Text(s) }] + rest,
            ),
        }) == Ok::<Option<SpecMessageXmlElement>, DeError>(
            Some(SpecMessageXmlElement::Tagged { name, value: s }),
        ),
{
    law_element_text_wins_over_attributes(attrs, s, rest);
}


/// When every entry of a `MessageXml` contributes an element, the elements
/// are read one per entry, in order: none is dropped, added or reordered.
pub proof fn law_one_element_per_contributing_entry(es: Seq<SpecXmlEntry>)
    requires
        forall|i: int| 0 <= i < es.len() ==> #[trigger] spec_element_of(es[i]) matches Ok(Some(_)),
    ensures
        spec_elements(es) matches Ok(els) && els.len() == es.len() && forall|i: int|
            0 <= i < es.len() ==> spec_element_of(es[i]) == Ok::<Option<SpecMessageXmlElement>, DeError>(
                Some(#[trigger] els[i]),
            ),
    decreases es.len(),
{
    if es.len() > 0 {
        let rest = es.drop_first();
        assert forall|i: int| 0 <= i < rest.len() implies #[trigger] spec_element_of(rest[i]) matches Ok(Some(_)) by {
            assert(rest[i] == es[i + 1]);
        }
        law_one_element_per_contributing_entry(rest);
        assert(spec_element_of(es[0]) matches Ok(Some(_)));
        let h = spec_element_of(es[0])->Ok_0->Some_0;
        let lr = spec_elements(rest)->Ok_0;
        let els = seq![h] + lr;
        assert(option_seq(Some(h)) == seq![h]);
        assert forall|i: int| 0 <= i < es.len() implies spec_element_of(es[i]) == Ok::<Option<SpecMessageXmlElement>, DeError>(
            Some(#[trigger] els[i]),
        ) by {
            if i > 0 {
                assert(es[i] == rest[i - 1]);
                assert(els[i] == lr[i - 1]);
            }
        }
    }
}

} // verus!
