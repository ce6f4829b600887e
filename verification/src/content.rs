//! The shape in which the deserializer sees XML: an element is a list of
//! entries keyed by attribute names (`@Name`), child element local names,
//! and `$text` for text content.
use vstd::prelude::*;

verus! {

/// The value of one entry: text (an attribute value or text content), or a
/// nested element given by its own entries.
#[derive(Debug, PartialEq, Eq)]
pub enum XmlValue {
    Text(String),
    Element(Vec<XmlEntry>),
}

/// One keyed entry of an element.
#[derive(Debug, PartialEq, Eq)]
pub struct XmlEntry {
    pub key: String,
    pub value: XmlValue,
}

/// The mathematical model of an [`XmlValue`].
pub enum SpecXmlValue {
    Text(Seq<char>),
    Element(Seq<SpecXmlEntry>),
}

/// The mathematical model of an [`XmlEntry`].
pub struct SpecXmlEntry {
    pub key: Seq<char>,
    pub value: SpecXmlValue,
}

pub open spec fn value_view(v: XmlValue) -> SpecXmlValue
    decreases v,
{
    match v {
        XmlValue::Text(s) => SpecXmlValue::Text(s@),
        XmlValue::Element(es) => SpecXmlValue::Element(entries_view(es@)),
    }
}

pub open spec fn entries_view(es: Seq<XmlEntry>) -> Seq<SpecXmlEntry>
    decreases es,
{
    if es.len() == 0 {
        seq![]
    } else {
        entries_view(es.drop_last()).push(entry_view(es.last()))
    }
}

pub open spec fn entry_view(e: XmlEntry) -> SpecXmlEntry
    decreases e,
{
    SpecXmlEntry { key: e.key@, value: value_view(e.value) }
}

impl View for XmlValue {
    type V = SpecXmlValue;

    open spec fn view(&self) -> SpecXmlValue {
        value_view(*self)
    }
}

impl View for XmlEntry {
    type V = SpecXmlEntry;

    open spec fn view(&self) -> SpecXmlEntry {
        entry_view(*self)
    }
}

/// The model of a list of entries is the list of their models.
pub proof fn lemma_entries_view(es: Seq<XmlEntry>)
    ensures
        entries_view(es).len() == es.len(),
        forall|i: int| 0 <= i < es.len() ==> #[trigger] entries_view(es)[i] == entry_view(es[i]),
    decreases es.len(),
{
    if es.len() > 0 {
        lemma_entries_view(es.drop_last());
    }
}

/// Dropping the first of the remaining elements of a sequence moves past
/// element `i`.
pub proof fn lemma_skip_step<A>(s: Seq<A>, i: int)
    requires
        0 <= i < s.len(),
    ensures
        s.skip(i).len() > 0,
        s.skip(i)[0] == s[i],
        s.skip(i).drop_first() == s.skip(i + 1),
{
    assert(s.skip(i).drop_first() =~= s.skip(i + 1));
}

/// Why a value could not be turned into the requested type.
#[derive(Clone, Copy, Debug, PartialEq, Eq)]
pub enum DeError {
    /// Text was required where an element stands.
    ExpectedText,
    /// An element was required where text stands.
    ExpectedElement,
    /// A required field is absent.
    MissingField,
    /// A field occurs twice.
    DuplicateField,
    /// Text that should hold an unsigned 32-bit number does not.
    InvalidNumber,
    /// No `Value` element named `BackOffMilliseconds` was found.
    NoBackOffMilliseconds,
    /// The value matches none of the variants of an untagged enum.
    NoMatchingVariant,
    /// An element or tag names no known variant.
    UnknownVariant,
    /// Text that should hold an ISO 8601 date-time does not, or names an
    /// instant that cannot be written back.
    InvalidDateTime,
}

} // verus!
