# ews

Types for two Exchange Web Services operations, `CreateItem` and
`UpdateItem`, with their requests written as XML and their responses read
from the content of XML documents, verified with Verus.

- `src/xml.rs` models XML nodes and the text they are written as; requests
  are written by `serialize_as_element` / `serialize_child_nodes`, whose
  contracts give the exact node tree (`xml_element` / `xml_nodes`) and its
  text (`render`).
- `src/content.rs` is the view of a document that a deserializer presents
  (quick_xml's serde deserializer): an element's attributes under `@name`,
  its child elements under their local names, its text under `$text`.
  Parsing the document text itself is quick_xml's work, done in `app/`.
- `src/message_xml.rs` holds the rules for `MessageXml`, the semi-structured
  data of error responses (server back-off, tagged and attributed elements).
- `src/response.rs`, `src/create_item.rs`, `src/update_item.rs` hold the
  operations and the readers of their responses (`from_entries`), whose
  contracts give the result for every entry view; `src/types.rs` holds the
  shared item types.
- `app/` adapts the types to serde (`Deserialize` for the `MessageXml`
  family and the responses, so `quick_xml::de::from_str` reads a response
  document) and to xml_struct (`XmlSerialize` for the requests).
