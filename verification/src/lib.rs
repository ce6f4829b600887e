//! Exchange Web Services operations: requests written as XML, responses read
//! from XML.
mod text;
pub mod content;
pub mod message_xml;
pub mod xml;
pub mod types;
pub mod create_item;
pub mod update_item;
pub mod response;
