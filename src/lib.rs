//! Decoder for compiled TDR metalib blobs and reconstruction of their
//! symbolic XML schema description.
//!
//! [`decode::read_metalib`] turns the bytes of a metalib into a [`model::Metalib`];
//! [`resolve`] maps byte offsets inside a definition back to dotted field
//! paths; [`xml::export_metalib_xml`] writes the schema text.
pub mod bytes;
pub mod decimal;
pub mod decode;
pub mod error;
pub mod model;
pub mod resolve;
pub mod text;
pub mod types;
pub mod xml;
