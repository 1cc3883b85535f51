//! A registry and identity-resolution layer for JSON Schema documents
//! being prepared for bundling.
//!
//! The library decides, for a parsed JSON document, whether it declares a
//! valid canonical identifier (`$id`), derives from it the relative
//! identifier used as a bundle-local address, and stores documents keyed by
//! that relative identifier for later lookup.

pub mod identity;
pub mod json_doc;
pub mod registry;
pub mod url_id;
