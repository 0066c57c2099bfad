//! Verified core of a property-listing ingestion and notification system.
//!
//! The ingestion side discovers newly listed properties: it extracts a
//! session search key from an HTML page, derives candidate property ids
//! from a search response, filters out properties that the key-value store
//! already holds, and plans the upload of each listing's images followed by
//! the write of the property record (write-after-children).
//!
//! The notification side extracts a property id from inbound mail content,
//! looks up the stored record, and assembles a multipart email with the
//! stored images attached inline in order.
//!
//! All network and storage transports live outside this crate; the library
//! works on plain values handed in by its callers and states exactly what
//! it returns for each of them.

pub mod candidates;
pub mod dedup;
pub mod detail;
pub mod discovery;
pub mod email;
pub mod envelope;
pub mod errors;
pub mod ingest;
pub mod json;
pub mod kv;
pub mod num;
pub mod pattern;
pub mod text;
pub mod token;
