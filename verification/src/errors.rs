//! Error kinds of the pipeline, one tagged union per component.
//!
//! Every kind is terminal for the unit of work that raised it: a failed
//! listing or notification is abandoned and reported, siblings continue.
//! Variants carry the underlying transport or parse context as text.

use vstd::prelude::*;

verus! {

/// TokenExtractor failure: the search-key marker was not found in the page,
/// or nothing capturable followed it.
#[derive(Debug, Clone, PartialEq, Eq)]
pub enum ExtractionError {
    MarkerNotFound,
}

/// ListingDiscovery failure: bad HTTP status, invalid JSON, or a response
/// body without the expected shape.
#[derive(Debug, Clone, PartialEq, Eq)]
pub enum DiscoveryError {
    Transport(String),
    InvalidJson(String),
    UnexpectedShape(String),
}

/// DedupFilter failure: the batched existence query failed in transport,
/// came back malformed, or left part of the batch unexamined. A failed or
/// partial batch is never treated as "all missing".
#[derive(Debug, Clone, PartialEq, Eq)]
pub enum StoreQueryError {
    Transport(String),
    MissingResponses,
    UnprocessedKeys,
    MissingTable(String),
    BadKeyField(String),
}

/// ListingDetailFetcher failure: bad HTTP status, invalid JSON, or a detail
/// response without the expected shape. An absent image list is not an
/// error; it is the valid "no images" outcome.
#[derive(Debug, Clone, PartialEq, Eq)]
pub enum DetailFetchError {
    Transport(String),
    InvalidJson(String),
    UnexpectedShape(String),
}

/// ImageIngestor failure while downloading one image.
#[derive(Debug, Clone, PartialEq, Eq)]
pub enum ImageFetchError {
    Transport(String),
}

/// ImageIngestor failure while storing one image blob.
#[derive(Debug, Clone, PartialEq, Eq)]
pub enum ImageStoreError {
    Transport(String),
}

/// PropertyRecordStore failure while writing a record.
#[derive(Debug, Clone, PartialEq, Eq)]
pub enum StoreWriteError {
    Transport(String),
}

/// PropertyRecordStore failure while reading a record back. "Not found" is
/// not an error here; reads return an option distinct from these failures.
#[derive(Debug, Clone, PartialEq, Eq)]
pub enum StoreReadError {
    Transport(String),
    MissingField(String),
    WrongFieldType(String),
}

/// NotificationAssembler failure: no gallery URL pattern in the inbound
/// mail content.
#[derive(Debug, Clone, PartialEq, Eq)]
pub enum PatternNotFoundError {
    NoMatch,
}

/// NotificationAssembler failure: the extracted property id has no record
/// in the store. Terminal; no retry.
#[derive(Debug, Clone, PartialEq, Eq)]
pub enum UnknownPropertyError {
    NoRecord(String),
}

/// NotificationAssembler failure: one of the record's images could not be
/// retrieved from blob storage. Fatal for the whole notification.
#[derive(Debug, Clone, PartialEq, Eq)]
pub enum ImageRetrievalError {
    Missing(String),
}

/// NotificationAssembler failure: the outbound transport rejected the
/// message, or no recipient was configured for it.
#[derive(Debug, Clone, PartialEq, Eq)]
pub enum SendError {
    Rejected(String),
    NoRecipients,
}

/// Failure to unwrap the inbound trigger envelope down to the raw mail
/// content and subject, or to parse that content as a mail message.
#[derive(Debug, Clone, PartialEq, Eq)]
pub enum EnvelopeError {
    InvalidJson(String),
    UnexpectedShape(String),
    UnparsableMail,
    NoHtmlBody,
}

/// Failure while preparing a notification message: the inbound mail side,
/// or the outbound send side.
#[derive(Debug, Clone, PartialEq, Eq)]
pub enum AssembleError {
    Mail(EnvelopeError),
    Send(SendError),
}

} // verus!
