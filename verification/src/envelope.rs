//! The inbound trigger envelope of the notification path.
//!
//! An inbound event wraps a notification record whose `Sns.Message` member
//! is itself a JSON text; that text's `content` member carries the raw mail
//! content and its `mail.commonHeaders.subject` member the subject.

use vstd::prelude::*;

use crate::errors::EnvelopeError;
use crate::json::JsonData;
use crate::json::json_as_array;
use crate::json::json_as_str;
use crate::json::json_get;
use crate::json::json_text;
use crate::json::json_view;
use crate::json::parse_json;

verus! {

/// The subject and raw mail content of one notification message.
#[derive(Debug, Clone)]
pub struct InboundMessage {
    pub subject: String,
    pub content: String,
}

/// The inner message text of an event document: the `Sns.Message` member
/// of the first record.
pub open spec fn spec_event_message(j: JsonData) -> Option<Seq<char>> {
    match j {
        JsonData::Obj(top) => if top.contains_key("Records"@) {
            match top["Records"@] {
                JsonData::Arr(rs) => if rs.len() >= 1 {
                    match rs[0] {
                        JsonData::Obj(r0) => if r0.contains_key("Sns"@) {
                            match r0["Sns"@] {
                                JsonData::Obj(sns) => if sns.contains_key("Message"@) {
                                    match sns["Message"@] {
                                        JsonData::Str(msg) => Some(msg),
                                        _ => None,
                                    }
                                } else {
                                    None
                                },
                                _ => None,
                            }
                        } else {
                            None
                        },
                        _ => None,
                    }
                } else {
                    None
                },
                _ => None,
            }
        } else {
            None
        },
        _ => None,
    }
}

/// The subject and content of one notification message document.
pub open spec fn spec_inbound_message(j: JsonData) -> Option<(Seq<char>, Seq<char>)> {
    match j {
        JsonData::Obj(m) => if m.contains_key("mail"@) && m.contains_key("content"@) {
            match (m["mail"@], m["content"@]) {
                (JsonData::Obj(mail), JsonData::Str(content)) => if mail.contains_key(
                    "commonHeaders"@,
                ) {
                    match mail["commonHeaders"@] {
                        JsonData::Obj(ch) => if ch.contains_key("subject"@) {
                            match ch["subject"@] {
                                JsonData::Str(subject) => Some((subject, content)),
                                _ => None,
                            }
                        } else {
                            None
                        },
                        _ => None,
                    }
                } else {
                    None
                },
                _ => None,
            }
        } else {
            None
        },
        _ => None,
    }
}

/// Unwrap an inbound event down to its inner message text.
pub fn event_message(event: &str) -> (r: Result<String, EnvelopeError>)
    ensures
        match r {
            Ok(msg) => json_text(event@) matches Some(doc) && spec_event_message(doc) == Some(
                msg@,
            ),
            Err(e) => match json_text(event@) {
                Option::None => e matches EnvelopeError::InvalidJson(_),
                Option::Some(doc) => spec_event_message(doc) is None && (
                e matches EnvelopeError::UnexpectedShape(_)),
            },
        },
{
    let doc = match parse_json(event) {
        Ok(v) => v,
        Err(m) => {
            return Err(EnvelopeError::InvalidJson(m));
        },
    };
    let records = match json_get(&doc, "Records") {
        Some(v) => v,
        None => {
            return Err(EnvelopeError::UnexpectedShape("Records".to_owned()));
        },
    };
    let rs = match json_as_array(records) {
        Some(a) => a,
        None => {
            return Err(EnvelopeError::UnexpectedShape("Records".to_owned()));
        },
    };
    if rs.len() == 0 {
        return Err(EnvelopeError::UnexpectedShape("Records empty".to_owned()));
    }
    let sns = match json_get(&rs[0], "Sns") {
        Some(v) => v,
        None => {
            return Err(EnvelopeError::UnexpectedShape("Sns".to_owned()));
        },
    };
    let msg_v = match json_get(sns, "Message") {
        Some(v) => v,
        None => {
            return Err(EnvelopeError::UnexpectedShape("Message".to_owned()));
        },
    };
    match json_as_str(msg_v) {
        Some(s) => Ok(s.to_owned()),
        None => Err(EnvelopeError::UnexpectedShape("Message".to_owned())),
    }
}

/// Parse one notification message text into subject and raw mail content.
pub fn parse_inbound_message(message: &str) -> (r: Result<InboundMessage, EnvelopeError>)
    ensures
        match r {
            Ok(m) => json_text(message@) matches Some(doc) && spec_inbound_message(doc) == Some(
                (m.subject@, m.content@),
            ),
            Err(e) => match json_text(message@) {
                Option::None => e matches EnvelopeError::InvalidJson(_),
                Option::Some(doc) => spec_inbound_message(doc) is None && (
                e matches EnvelopeError::UnexpectedShape(_)),
            },
        },
{
    let doc = match parse_json(message) {
        Ok(v) => v,
        Err(m) => {
            return Err(EnvelopeError::InvalidJson(m));
        },
    };
    let mail = match json_get(&doc, "mail") {
        Some(v) => v,
        None => {
            return Err(EnvelopeError::UnexpectedShape("mail".to_owned()));
        },
    };
    let content_v = match json_get(&doc, "content") {
        Some(v) => v,
        None => {
            return Err(EnvelopeError::UnexpectedShape("content".to_owned()));
        },
    };
    let content = match json_as_str(content_v) {
        Some(s) => s,
        None => {
            return Err(EnvelopeError::UnexpectedShape("content".to_owned()));
        },
    };
    let ch = match json_get(mail, "commonHeaders") {
        Some(v) => v,
        None => {
            return Err(EnvelopeError::UnexpectedShape("commonHeaders".to_owned()));
        },
    };
    let subject_v = match json_get(ch, "subject") {
        Some(v) => v,
        None => {
            return Err(EnvelopeError::UnexpectedShape("subject".to_owned()));
        },
    };
    match json_as_str(subject_v) {
        Some(s) => Ok(InboundMessage { subject: s.to_owned(), content: content.to_owned() }),
        None => Err(EnvelopeError::UnexpectedShape("subject".to_owned())),
    }
}

} // verus!
