//! The payload posted to a webhook for an event.

use vstd::prelude::*;
use crate::event::WatchEvent;
use crate::paths::{extension_or_empty, extension_text};
use crate::reporter::{is_rfc3339_text, kind_name, name_of, rfc3339_text};

verus! {

/// The body of a webhook post.
#[derive(Debug)]
pub struct WebhookPayload {
    pub event: String,
    pub path: String,
    pub timestamp: String,
    pub extension: String,
}

/// The payload posted for `event`, with its time written `timestamp`: the
/// kind's name, the path, the time, and the file's extension (empty where
/// it has none).
pub fn webhook_payload_at(event: &WatchEvent, timestamp: String) -> (r: WebhookPayload)
    ensures
        r.event@ == kind_name(event.kind),
        r.path@ == event.path@,
        r.timestamp == timestamp,
        r.extension@ == extension_or_empty(event.path@),
{
    WebhookPayload {
        event: String::from_str(name_of(event.kind)),
        path: event.path.clone(),
        timestamp,
        extension: extension_text(event.path.as_str()),
    }
}

/// The payload posted for `event`, its time the event's local time in
/// RFC 3339.
pub fn webhook_payload(event: &WatchEvent) -> (r: WebhookPayload)
    ensures
        r.event@ == kind_name(event.kind),
        r.path@ == event.path@,
        is_rfc3339_text(event.timestamp, r.timestamp@),
        r.extension@ == extension_or_empty(event.path@),
{
    webhook_payload_at(event, rfc3339_text(event.timestamp))
}

/// The timeout of webhook posts, in seconds: the configured one, else five.
pub fn webhook_timeout_secs(timeout_sec: Option<u64>) -> (r: u64)
    ensures
        r == match timeout_sec {
            Some(t) => t,
            None => 5,
        },
{
    match timeout_sec {
        Some(t) => t,
        None => 5,
    }
}

} // verus!
