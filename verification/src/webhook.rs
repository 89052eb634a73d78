//! Webhook notifications: subscription filtering, the outbound payload, and
//! HMAC signing of the serialized body. Delivery itself (HTTP POST, timers)
//! is the caller's; the retry decisions live here.

use vstd::prelude::*;

use crate::error::{ErrorCore, MonitorError};
use crate::event::{EventCore, EventKind, MonitorEvent};
use crate::ring::Dup;

verus! {

/// The default per-delivery timeout, in ms.
pub fn default_webhook_timeout_ms() -> (r: u64)
    ensures
        r == 5000,
{
    5000
}

/// The default webhook retry budget.
pub fn default_webhook_retries() -> (r: u32)
    ensures
        r == 2,
{
    2
}

/// Configuration of a single webhook endpoint.
pub struct WebhookConfig {
    /// The URL payloads are POSTed to.
    pub url: String,
    /// Which notification types to deliver; empty means all.
    pub events: Vec<String>,
    /// Per-delivery timeout, in ms.
    pub timeout_ms: u64,
    /// Retry budget per delivery.
    pub max_retries: u32,
    /// Optional HMAC-SHA256 signing secret.
    pub secret: Option<String>,
}

/// Whether a webhook subscribes to a notification type: an empty filter
/// accepts everything.
pub open spec fn spec_accepts(events: Seq<String>, t: Seq<char>) -> bool {
    events.len() == 0 || exists|i: int| 0 <= i < events.len() && events[i]@ == t
}

impl WebhookConfig {
    /// Whether this webhook subscribes to the notification type.
    pub fn accepts(&self, notification_type: &str) -> (r: bool)
        ensures
            r == spec_accepts(self.events@, notification_type@),
    {
        if self.events.len() == 0 {
            return true;
        }
        let n = self.events.len();
        let mut i: usize = 0;
        while i < n
            invariant
                i <= n,
                n == self.events@.len(),
                forall|j: int| 0 <= j < i ==> self.events@[j]@ != notification_type@,
            decreases n - i,
        {
            if crate::strutil::eq_str(self.events[i].as_str(), notification_type) {
                return true;
            }
            i = i + 1;
        }
        false
    }
}

/// A notification produced by the engine, to be fanned out to webhooks.
pub enum Notification {
    Error { monitor_id: String, error: MonitorError },
    Event { monitor_id: String, event: MonitorEvent },
}

/// The wire name of an event kind.
pub open spec fn event_type_name(k: EventKind) -> Seq<char> {
    match k {
        EventKind::CueOutStarted => "cue_out_started"@,
        EventKind::CueInReturned => "cue_in_returned"@,
        EventKind::CueOutCont => "cue_out_cont"@,
        EventKind::DiscontinuityChanged => "discontinuity_changed"@,
        EventKind::ManifestUpdated => "manifest_updated"@,
        EventKind::StaleRecovered => "stale_recovered"@,
    }
}

/// The wire name of a notification: `error`, or the event's kind.
pub open spec fn notification_type_spec(n: Notification) -> Seq<char> {
    match n {
        Notification::Error { .. } => "error"@,
        Notification::Event { event, .. } => event_type_name(event.kind),
    }
}

impl Notification {
    /// The wire name of this notification.
    pub fn notification_type(&self) -> (r: &'static str)
        ensures
            r@ == notification_type_spec(*self),
    {
        match self {
            Notification::Error { .. } => "error",
            Notification::Event { event, .. } => match event.kind {
                EventKind::CueOutStarted => "cue_out_started",
                EventKind::CueInReturned => "cue_in_returned",
                EventKind::CueOutCont => "cue_out_cont",
                EventKind::DiscontinuityChanged => "discontinuity_changed",
                EventKind::ManifestUpdated => "manifest_updated",
                EventKind::StaleRecovered => "stale_recovered",
            },
        }
    }
}

impl Dup for Notification {
    fn dup(&self) -> (r: Self)
        ensures
            r == *self,
    {
        match self {
            Notification::Error { monitor_id, error } => Notification::Error {
                monitor_id: monitor_id.clone(),
                error: error.dup(),
            },
            Notification::Event { monitor_id, event } => Notification::Event {
                monitor_id: monitor_id.clone(),
                event: event.dup(),
            },
        }
    }
}

/// The type-specific body of a webhook payload, as plain values; the caller
/// serializes it.
pub enum PayloadData {
    ErrorData {
        error_type: String,
        media_type: String,
        variant: String,
        details: String,
        url: String,
        status_code: Option<u16>,
    },
    EventData { kind: String, media_type: String, variant_key: String, details: String },
}

/// The envelope POSTed to webhook endpoints; `data` is serialized by the
/// caller.
pub struct WebhookPayload {
    pub version: u8,
    pub id: String,
    pub timestamp_ms: u64,
    pub notification_type: String,
    pub monitor_id: String,
    pub stream_id: String,
    pub data: PayloadData,
}

/// What the payload of an error notification holds.
pub open spec fn error_payload_ok(p: WebhookPayload, monitor_id: Seq<char>, e: ErrorCore) -> bool {
    &&& p.version == 1
    &&& p.timestamp_ms == e.timestamp_ms
    &&& p.notification_type@ == "error"@
    &&& p.monitor_id@ == monitor_id
    &&& p.stream_id@ == e.stream_id
    &&& p.data matches PayloadData::ErrorData { error_type, media_type, variant, details, url, status_code }
        && error_type@ == crate::error::error_type_label(e.error_type) && media_type@
        == e.media_type && variant@ == e.variant && details@ == e.details && url@ == e.stream_url
        && status_code == e.status_code
}

/// What the payload of an event notification holds.
pub open spec fn event_payload_ok(p: WebhookPayload, monitor_id: Seq<char>, k: EventKind, e: EventCore) -> bool {
    &&& p.version == 1
    &&& p.timestamp_ms == e.timestamp_ms
    &&& p.notification_type@ == event_type_name(k)
    &&& p.monitor_id@ == monitor_id
    &&& p.stream_id@ == e.stream_id
    &&& p.data matches PayloadData::EventData { kind, media_type, variant_key, details }
        && kind@ == event_type_name(k) && media_type@ == e.media_type && variant_key@
        == e.variant_key && details@ == e.details
}

impl WebhookPayload {
    /// Builds the payload of a notification: version 1, a fresh identifier,
    /// the inner record's timestamp and stream, and the type-specific data.
    pub fn from_notification(notification: &Notification) -> (r: WebhookPayload)
        ensures
            notification matches Notification::Error { monitor_id, error } ==> error_payload_ok(
                r,
                monitor_id@,
                error.core_data(),
            ),
            notification matches Notification::Event { monitor_id, event } ==> event_payload_ok(
                r,
                monitor_id@,
                event.kind,
                event.core_data(),
            ),
    {
        match notification {
            Notification::Error { monitor_id, error } => WebhookPayload {
                version: 1,
                id: crate::ids::fresh_id(),
                timestamp_ms: error.timestamp_ms,
                notification_type: "error".to_owned(),
                monitor_id: monitor_id.clone(),
                stream_id: error.stream_id.clone(),
                data: PayloadData::ErrorData {
                    error_type: error.error_type.label(),
                    media_type: error.media_type.clone(),
                    variant: error.variant.clone(),
                    details: error.details.clone(),
                    url: error.stream_url.clone(),
                    status_code: error.status_code,
                },
            },
            Notification::Event { monitor_id, event } => {
                let kind_name = notification.notification_type();
                WebhookPayload {
                    version: 1,
                    id: crate::ids::fresh_id(),
                    timestamp_ms: event.timestamp_ms,
                    notification_type: kind_name.to_owned(),
                    monitor_id: monitor_id.clone(),
                    stream_id: event.stream_id.clone(),
                    data: PayloadData::EventData {
                        kind: kind_name.to_owned(),
                        media_type: event.media_type.clone(),
                        variant_key: event.variant_key.clone(),
                        details: event.details.clone(),
                    },
                }
            },
        }
    }
}

pub uninterp spec fn hmac_sha256_hex_of(secret: Seq<char>, body: Seq<u8>) -> Seq<char>;

/// Relies on `hmac::Hmac` over `sha2::Sha256` and `hex::encode`: the
/// HMAC-SHA256 of the body under the secret, as 64 lowercase hex digits. The
/// digest depends on the secret and body alone; HMAC accepts keys of any
/// size, so the construction cannot fail.
#[verifier::external_body]
fn hmac_sha256_hex(secret: &str, body: &Vec<u8>) -> (r: String)
    ensures
        r@ == hmac_sha256_hex_of(secret@, body@),
        r@.len() == 64,
{
    let mut mac = <hmac::Hmac<sha2::Sha256> as hmac::Mac>::new_from_slice(
        secret.as_bytes(),
    ).unwrap();
    hmac::Mac::update(&mut mac, body.as_slice());
    hex::encode(hmac::Mac::finalize(mac).into_bytes())
}

/// The value of the signature header: `sha256=` followed by the lowercase
/// hex HMAC-SHA256 of the body under the secret.
pub fn signature_header_value(secret: &str, body: &Vec<u8>) -> (r: String)
    ensures
        r@ == "sha256="@ + hmac_sha256_hex_of(secret@, body@),
{
    let mut s = "sha256=".to_owned();
    let h = hmac_sha256_hex(secret, body);
    s.append(h.as_str());
    proof {
        assert(s@ =~= "sha256="@ + hmac_sha256_hex_of(secret@, body@));
    }
    s
}

/// The backoff before webhook delivery attempt `k` (counted from 1): half a
/// second doubled each time.
pub fn webhook_backoff_ms(attempt: u32) -> (r: u64)
    ensures
        r == crate::loader::spec_backoff_ms(500, attempt),
{
    crate::loader::fetch_backoff_ms(500, attempt)
}

} // verus!
