//! Monitor events: notable but non-error observations (ad-break markers,
//! manifest updates, stale recovery), and the bounded ring that stores them.

use vstd::prelude::*;

use crate::ids::fresh_id;
use crate::ring::{Dup, Ring};

verus! {

/// The kinds of events the monitor can record.
#[derive(Debug, Clone, Copy, PartialEq, Eq, Structural)]
pub enum EventKind {
    CueOutStarted,
    CueInReturned,
    CueOutCont,
    DiscontinuityChanged,
    ManifestUpdated,
    StaleRecovered,
}

/// The short display label of an event kind.
pub open spec fn event_kind_label(k: EventKind) -> Seq<char> {
    match k {
        EventKind::CueOutStarted => "CUE-OUT"@,
        EventKind::CueInReturned => "CUE-IN"@,
        EventKind::CueOutCont => "CUE-OUT-CONT"@,
        EventKind::DiscontinuityChanged => "DISC"@,
        EventKind::ManifestUpdated => "UPDATE"@,
        EventKind::StaleRecovered => "RECOVERED"@,
    }
}

impl EventKind {
    /// The short display label of this event kind.
    pub fn label(&self) -> (r: String)
        ensures
            r@ == event_kind_label(*self),
    {
        match self {
            EventKind::CueOutStarted => "CUE-OUT".to_owned(),
            EventKind::CueInReturned => "CUE-IN".to_owned(),
            EventKind::CueOutCont => "CUE-OUT-CONT".to_owned(),
            EventKind::DiscontinuityChanged => "DISC".to_owned(),
            EventKind::ManifestUpdated => "UPDATE".to_owned(),
            EventKind::StaleRecovered => "RECOVERED".to_owned(),
        }
    }
}

/// One event recorded by the monitor. The `id` is a fresh random identifier;
/// every other field is determined by the caller.
pub struct MonitorEvent {
    pub id: String,
    pub timestamp_ms: u64,
    pub kind: EventKind,
    pub stream_id: String,
    pub media_type: String,
    pub variant_key: String,
    pub details: String,
}

/// Everything of an event except its random identifier, as one spec value.
#[verifier::ext_equal]
pub struct EventCore {
    pub timestamp_ms: u64,
    pub kind: EventKind,
    pub stream_id: Seq<char>,
    pub media_type: Seq<char>,
    pub variant_key: Seq<char>,
    pub details: Seq<char>,
}

impl MonitorEvent {
    /// The event's core: all fields but the random identifier.
    pub open spec fn core_data(&self) -> EventCore {
        EventCore {
            timestamp_ms: self.timestamp_ms,
            kind: self.kind,
            stream_id: self.stream_id@,
            media_type: self.media_type@,
            variant_key: self.variant_key@,
            details: self.details@,
        }
    }

    /// Builds an event with a fresh random identifier.
    pub fn new(
        kind: EventKind,
        media_type: &str,
        variant_key: &str,
        details: &str,
        stream_id: &str,
        timestamp_ms: u64,
    ) -> (r: MonitorEvent)
        ensures
            r.core_data() == (EventCore {
                timestamp_ms,
                kind,
                stream_id: stream_id@,
                media_type: media_type@,
                variant_key: variant_key@,
                details: details@,
            }),
    {
        MonitorEvent {
            id: fresh_id(),
            timestamp_ms,
            kind,
            stream_id: stream_id.to_owned(),
            media_type: media_type.to_owned(),
            variant_key: variant_key.to_owned(),
            details: details.to_owned(),
        }
    }
}

impl Dup for MonitorEvent {
    fn dup(&self) -> (r: Self)
        ensures
            r == *self,
    {
        MonitorEvent {
            id: self.id.clone(),
            timestamp_ms: self.timestamp_ms,
            kind: self.kind,
            stream_id: self.stream_id.clone(),
            media_type: self.media_type.clone(),
            variant_key: self.variant_key.clone(),
            details: self.details.clone(),
        }
    }
}

/// Bounded chronological store of recent events.
pub type EventRing = Ring<MonitorEvent>;

} // verus!
