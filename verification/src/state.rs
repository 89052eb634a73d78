//! Monitor lifecycle states, playlist snapshots, and per-stream state
//! carried across polls.

use vstd::prelude::*;

use crate::assoc::AssocMap;
use crate::error::ErrorRing;
use crate::event::EventRing;
use crate::ring::Ring;

verus! {

/// Lifecycle state of a monitor.
#[derive(Debug, Clone, Copy, PartialEq, Eq, Structural)]
pub enum MonitorState {
    Idle,
    Active,
    Stopping,
    Stopped,
}

/// The four legal lifecycle transitions: Idle to Active, Active to Stopping,
/// Stopping to Stopped, and Stopped to Active. No other move is allowed.
pub open spec fn legal_transition(from: MonitorState, to: MonitorState) -> bool {
    ||| (from == MonitorState::Idle && to == MonitorState::Active)
    ||| (from == MonitorState::Active && to == MonitorState::Stopping)
    ||| (from == MonitorState::Stopping && to == MonitorState::Stopped)
    ||| (from == MonitorState::Stopped && to == MonitorState::Active)
}

impl MonitorState {
    /// Whether moving from this state to `target` is one of the four legal
    /// lifecycle transitions.
    pub fn can_transition_to(self, target: MonitorState) -> (r: bool)
        ensures
            r == legal_transition(self, target),
    {
        match (self, target) {
            (MonitorState::Idle, MonitorState::Active) => true,
            (MonitorState::Active, MonitorState::Stopping) => true,
            (MonitorState::Stopping, MonitorState::Stopped) => true,
            (MonitorState::Stopped, MonitorState::Active) => true,
            _ => false,
        }
    }

    /// The lower-case display name of this state.
    pub fn label(&self) -> (r: String)
        ensures
            (*self == MonitorState::Idle ==> r@ == "idle"@) && (*self == MonitorState::Active
                ==> r@ == "active"@) && (*self == MonitorState::Stopping ==> r@ == "stopping"@) && (
            *self == MonitorState::Stopped ==> r@ == "stopped"@),
    {
        match self {
            MonitorState::Idle => "idle".to_owned(),
            MonitorState::Active => "active".to_owned(),
            MonitorState::Stopping => "stopping".to_owned(),
            MonitorState::Stopped => "stopped".to_owned(),
        }
    }
}

/// The declared playlist type of a media playlist.
#[derive(Debug, Clone, Copy, PartialEq, Eq, Structural)]
pub enum PlaylistType {
    Event,
    Vod,
}

/// An `EXT-X-DATERANGE` tag reduced to plain values: timestamps are
/// milliseconds since the Unix epoch.
pub struct DateRangeSnapshot {
    pub id: String,
    pub class: Option<String>,
    pub start_date_ms: i64,
    pub end_date_ms: Option<i64>,
    pub duration_ms: Option<i64>,
    pub end_on_next: bool,
}

/// One segment of a media playlist, as seen in one poll.
pub struct SegmentSnapshot {
    pub uri: String,
    pub duration_ms: u64,
    pub discontinuity: bool,
    pub cue_out: bool,
    pub cue_in: bool,
    pub cue_out_cont: Option<String>,
    pub gap: bool,
    pub program_date_time_ms: Option<i64>,
    pub daterange: Option<DateRangeSnapshot>,
}

/// The URIs of a run of segments, in order.
pub open spec fn seg_uris(segs: Seq<SegmentSnapshot>) -> Seq<Seq<char>> {
    segs.map(|i: int, s: SegmentSnapshot| s.uri@)
}

/// Whether any segment in the run carries `EXT-X-CUE-OUT`.
pub open spec fn any_cue_out(segs: Seq<SegmentSnapshot>) -> bool {
    exists|i: int| 0 <= i < segs.len() && segs[i].cue_out
}

/// Whether any segment in the run carries `EXT-X-CUE-IN`.
pub open spec fn any_cue_in(segs: Seq<SegmentSnapshot>) -> bool {
    exists|i: int| 0 <= i < segs.len() && segs[i].cue_in
}

/// Whether any segment in the run carries `EXT-X-CUE-OUT-CONT`.
pub open spec fn any_cue_out_cont(segs: Seq<SegmentSnapshot>) -> bool {
    exists|i: int| 0 <= i < segs.len() && segs[i].cue_out_cont is Some
}

/// Whether any segment in the run carries `EXT-X-GAP`.
pub open spec fn any_gap(segs: Seq<SegmentSnapshot>) -> bool {
    exists|i: int| 0 <= i < segs.len() && segs[i].gap
}

/// Decides `any_cue_out` for a run of segments.
pub fn has_any_cue_out(segs: &Vec<SegmentSnapshot>) -> (r: bool)
    ensures
        r == any_cue_out(segs@),
{
    let mut i: usize = 0;
    while i < segs.len()
        invariant
            i <= segs@.len(),
            forall|j: int| 0 <= j < i ==> !segs@[j].cue_out,
        decreases segs@.len() - i,
    {
        if segs[i].cue_out {
            return true;
        }
        i = i + 1;
    }
    false
}

/// Decides `any_cue_in` for a run of segments.
pub fn has_any_cue_in(segs: &Vec<SegmentSnapshot>) -> (r: bool)
    ensures
        r == any_cue_in(segs@),
{
    let mut i: usize = 0;
    while i < segs.len()
        invariant
            i <= segs@.len(),
            forall|j: int| 0 <= j < i ==> !segs@[j].cue_in,
        decreases segs@.len() - i,
    {
        if segs[i].cue_in {
            return true;
        }
        i = i + 1;
    }
    false
}

/// Decides `any_cue_out_cont` for a run of segments.
pub fn has_any_cue_out_cont(segs: &Vec<SegmentSnapshot>) -> (r: bool)
    ensures
        r == any_cue_out_cont(segs@),
{
    let mut i: usize = 0;
    while i < segs.len()
        invariant
            i <= segs@.len(),
            forall|j: int| 0 <= j < i ==> !(segs@[j].cue_out_cont is Some),
        decreases segs@.len() - i,
    {
        if segs[i].cue_out_cont.is_some() {
            return true;
        }
        i = i + 1;
    }
    false
}

/// Decides `any_gap` for a run of segments.
pub fn has_any_gap(segs: &Vec<SegmentSnapshot>) -> (r: bool)
    ensures
        r == any_gap(segs@),
{
    let mut i: usize = 0;
    while i < segs.len()
        invariant
            i <= segs@.len(),
            forall|j: int| 0 <= j < i ==> !segs@[j].gap,
        decreases segs@.len() - i,
    {
        if segs[i].gap {
            return true;
        }
        i = i + 1;
    }
    false
}

/// An immutable snapshot of one media playlist, as parsed in one poll.
pub struct PlaylistSnapshot {
    pub media_sequence: u64,
    pub discontinuity_sequence: u64,
    pub segments: Vec<SegmentSnapshot>,
    pub duration_ms: u64,
    pub cue_out_count: usize,
    pub cue_in_count: usize,
    pub has_cue_out: bool,
    pub cue_out_duration_ms: Option<u64>,
    pub target_duration_ms: u64,
    pub playlist_type: Option<PlaylistType>,
    pub version: Option<u16>,
    pub has_gaps: bool,
}

/// A segment as remembered for the discontinuity check: its URI and whether
/// it carried `EXT-X-DISCONTINUITY`.
pub struct SegmentInfo {
    pub uri: String,
    pub discontinuity: bool,
}

/// Per-variant state carried from one poll to the next.
pub struct VariantState {
    pub media_type: String,
    pub media_sequence: u64,
    pub segment_uris: Vec<String>,
    pub discontinuity_sequence: u64,
    pub next_is_discontinuity: bool,
    pub prev_segments: Vec<SegmentInfo>,
    pub duration_ms: u64,
    pub cue_out_count: usize,
    pub cue_in_count: usize,
    pub in_cue_out: bool,
    pub cue_out_duration_ms: Option<u64>,
    pub version: Option<u16>,
}

/// Stream and variant identity handed to each check, plus the poll's time.
pub struct CheckContext {
    pub stream_url: String,
    pub stream_id: String,
    pub media_type: String,
    pub variant_key: String,
    pub now_ms: u64,
}

/// Per-stream mutable state, keyed by the stream's base URL.
pub struct StreamData {
    /// Current state per variant key.
    pub variants: AssocMap<VariantState>,
    /// Every variant key ever seen in the master, with its media type; grows
    /// monotonically so a variant missing from a fresh master is still
    /// reported.
    pub known_variants: AssocMap<String>,
    /// Consecutive fetch/parse failures per variant key; reset on success.
    pub variant_failures: AssocMap<u32>,
    pub last_content_change_ms: u64,
    pub last_fetch_ms: u64,
    pub errors: ErrorRing,
    pub events: EventRing,
    pub was_stale: bool,
}

impl StreamData {
    /// The maps have unique keys, the rings respect their capacities, and
    /// the last content change is no later than the last fetch.
    pub open spec fn wf(&self) -> bool {
        &&& self.variants.wf()
        &&& self.known_variants.wf()
        &&& self.variant_failures.wf()
        &&& self.errors.wf()
        &&& self.events.wf()
        &&& self.last_content_change_ms <= self.last_fetch_ms
    }

    /// Fresh state for a stream first seen at `now_ms`.
    pub fn new(error_capacity: usize, event_capacity: usize, now_ms: u64) -> (r: Self)
        ensures
            r.wf(),
            r.variants@ == Seq::<(Seq<char>, VariantState)>::empty(),
            r.known_variants@ == Seq::<(Seq<char>, String)>::empty(),
            r.variant_failures@ == Seq::<(Seq<char>, u32)>::empty(),
            r.errors@ == Seq::<crate::error::MonitorError>::empty(),
            r.events@ == Seq::<crate::event::MonitorEvent>::empty(),
            r.errors.cap() == error_capacity,
            r.events.cap() == event_capacity,
            r.last_content_change_ms == now_ms,
            r.last_fetch_ms == now_ms,
            !r.was_stale,
    {
        StreamData {
            variants: AssocMap::new(),
            known_variants: AssocMap::new(),
            variant_failures: AssocMap::new(),
            last_content_change_ms: now_ms,
            last_fetch_ms: now_ms,
            errors: Ring::new(error_capacity),
            events: Ring::new(event_capacity),
            was_stale: false,
        }
    }
}

/// Live status of one stream, as handed to read-only callers.
pub struct StreamStatus {
    pub stream_id: String,
    pub stream_url: String,
    pub last_fetch_ms: u64,
    pub last_content_change_ms: u64,
    pub error_count: usize,
    pub variants: Vec<VariantStatus>,
}

/// Live status of one variant of a stream.
pub struct VariantStatus {
    pub variant_key: String,
    pub media_type: String,
    pub media_sequence: u64,
    pub discontinuity_sequence: u64,
    pub segment_count: usize,
    pub playlist_duration_ms: u64,
    pub in_cue_out: bool,
    pub cue_out_duration_ms: Option<u64>,
    pub cue_out_count: usize,
    pub cue_in_count: usize,
    pub consecutive_failures: u32,
}

/// One monitored stream: an identifier and the master playlist URL.
pub struct StreamItem {
    pub id: String,
    pub url: String,
}

impl crate::ring::Dup for StreamItem {
    fn dup(&self) -> (r: Self)
        ensures
            r == *self,
    {
        StreamItem { id: self.id.clone(), url: self.url.clone() }
    }
}

} // verus!
