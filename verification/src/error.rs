//! Monitor errors: the closed set of error kinds, the error record, and the
//! bounded ring that stores recent errors per stream.

use vstd::prelude::*;

use crate::ids::fresh_id;
use crate::ring::{Dup, Ring};

verus! {

/// The closed set of error kinds the monitor can raise.
#[derive(Debug, Clone, Copy, PartialEq, Eq, Structural, Hash)]
pub enum ErrorType {
    ManifestRetrieval,
    MediaSequence,
    PlaylistSize,
    PlaylistContent,
    SegmentContinuity,
    DiscontinuitySequence,
    StaleManifest,
    Scte35Violation,
    TargetDurationExceeded,
    GapDetected,
    MediaSequenceGap,
    PlaylistTypeViolation,
    SegmentDurationAnomaly,
    VersionViolation,
    ProgramDateTimeJump,
    DateRangeViolation,
    VariantSyncDrift,
    VariantUnavailable,
}

/// The human-readable name of an error kind.
pub open spec fn error_type_label(t: ErrorType) -> Seq<char> {
    match t {
        ErrorType::ManifestRetrieval => "Manifest Retrieval"@,
        ErrorType::MediaSequence => "Media Sequence"@,
        ErrorType::PlaylistSize => "Playlist Size"@,
        ErrorType::PlaylistContent => "Playlist Content"@,
        ErrorType::SegmentContinuity => "Segment Continuity"@,
        ErrorType::DiscontinuitySequence => "Discontinuity Sequence"@,
        ErrorType::StaleManifest => "Stale Manifest"@,
        ErrorType::Scte35Violation => "SCTE-35 Violation"@,
        ErrorType::TargetDurationExceeded => "Target Duration Exceeded"@,
        ErrorType::GapDetected => "Gap Detected"@,
        ErrorType::MediaSequenceGap => "Media Sequence Gap"@,
        ErrorType::PlaylistTypeViolation => "Playlist Type Violation"@,
        ErrorType::SegmentDurationAnomaly => "Segment Duration Anomaly"@,
        ErrorType::VersionViolation => "Version Violation"@,
        ErrorType::ProgramDateTimeJump => "Program Date Time Jump"@,
        ErrorType::DateRangeViolation => "Date Range Violation"@,
        ErrorType::VariantSyncDrift => "Variant Sync Drift"@,
        ErrorType::VariantUnavailable => "Variant Unavailable"@,
    }
}

impl ErrorType {
    /// The human-readable name of this error kind.
    pub fn label(&self) -> (r: String)
        ensures
            r@ == error_type_label(*self),
    {
        match self {
            ErrorType::ManifestRetrieval => "Manifest Retrieval".to_owned(),
            ErrorType::MediaSequence => "Media Sequence".to_owned(),
            ErrorType::PlaylistSize => "Playlist Size".to_owned(),
            ErrorType::PlaylistContent => "Playlist Content".to_owned(),
            ErrorType::SegmentContinuity => "Segment Continuity".to_owned(),
            ErrorType::DiscontinuitySequence => "Discontinuity Sequence".to_owned(),
            ErrorType::StaleManifest => "Stale Manifest".to_owned(),
            ErrorType::Scte35Violation => "SCTE-35 Violation".to_owned(),
            ErrorType::TargetDurationExceeded => "Target Duration Exceeded".to_owned(),
            ErrorType::GapDetected => "Gap Detected".to_owned(),
            ErrorType::MediaSequenceGap => "Media Sequence Gap".to_owned(),
            ErrorType::PlaylistTypeViolation => "Playlist Type Violation".to_owned(),
            ErrorType::SegmentDurationAnomaly => "Segment Duration Anomaly".to_owned(),
            ErrorType::VersionViolation => "Version Violation".to_owned(),
            ErrorType::ProgramDateTimeJump => "Program Date Time Jump".to_owned(),
            ErrorType::DateRangeViolation => "Date Range Violation".to_owned(),
            ErrorType::VariantSyncDrift => "Variant Sync Drift".to_owned(),
            ErrorType::VariantUnavailable => "Variant Unavailable".to_owned(),
        }
    }
}

/// One error raised by the monitor. The `id` is a fresh random identifier;
/// every other field is determined by the caller.
pub struct MonitorError {
    pub id: String,
    pub timestamp_ms: u64,
    pub error_type: ErrorType,
    pub media_type: String,
    pub variant: String,
    pub details: String,
    pub stream_url: String,
    pub stream_id: String,
    pub status_code: Option<u16>,
}

/// Everything of an error except its random identifier, as one spec value.
/// Two errors from the same cause agree on their core.
#[verifier::ext_equal]
pub struct ErrorCore {
    pub timestamp_ms: u64,
    pub error_type: ErrorType,
    pub media_type: Seq<char>,
    pub variant: Seq<char>,
    pub details: Seq<char>,
    pub stream_url: Seq<char>,
    pub stream_id: Seq<char>,
    pub status_code: Option<u16>,
}

impl MonitorError {
    /// The error's core: all fields but the random identifier.
    pub open spec fn core_data(&self) -> ErrorCore {
        ErrorCore {
            timestamp_ms: self.timestamp_ms,
            error_type: self.error_type,
            media_type: self.media_type@,
            variant: self.variant@,
            details: self.details@,
            stream_url: self.stream_url@,
            stream_id: self.stream_id@,
            status_code: self.status_code,
        }
    }

    /// Builds an error with a fresh random identifier and no status code.
    pub fn new(
        error_type: ErrorType,
        media_type: &str,
        variant: &str,
        details: &str,
        stream_url: &str,
        stream_id: &str,
        timestamp_ms: u64,
    ) -> (r: MonitorError)
        ensures
            r.core_data() == (ErrorCore {
                timestamp_ms,
                error_type,
                media_type: media_type@,
                variant: variant@,
                details: details@,
                stream_url: stream_url@,
                stream_id: stream_id@,
                status_code: None::<u16>,
            }),
    {
        MonitorError {
            id: fresh_id(),
            timestamp_ms,
            error_type,
            media_type: media_type.to_owned(),
            variant: variant.to_owned(),
            details: details.to_owned(),
            stream_url: stream_url.to_owned(),
            stream_id: stream_id.to_owned(),
            status_code: None,
        }
    }

    /// The same error with a status code attached.
    pub fn with_status_code(self, code: u16) -> (r: MonitorError)
        ensures
            r.core_data() == (ErrorCore { status_code: Some(code), ..self.core_data() }),
            r.id == self.id,
    {
        MonitorError { status_code: Some(code), ..self }
    }
}

impl Dup for MonitorError {
    fn dup(&self) -> (r: Self)
        ensures
            r == *self,
    {
        MonitorError {
            id: self.id.clone(),
            timestamp_ms: self.timestamp_ms,
            error_type: self.error_type,
            media_type: self.media_type.clone(),
            variant: self.variant.clone(),
            details: self.details.clone(),
            stream_url: self.stream_url.clone(),
            stream_id: self.stream_id.clone(),
            status_code: self.status_code,
        }
    }
}

/// Bounded chronological store of recent errors.
pub type ErrorRing = Ring<MonitorError>;

} // verus!
