//! Per-monitor configuration. All times are in milliseconds; the segment
//! duration anomaly ratio is a percentage of the target duration.

use vstd::prelude::*;

verus! {

/// Configuration for an HLS monitor instance.
#[derive(Clone, Copy, Debug)]
pub struct MonitorConfig {
    /// Time in ms without content change before a manifest is stale.
    pub stale_limit_ms: u64,
    /// Polling interval between manifest fetches, in ms.
    pub poll_interval_ms: u64,
    /// Maximum number of errors retained per stream (ring capacity).
    pub error_limit: usize,
    /// HTTP request timeout for manifest fetches, in ms.
    pub request_timeout_ms: u64,
    /// Maximum number of retries for failed manifest fetches.
    pub max_retries: u32,
    /// Base backoff in ms for retries; doubled each attempt.
    pub retry_backoff_ms: u64,
    /// Whether SCTE-35/CUE marker validation runs.
    pub scte35_enabled: bool,
    /// Whether program-date-time continuity validation runs.
    pub pdt_checks_enabled: bool,
    /// Whether `EXT-X-DATERANGE` validation runs.
    pub daterange_checks_enabled: bool,
    /// Maximum number of events retained per stream (ring capacity).
    pub event_limit: usize,
    /// How many ms a segment may exceed `EXT-X-TARGETDURATION`.
    pub target_duration_tolerance_ms: u64,
    /// Minimum media-sequence jump that triggers a gap error.
    pub mseq_gap_threshold: u64,
    /// Allowed media-sequence delta between variants.
    pub variant_sync_drift_threshold: u64,
    /// Consecutive fetch failures until a variant is flagged unavailable.
    pub variant_failure_threshold: u32,
    /// Percentage of the target duration below which a non-last segment is
    /// abnormally short.
    pub segment_duration_anomaly_percent: u64,
    /// Concurrent variant fetches per poll per stream.
    pub max_concurrent_fetches: usize,
}

/// The default configuration: 6 s stale limit, polling at half the stale
/// limit, and the documented default thresholds.
pub open spec fn default_config() -> MonitorConfig {
    MonitorConfig {
        stale_limit_ms: 6000,
        poll_interval_ms: 3000,
        error_limit: 100,
        request_timeout_ms: 10000,
        max_retries: 3,
        retry_backoff_ms: 100,
        scte35_enabled: false,
        pdt_checks_enabled: false,
        daterange_checks_enabled: false,
        event_limit: 200,
        target_duration_tolerance_ms: 500,
        mseq_gap_threshold: 5,
        variant_sync_drift_threshold: 3,
        variant_failure_threshold: 3,
        segment_duration_anomaly_percent: 50,
        max_concurrent_fetches: 4,
    }
}

impl Default for MonitorConfig {
    /// The default configuration.
    fn default() -> (r: Self)
        ensures
            r == default_config(),
    {
        MonitorConfig {
            stale_limit_ms: 6000,
            poll_interval_ms: 3000,
            error_limit: 100,
            request_timeout_ms: 10000,
            max_retries: 3,
            retry_backoff_ms: 100,
            scte35_enabled: false,
            pdt_checks_enabled: false,
            daterange_checks_enabled: false,
            event_limit: 200,
            target_duration_tolerance_ms: 500,
            mseq_gap_threshold: 5,
            variant_sync_drift_threshold: 3,
            variant_failure_threshold: 3,
            segment_duration_anomaly_percent: 50,
            max_concurrent_fetches: 4,
        }
    }
}

impl MonitorConfig {
    /// Sets the stale limit. The poll interval follows to half the new limit
    /// when it still had its derived value, or when it would exceed the new
    /// limit.
    pub fn with_stale_limit(self, ms: u64) -> (r: Self)
        ensures
            r.stale_limit_ms == ms,
            r.poll_interval_ms == if self.poll_interval_ms == self.stale_limit_ms / 2 || self.poll_interval_ms > ms {
                ms / 2
            } else {
                self.poll_interval_ms
            },
            r == (MonitorConfig { stale_limit_ms: ms, poll_interval_ms: r.poll_interval_ms, ..self }),
    {
        let old_default_poll = self.stale_limit_ms / 2;
        let mut r = self;
        r.stale_limit_ms = ms;
        if r.poll_interval_ms == old_default_poll {
            r.poll_interval_ms = ms / 2;
        }
        if r.poll_interval_ms > r.stale_limit_ms {
            r.poll_interval_ms = ms / 2;
        }
        r
    }

    /// Sets the poll interval.
    pub fn with_poll_interval(self, ms: u64) -> (r: Self)
        ensures
            r == (MonitorConfig { poll_interval_ms: ms, ..self }),
    {
        MonitorConfig { poll_interval_ms: ms, ..self }
    }

    /// Sets the error ring capacity.
    pub fn with_error_limit(self, limit: usize) -> (r: Self)
        ensures
            r == (MonitorConfig { error_limit: limit, ..self }),
    {
        MonitorConfig { error_limit: limit, ..self }
    }

    /// Enables or disables SCTE-35 checks.
    pub fn with_scte35(self, enabled: bool) -> (r: Self)
        ensures
            r == (MonitorConfig { scte35_enabled: enabled, ..self }),
    {
        MonitorConfig { scte35_enabled: enabled, ..self }
    }

    /// Enables or disables program-date-time checks.
    pub fn with_pdt_checks(self, enabled: bool) -> (r: Self)
        ensures
            r == (MonitorConfig { pdt_checks_enabled: enabled, ..self }),
    {
        MonitorConfig { pdt_checks_enabled: enabled, ..self }
    }

    /// Enables or disables date-range checks.
    pub fn with_daterange_checks(self, enabled: bool) -> (r: Self)
        ensures
            r == (MonitorConfig { daterange_checks_enabled: enabled, ..self }),
    {
        MonitorConfig { daterange_checks_enabled: enabled, ..self }
    }

    /// Sets the event ring capacity.
    pub fn with_event_limit(self, limit: usize) -> (r: Self)
        ensures
            r == (MonitorConfig { event_limit: limit, ..self }),
    {
        MonitorConfig { event_limit: limit, ..self }
    }

    /// Sets the target-duration tolerance, in ms.
    pub fn with_target_duration_tolerance(self, tolerance_ms: u64) -> (r: Self)
        ensures
            r == (MonitorConfig { target_duration_tolerance_ms: tolerance_ms, ..self }),
    {
        MonitorConfig { target_duration_tolerance_ms: tolerance_ms, ..self }
    }

    /// Sets the media-sequence gap threshold.
    pub fn with_mseq_gap_threshold(self, threshold: u64) -> (r: Self)
        ensures
            r == (MonitorConfig { mseq_gap_threshold: threshold, ..self }),
    {
        MonitorConfig { mseq_gap_threshold: threshold, ..self }
    }

    /// Sets the variant sync drift threshold.
    pub fn with_variant_sync_drift_threshold(self, threshold: u64) -> (r: Self)
        ensures
            r == (MonitorConfig { variant_sync_drift_threshold: threshold, ..self }),
    {
        MonitorConfig { variant_sync_drift_threshold: threshold, ..self }
    }

    /// Sets the variant failure threshold.
    pub fn with_variant_failure_threshold(self, threshold: u32) -> (r: Self)
        ensures
            r == (MonitorConfig { variant_failure_threshold: threshold, ..self }),
    {
        MonitorConfig { variant_failure_threshold: threshold, ..self }
    }

    /// Sets the segment duration anomaly ratio, as a percentage of the
    /// target duration.
    pub fn with_segment_duration_anomaly_ratio(self, percent: u64) -> (r: Self)
        ensures
            r == (MonitorConfig { segment_duration_anomaly_percent: percent, ..self }),
    {
        MonitorConfig { segment_duration_anomaly_percent: percent, ..self }
    }

    /// Sets the bound on concurrent variant fetches, at least 1.
    pub fn with_max_concurrent_fetches(self, max: usize) -> (r: Self)
        ensures
            r == (MonitorConfig {
                max_concurrent_fetches: if max >= 1 { max } else { 1 },
                ..self
            }),
    {
        MonitorConfig { max_concurrent_fetches: if max >= 1 { max } else { 1 }, ..self }
    }
}

} // verus!
