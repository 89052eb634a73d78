//! Stream-level checks: comparisons across all variants of one stream.

use vstd::prelude::*;

use crate::assoc::AssocMap;
use crate::checks::cores;
use crate::error::{ErrorCore, ErrorType, MonitorError};
use crate::messages::{fmt_sync_drift, fmt_variant_unavailable, msg_sync_drift, msg_variant_unavailable};
use crate::state::VariantState;

verus! {

/// Stream identity and per-variant failure counters handed to each stream
/// check, plus the poll's time.
pub struct StreamCheckContext {
    pub stream_url: String,
    pub stream_id: String,
    pub variant_failures: AssocMap<u32>,
    pub now_ms: u64,
}

/// The core of an error a stream check emits.
pub open spec fn stream_core(
    ctx: StreamCheckContext,
    t: ErrorType,
    media_type: Seq<char>,
    variant: Seq<char>,
    details: Seq<char>,
) -> ErrorCore {
    ErrorCore {
        timestamp_ms: ctx.now_ms,
        error_type: t,
        media_type,
        variant,
        details,
        stream_url: ctx.stream_url@,
        stream_id: ctx.stream_id@,
        status_code: None,
    }
}

/// The position of the variant with the smallest media sequence among the
/// first `end` entries, earliest such position winning ties.
pub open spec fn scan_min_idx(s: Seq<(Seq<char>, VariantState)>, end: int) -> int
    decreases end,
{
    if end <= 1 {
        0
    } else {
        let m = scan_min_idx(s, end - 1);
        if s[end - 1].1.media_sequence < s[m].1.media_sequence {
            end - 1
        } else {
            m
        }
    }
}

/// The position of the variant with the largest media sequence among the
/// first `end` entries, earliest such position winning ties.
pub open spec fn scan_max_idx(s: Seq<(Seq<char>, VariantState)>, end: int) -> int
    decreases end,
{
    if end <= 1 {
        0
    } else {
        let m = scan_max_idx(s, end - 1);
        if s[end - 1].1.media_sequence > s[m].1.media_sequence {
            end - 1
        } else {
            m
        }
    }
}

/// Detects media-sequence drift between the slowest and fastest variant.
pub struct VariantSyncDriftCheck {
    pub threshold: u64,
}

/// The errors `VariantSyncDriftCheck` emits: with at least two variants,
/// exactly one when the spread between the largest and smallest media
/// sequence strictly exceeds the threshold; none otherwise.
pub open spec fn sync_drift_cores(
    variants: Seq<(Seq<char>, VariantState)>,
    threshold: u64,
    ctx: StreamCheckContext,
) -> Seq<ErrorCore> {
    if variants.len() < 2 {
        Seq::empty()
    } else {
        let mini = scan_min_idx(variants, variants.len() as int);
        let maxi = scan_max_idx(variants, variants.len() as int);
        let min_mseq = variants[mini].1.media_sequence;
        let max_mseq = variants[maxi].1.media_sequence;
        if max_mseq - min_mseq > threshold {
            seq![
                stream_core(
                    ctx,
                    ErrorType::VariantSyncDrift,
                    "ALL"@,
                    "ALL"@,
                    msg_sync_drift(
                        variants[maxi].0,
                        max_mseq as nat,
                        (max_mseq - min_mseq) as nat,
                        variants[mini].0,
                        min_mseq as nat,
                    ),
                ),
            ]
        } else {
            Seq::empty()
        }
    }
}

impl VariantSyncDriftCheck {
    /// A check with the given drift threshold.
    pub fn new(threshold: u64) -> (r: Self)
        ensures
            r.threshold == threshold,
    {
        VariantSyncDriftCheck { threshold }
    }

    /// Flags a spread of media sequences wider than the threshold.
    pub fn check(&self, variants: &AssocMap<VariantState>, ctx: &StreamCheckContext) -> (r: Vec<
        MonitorError,
    >)
        ensures
            cores(r@) == sync_drift_cores(variants@, self.threshold, *ctx),
    {
        let mut r: Vec<MonitorError> = Vec::new();
        let n = variants.len();
        if n < 2 {
            proof {
                assert(cores(r@) =~~= sync_drift_cores(variants@, self.threshold, *ctx));
            }
            return r;
        }
        let mut mini: usize = 0;
        let mut maxi: usize = 0;
        let mut i: usize = 1;
        while i < n
            invariant
                1 <= i <= n,
                n == variants@.len(),
                mini < i,
                maxi < i,
                mini as int == scan_min_idx(variants@, i as int),
                maxi as int == scan_max_idx(variants@, i as int),
            decreases n - i,
        {
            if variants.val_at(i).media_sequence < variants.val_at(mini).media_sequence {
                mini = i;
            }
            if variants.val_at(i).media_sequence > variants.val_at(maxi).media_sequence {
                maxi = i;
            }
            i = i + 1;
        }
        let min_mseq = variants.val_at(mini).media_sequence;
        let max_mseq = variants.val_at(maxi).media_sequence;
        proof {
            lemma_scan_min_is_min(variants@, n as int);
            lemma_scan_max_is_max(variants@, n as int);
        }
        if max_mseq - min_mseq > self.threshold {
            let details = fmt_sync_drift(
                variants.key_at(maxi).as_str(),
                max_mseq,
                max_mseq - min_mseq,
                variants.key_at(mini).as_str(),
                min_mseq,
            );
            r.push(
                MonitorError::new(
                    ErrorType::VariantSyncDrift,
                    "ALL",
                    "ALL",
                    details.as_str(),
                    ctx.stream_url.as_str(),
                    ctx.stream_id.as_str(),
                    ctx.now_ms,
                ),
            );
        }
        proof {
            assert(cores(r@) =~~= sync_drift_cores(variants@, self.threshold, *ctx));
        }
        r
    }
}

/// The minimum scan lands on a minimal media sequence.
proof fn lemma_scan_min_is_min(s: Seq<(Seq<char>, VariantState)>, end: int)
    requires
        1 <= end <= s.len(),
    ensures
        0 <= scan_min_idx(s, end) < end,
        forall|j: int|
            0 <= j < end ==> s[scan_min_idx(s, end)].1.media_sequence <= #[trigger] s[j].1.media_sequence,
    decreases end,
{
    if end > 1 {
        lemma_scan_min_is_min(s, end - 1);
    }
}

/// The maximum scan lands on a maximal media sequence.
proof fn lemma_scan_max_is_max(s: Seq<(Seq<char>, VariantState)>, end: int)
    requires
        1 <= end <= s.len(),
    ensures
        0 <= scan_max_idx(s, end) < end,
        forall|j: int|
            0 <= j < end ==> s[scan_max_idx(s, end)].1.media_sequence >= #[trigger] s[j].1.media_sequence,
    decreases end,
{
    if end > 1 {
        lemma_scan_max_is_max(s, end - 1);
    }
}

/// Flags variants that keep failing while at least one variant is healthy.
pub struct VariantAvailabilityCheck {
    pub failure_threshold: u32,
}

/// Whether every recorded failure counter is zero (or none is recorded).
pub open spec fn va_all_zero(f: Seq<(Seq<char>, u32)>) -> bool {
    forall|i: int| 0 <= i < f.len() ==> f[i].1 == 0
}

/// Whether there is at least one counter and all have reached the threshold.
pub open spec fn va_all_failing(f: Seq<(Seq<char>, u32)>, threshold: u32) -> bool {
    f.len() > 0 && forall|i: int| 0 <= i < f.len() ==> f[i].1 >= threshold
}

/// Whether some variant has a zero failure counter.
pub open spec fn va_has_healthy(f: Seq<(Seq<char>, u32)>) -> bool {
    exists|i: int| 0 <= i < f.len() && f[i].1 == 0
}

/// The unavailability errors for the counters at and after index `i`: one
/// per variant whose counter has reached the threshold.
pub open spec fn va_scan(
    f: Seq<(Seq<char>, u32)>,
    threshold: u32,
    ctx: StreamCheckContext,
    i: int,
) -> Seq<ErrorCore>
    decreases f.len() - i,
{
    if i < 0 || i >= f.len() {
        Seq::empty()
    } else {
        (if f[i].1 >= threshold {
            seq![
                stream_core(
                    ctx,
                    ErrorType::VariantUnavailable,
                    "ALL"@,
                    f[i].0,
                    msg_variant_unavailable(f[i].0, f[i].1 as nat),
                ),
            ]
        } else {
            Seq::empty()
        }) + va_scan(f, threshold, ctx, i + 1)
    }
}

/// The errors `VariantAvailabilityCheck` emits: when some variants have
/// reached the failure threshold while at least one other is healthy, one
/// error per failing variant. When all are healthy or all are failing,
/// nothing is emitted.
pub open spec fn variant_availability_cores(
    f: Seq<(Seq<char>, u32)>,
    threshold: u32,
    ctx: StreamCheckContext,
) -> Seq<ErrorCore> {
    if va_all_zero(f) || va_all_failing(f, threshold) || !va_has_healthy(f) {
        Seq::empty()
    } else {
        va_scan(f, threshold, ctx, 0)
    }
}

impl VariantAvailabilityCheck {
    /// A check with the given failure threshold.
    pub fn new(failure_threshold: u32) -> (r: Self)
        ensures
            r.failure_threshold == failure_threshold,
    {
        VariantAvailabilityCheck { failure_threshold }
    }

    /// Flags every variant at the failure threshold while another is healthy.
    pub fn check(&self, _variants: &AssocMap<VariantState>, ctx: &StreamCheckContext) -> (r: Vec<
        MonitorError,
    >)
        ensures
            cores(r@) == variant_availability_cores(
                ctx.variant_failures@,
                self.failure_threshold,
                *ctx,
            ),
    {
        let ghost f = ctx.variant_failures@;
        let n = ctx.variant_failures.len();
        let mut r: Vec<MonitorError> = Vec::new();

        let mut has_healthy = false;
        let mut all_zero = true;
        let mut all_failing = n > 0;
        let mut i: usize = 0;
        while i < n
            invariant
                i <= n,
                n == f.len(),
                f == ctx.variant_failures@,
                has_healthy == exists|j: int| 0 <= j < i && f[j].1 == 0,
                all_zero == forall|j: int| 0 <= j < i ==> f[j].1 == 0,
                all_failing == (n > 0 && forall|j: int|
                    0 <= j < i ==> f[j].1 >= self.failure_threshold),
            decreases n - i,
        {
            let c = *ctx.variant_failures.val_at(i);
            if c == 0 {
                has_healthy = true;
            } else {
                all_zero = false;
            }
            if c < self.failure_threshold {
                all_failing = false;
            }
            i = i + 1;
        }
        if all_zero || all_failing || !has_healthy {
            proof {
                assert(cores(r@) =~~= variant_availability_cores(f, self.failure_threshold, *ctx));
            }
            return r;
        }
        let mut i: usize = 0;
        while i < n
            invariant
                i <= n,
                n == f.len(),
                f == ctx.variant_failures@,
                va_scan(f, self.failure_threshold, *ctx, 0) =~~= cores(r@) + va_scan(
                    f,
                    self.failure_threshold,
                    *ctx,
                    i as int,
                ),
            decreases n - i,
        {
            let ghost pre = r@;
            let c = *ctx.variant_failures.val_at(i);
            if c >= self.failure_threshold {
                let details = fmt_variant_unavailable(ctx.variant_failures.key_at(i).as_str(), c);
                r.push(
                    MonitorError::new(
                        ErrorType::VariantUnavailable,
                        "ALL",
                        ctx.variant_failures.key_at(i).as_str(),
                        details.as_str(),
                        ctx.stream_url.as_str(),
                        ctx.stream_id.as_str(),
                        ctx.now_ms,
                    ),
                );
            }
            proof {
                assert(cores(r@) + va_scan(f, self.failure_threshold, *ctx, i + 1) =~~= cores(pre)
                    + va_scan(f, self.failure_threshold, *ctx, i as int));
            }
            i = i + 1;
        }
        proof {
            assert(cores(r@) =~~= variant_availability_cores(f, self.failure_threshold, *ctx));
        }
        r
    }
}

/// Everything the stream-level battery emits, in order: variant sync drift,
/// then variant availability.
pub open spec fn stream_check_cores(
    config: crate::config::MonitorConfig,
    variants: Seq<(Seq<char>, VariantState)>,
    ctx: StreamCheckContext,
) -> Seq<ErrorCore> {
    sync_drift_cores(variants, config.variant_sync_drift_threshold, ctx)
        + variant_availability_cores(ctx.variant_failures@, config.variant_failure_threshold, ctx)
}

/// Runs the stream-level battery in order.
pub fn run_stream_checks(
    config: &crate::config::MonitorConfig,
    variants: &AssocMap<VariantState>,
    ctx: &StreamCheckContext,
) -> (r: Vec<MonitorError>)
    ensures
        cores(r@) == stream_check_cores(*config, variants@, *ctx),
{
    let mut r = VariantSyncDriftCheck::new(config.variant_sync_drift_threshold).check(
        variants,
        ctx,
    );
    let mut v = VariantAvailabilityCheck::new(config.variant_failure_threshold).check(
        variants,
        ctx,
    );
    let ghost c0 = cores(r@) + cores(v@);
    r.append(&mut v);
    proof {
        assert(cores(r@) =~~= c0);
        assert(cores(r@) =~~= stream_check_cores(*config, variants@, *ctx));
    }
    r
}

} // verus!
