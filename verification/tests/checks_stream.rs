use hls_monitor::assoc::AssocMap;
use hls_monitor::checks::{check_stale, DateRangeCheck};
use hls_monitor::error::ErrorType;
use hls_monitor::state::{CheckContext, DateRangeSnapshot, PlaylistSnapshot, SegmentSnapshot,
    VariantState};
use hls_monitor::stream_checks::{StreamCheckContext, VariantAvailabilityCheck,
    VariantSyncDriftCheck};

fn make_variant(mseq: u64) -> VariantState {
    VariantState {
        media_type: "VIDEO".to_string(),
        media_sequence: mseq,
        segment_uris: vec![],
        discontinuity_sequence: 0,
        next_is_discontinuity: false,
        prev_segments: vec![],
        duration_ms: 0,
        cue_out_count: 0,
        cue_in_count: 0,
        in_cue_out: false,
        cue_out_duration_ms: None,
        version: None,
    }
}

fn make_ctx() -> StreamCheckContext {
    StreamCheckContext {
        stream_url: "http://example.com/master.m3u8".to_string(),
        stream_id: "stream_1".to_string(),
        variant_failures: AssocMap::new(),
        now_ms: 0,
    }
}

fn make_ctx_with_failures(failures: Vec<(&str, u32)>) -> StreamCheckContext {
    let mut m: AssocMap<u32> = AssocMap::new();
    for (k, v) in failures {
        m.set(k, v);
    }
    StreamCheckContext { variant_failures: m, ..make_ctx() }
}

fn variants_of(entries: Vec<(&str, u64)>) -> AssocMap<VariantState> {
    let mut m: AssocMap<VariantState> = AssocMap::new();
    for (k, mseq) in entries {
        m.set(k, make_variant(mseq));
    }
    m
}

#[test]
fn no_error_in_sync() {
    let check = VariantSyncDriftCheck::new(3);
    let variants = variants_of(vec![("720p", 100), ("1080p", 101)]);
    assert!(check.check(&variants, &make_ctx()).is_empty());
}

#[test]
fn detects_drift() {
    let check = VariantSyncDriftCheck::new(3);
    let variants = variants_of(vec![("720p", 100), ("1080p", 110)]);
    let errors = check.check(&variants, &make_ctx());
    assert_eq!(errors.len(), 1);
    assert_eq!(errors[0].error_type, ErrorType::VariantSyncDrift);
    assert!(errors[0].details.contains("10 segments ahead"));
    assert_eq!(errors[0].media_type, "ALL");
    assert_eq!(errors[0].variant, "ALL");
}

#[test]
fn no_error_single_variant() {
    let check = VariantSyncDriftCheck::new(3);
    let variants = variants_of(vec![("720p", 100)]);
    assert!(check.check(&variants, &make_ctx()).is_empty());
}

#[test]
fn no_error_within_threshold() {
    let check = VariantSyncDriftCheck::new(3);
    let variants = variants_of(vec![("720p", 100), ("1080p", 103)]);
    assert!(check.check(&variants, &make_ctx()).is_empty());
}

#[test]
fn no_error_all_healthy() {
    let check = VariantAvailabilityCheck::new(3);
    let ctx = make_ctx_with_failures(vec![("720p", 0), ("1080p", 0)]);
    assert!(check.check(&AssocMap::new(), &ctx).is_empty());
}

#[test]
fn detects_unavailable_variant() {
    let check = VariantAvailabilityCheck::new(3);
    let ctx = make_ctx_with_failures(vec![("720p", 3), ("1080p", 0)]);
    let errors = check.check(&AssocMap::new(), &ctx);
    assert_eq!(errors.len(), 1);
    assert_eq!(errors[0].error_type, ErrorType::VariantUnavailable);
    assert!(errors[0].details.contains("720p"));
    assert!(errors[0].details.contains("3 consecutive polls"));
    assert_eq!(errors[0].media_type, "ALL");
    assert_eq!(errors[0].variant, "720p");
}

#[test]
fn variant_availability_no_error_below_threshold() {
    let check = VariantAvailabilityCheck::new(3);
    let ctx = make_ctx_with_failures(vec![("720p", 2), ("1080p", 0)]);
    assert!(check.check(&AssocMap::new(), &ctx).is_empty());
}

#[test]
fn no_error_all_failing() {
    let check = VariantAvailabilityCheck::new(3);
    let ctx = make_ctx_with_failures(vec![("720p", 5), ("1080p", 4)]);
    assert!(check.check(&AssocMap::new(), &ctx).is_empty());
}

#[test]
fn no_error_empty_variants() {
    let check = VariantAvailabilityCheck::new(3);
    let ctx = make_ctx_with_failures(vec![]);
    assert!(check.check(&AssocMap::new(), &ctx).is_empty());
}

#[test]
fn detects_stale_manifest() {
    let err = check_stale(7000, 6000, "http://example.com/", "s1", 0);
    assert!(err.is_some());
    let e = err.unwrap();
    assert_eq!(e.error_type, ErrorType::StaleManifest);
    assert!(e.details.contains("Expected: 6000ms. Got: 7000ms"));
}

#[test]
fn no_error_within_limit() {
    assert!(check_stale(5000, 6000, "http://example.com/", "s1", 0).is_none());
}

#[test]
fn no_error_at_exact_limit() {
    assert!(check_stale(6000, 6000, "http://example.com/", "s1", 0).is_none());
}

fn ctx() -> CheckContext {
    CheckContext {
        stream_url: "http://example.com/".to_string(),
        stream_id: "stream_1".to_string(),
        media_type: "VIDEO".to_string(),
        variant_key: "1200000".to_string(),
        now_ms: 0,
    }
}

fn make_prev() -> VariantState {
    make_variant(100)
}

fn dr_segment(uri: &str, dr: Option<DateRangeSnapshot>) -> SegmentSnapshot {
    SegmentSnapshot {
        uri: uri.to_string(),
        duration_ms: 10_000,
        discontinuity: false,
        cue_out: false,
        cue_in: false,
        cue_out_cont: None,
        gap: false,
        program_date_time_ms: None,
        daterange: dr,
    }
}

fn dr_snap(mseq: u64, segs: Vec<SegmentSnapshot>) -> PlaylistSnapshot {
    PlaylistSnapshot {
        media_sequence: mseq,
        discontinuity_sequence: 0,
        segments: segs,
        duration_ms: 10_000,
        cue_out_count: 0,
        cue_in_count: 0,
        has_cue_out: false,
        cue_out_duration_ms: None,
        target_duration_ms: 10_000,
        playlist_type: None,
        version: None,
        has_gaps: false,
    }
}

fn make_daterange(
    id: &str,
    class: Option<&str>,
    start_ms: i64,
    end_ms: Option<i64>,
    duration_ms: Option<i64>,
    end_on_next: bool,
) -> DateRangeSnapshot {
    DateRangeSnapshot {
        id: id.to_string(),
        class: class.map(|s| s.to_string()),
        start_date_ms: start_ms,
        end_date_ms: end_ms,
        duration_ms,
        end_on_next,
    }
}

#[test]
fn no_error_valid_daterange() {
    let check = DateRangeCheck;
    let t0: i64 = 1_700_000_000_000;
    let dr = make_daterange("ad-1", Some("ads"), t0, Some(t0 + 30_000), Some(30_000), false);
    let snap = dr_snap(100, vec![dr_segment("a.ts", Some(dr))]);
    assert!(check.check(&make_prev(), &snap, &ctx()).is_empty());
}

#[test]
fn error_end_before_start() {
    let check = DateRangeCheck;
    let t0: i64 = 1_700_000_000_000;
    let dr = make_daterange("ad-1", None, t0, Some(t0 - 10_000), None, false);
    let snap = dr_snap(100, vec![dr_segment("a.ts", Some(dr))]);
    let errors = check.check(&make_prev(), &snap, &ctx());
    assert_eq!(errors.len(), 1);
    assert_eq!(errors[0].error_type, ErrorType::DateRangeViolation);
    assert!(errors[0].details.contains("END-DATE"));
    assert!(errors[0].details.contains("before START-DATE"));
    assert!(errors[0].details.contains("ad-1"));
}

#[test]
fn error_negative_duration() {
    let check = DateRangeCheck;
    let t0: i64 = 1_700_000_000_000;
    let dr = make_daterange("ad-1", None, t0, None, Some(-5_000), false);
    let snap = dr_snap(100, vec![dr_segment("a.ts", Some(dr))]);
    let errors = check.check(&make_prev(), &snap, &ctx());
    assert_eq!(errors.len(), 1);
    assert_eq!(errors[0].error_type, ErrorType::DateRangeViolation);
    assert!(errors[0].details.contains("negative DURATION"));
    assert!(errors[0].details.contains("-5.000s"));
}

#[test]
fn error_end_on_next_without_class() {
    let check = DateRangeCheck;
    let t0: i64 = 1_700_000_000_000;
    let dr = make_daterange("ad-1", None, t0, None, None, true);
    let snap = dr_snap(100, vec![dr_segment("a.ts", Some(dr))]);
    let errors = check.check(&make_prev(), &snap, &ctx());
    assert_eq!(errors.len(), 1);
    assert!(errors[0].details.contains("END-ON-NEXT requires CLASS"));
}

#[test]
fn error_end_on_next_with_duration() {
    let check = DateRangeCheck;
    let t0: i64 = 1_700_000_000_000;
    let dr = make_daterange("ad-1", Some("ads"), t0, None, Some(30_000), true);
    let snap = dr_snap(100, vec![dr_segment("a.ts", Some(dr))]);
    let errors = check.check(&make_prev(), &snap, &ctx());
    assert_eq!(errors.len(), 1);
    assert!(errors[0].details.contains("END-ON-NEXT must not have DURATION or END-DATE"));
}

#[test]
fn no_error_segments_without_daterange() {
    let check = DateRangeCheck;
    let snap = dr_snap(100, vec![dr_segment("a.ts", None), dr_segment("b.ts", None)]);
    assert!(check.check(&make_prev(), &snap, &ctx()).is_empty());
}
