use hls_monitor::checks::{DiscontinuityCheck, GapCheck, MediaSequenceCheck, MseqGapCheck,
    PlaylistContentCheck, PlaylistSizeCheck, PlaylistTypeCheck, ProgramDateTimeCheck, Scte35Check,
    SegmentContinuityCheck, SegmentDurationAnomalyCheck, TargetDurationCheck, VersionCheck};
use hls_monitor::error::ErrorType;
use hls_monitor::state::{CheckContext, PlaylistSnapshot, PlaylistType, SegmentInfo,
    SegmentSnapshot, VariantState};

fn ctx() -> CheckContext {
    CheckContext {
        stream_url: "http://example.com/".to_string(),
        stream_id: "stream_1".to_string(),
        media_type: "VIDEO".to_string(),
        variant_key: "1200000".to_string(),
        now_ms: 0,
    }
}

fn seg(uri: &str) -> SegmentSnapshot {
    SegmentSnapshot {
        uri: uri.to_string(),
        duration_ms: 10_000,
        discontinuity: false,
        cue_out: false,
        cue_in: false,
        cue_out_cont: None,
        gap: false,
        program_date_time_ms: None,
        daterange: None,
    }
}

fn prev_with(mseq: u64, uris: &[&str]) -> VariantState {
    VariantState {
        media_type: "VIDEO".to_string(),
        media_sequence: mseq,
        segment_uris: uris.iter().map(|s| s.to_string()).collect(),
        discontinuity_sequence: 0,
        next_is_discontinuity: false,
        prev_segments: vec![],
        duration_ms: uris.len() as u64 * 10_000,
        cue_out_count: 0,
        cue_in_count: 0,
        in_cue_out: false,
        cue_out_duration_ms: None,
        version: None,
    }
}

fn snap_with(mseq: u64, uris: &[&str]) -> PlaylistSnapshot {
    PlaylistSnapshot {
        media_sequence: mseq,
        discontinuity_sequence: 0,
        segments: uris.iter().map(|u| seg(u)).collect(),
        duration_ms: uris.len() as u64 * 10_000,
        cue_out_count: 0,
        cue_in_count: 0,
        has_cue_out: false,
        cue_out_duration_ms: None,
        target_duration_ms: 10_000,
        playlist_type: None,
        version: None,
        has_gaps: false,
    }
}

#[test]
fn detects_regression() {
    let check = MediaSequenceCheck;
    let errors = check.check(&prev_with(5, &["a.ts", "b.ts"]), &snap_with(3, &["b.ts", "c.ts"]), &ctx());
    assert_eq!(errors.len(), 1);
    assert_eq!(errors[0].error_type, ErrorType::MediaSequence);
    assert!(errors[0].details.contains("Expected mediaSequence >= 5. Got: 3"));
}

#[test]
fn no_error_on_equal_mseq() {
    let check = MediaSequenceCheck;
    let errors = check.check(&prev_with(5, &["a.ts", "b.ts"]), &snap_with(5, &["b.ts", "c.ts"]), &ctx());
    assert!(errors.is_empty());
}

#[test]
fn no_error_on_forward_mseq() {
    let check = MediaSequenceCheck;
    let errors = check.check(&prev_with(5, &["a.ts", "b.ts"]), &snap_with(7, &["b.ts", "c.ts"]), &ctx());
    assert!(errors.is_empty());
}

#[test]
fn detects_size_shrinkage_on_equal_mseq() {
    let check = PlaylistSizeCheck;
    let prev = prev_with(10, &["a.ts", "b.ts", "c.ts"]);
    let curr = snap_with(10, &["a.ts", "b.ts"]);
    let errors = check.check(&prev, &curr, &ctx());
    assert_eq!(errors.len(), 1);
    assert!(errors[0].details.contains("to be: 3. Got: 2"));
}

#[test]
fn no_error_on_equal_size() {
    let check = PlaylistSizeCheck;
    let errors = check.check(&prev_with(10, &["a.ts", "b.ts"]), &snap_with(10, &["a.ts", "b.ts"]), &ctx());
    assert!(errors.is_empty());
}

#[test]
fn no_error_on_size_growth() {
    let check = PlaylistSizeCheck;
    let errors = check.check(
        &prev_with(10, &["a.ts", "b.ts"]),
        &snap_with(10, &["a.ts", "b.ts", "c.ts"]),
        &ctx(),
    );
    assert!(errors.is_empty());
}

#[test]
fn playlist_size_skip_when_mseq_differs() {
    let check = PlaylistSizeCheck;
    let errors = check.check(&prev_with(10, &["a.ts", "b.ts", "c.ts"]), &snap_with(11, &["b.ts"]), &ctx());
    assert!(errors.is_empty());
}

#[test]
fn detects_content_change_on_equal_mseq() {
    let check = PlaylistContentCheck;
    let prev = prev_with(5, &["a.ts", "b.ts"]);
    let curr = snap_with(5, &["c.ts", "b.ts"]);
    let errors = check.check(&prev, &curr, &ctx());
    assert_eq!(errors.len(), 1);
    assert!(errors[0].details.contains("index(0)"));
    assert!(errors[0].details.contains("a.ts"));
}

#[test]
fn no_error_when_content_matches() {
    let check = PlaylistContentCheck;
    let errors = check.check(&prev_with(5, &["a.ts", "b.ts"]), &snap_with(5, &["a.ts", "b.ts"]), &ctx());
    assert!(errors.is_empty());
}

#[test]
fn ignores_query_params_in_comparison() {
    let check = PlaylistContentCheck;
    let errors = check.check(
        &prev_with(5, &["a.ts?token=abc", "b.ts?token=abc"]),
        &snap_with(5, &["a.ts?token=xyz", "b.ts?token=xyz"]),
        &ctx(),
    );
    assert!(errors.is_empty());
}

#[test]
fn playlist_content_skip_when_mseq_differs() {
    let check = PlaylistContentCheck;
    let errors = check.check(&prev_with(5, &["a.ts", "b.ts"]), &snap_with(6, &["c.ts", "d.ts"]), &ctx());
    assert!(errors.is_empty());
}

#[test]
fn detects_wrong_first_segment() {
    let check = SegmentContinuityCheck;
    let errors = check.check(&prev_with(0, &["a.ts", "b.ts"]), &snap_with(1, &["c.ts", "d.ts"]), &ctx());
    assert_eq!(errors.len(), 1);
    assert!(errors[0].details.contains("b.ts"));
    assert!(errors[0].details.contains("c.ts"));
}

#[test]
fn no_error_on_correct_sliding_window() {
    let check = SegmentContinuityCheck;
    let errors = check.check(&prev_with(0, &["a.ts", "b.ts"]), &snap_with(1, &["b.ts", "c.ts"]), &ctx());
    assert!(errors.is_empty());
}

#[test]
fn skip_when_mseq_jump_too_large() {
    let check = SegmentContinuityCheck;
    let errors = check.check(&prev_with(0, &["a.ts", "b.ts"]), &snap_with(5, &["x.ts", "y.ts"]), &ctx());
    assert!(errors.is_empty());
}

#[test]
fn skip_when_mseq_equal() {
    let check = SegmentContinuityCheck;
    let errors = check.check(&prev_with(5, &["a.ts", "b.ts"]), &snap_with(5, &["c.ts", "d.ts"]), &ctx());
    assert!(errors.is_empty());
}

fn seg_info(uri: &str, disc: bool) -> SegmentInfo {
    SegmentInfo { uri: uri.to_string(), discontinuity: disc }
}

fn seg_disc(uri: &str, disc: bool) -> SegmentSnapshot {
    SegmentSnapshot { discontinuity: disc, ..seg(uri) }
}

fn disc_prev(
    mseq: u64,
    dseq: u64,
    uris: &[&str],
    prev_segs: Vec<SegmentInfo>,
    next_is_disc: bool,
) -> VariantState {
    VariantState {
        media_sequence: mseq,
        discontinuity_sequence: dseq,
        next_is_discontinuity: next_is_disc,
        prev_segments: prev_segs,
        ..prev_with(mseq, uris)
    }
}

fn disc_snap(mseq: u64, dseq: u64, segs: Vec<SegmentSnapshot>) -> PlaylistSnapshot {
    let n = segs.len() as u64;
    PlaylistSnapshot {
        media_sequence: mseq,
        discontinuity_sequence: dseq,
        segments: segs,
        duration_ms: n * 10_000,
        ..snap_with(mseq, &[])
    }
}

#[test]
fn error_too_big_dseq_increment() {
    let check = DiscontinuityCheck;
    let prev = disc_prev(
        2,
        10,
        &["other_0_1.ts", "other_0_2.ts"],
        vec![seg_info("other_0_1.ts", true), seg_info("other_0_2.ts", false)],
        true,
    );
    let curr = disc_snap(3, 12, vec![seg_disc("other_0_2.ts", false), seg_disc("other_0_3.ts", false)]);
    let errors = check.check(&prev, &curr, &ctx());
    assert_eq!(errors.len(), 1);
    assert!(errors[0].details.contains("Wrong count increment in mseq(3) - Expected: 11. Got: 12"));
}

#[test]
fn error_no_dseq_increment_when_expected() {
    let check = DiscontinuityCheck;
    let prev = disc_prev(
        2,
        10,
        &["other_0_1.ts", "other_0_2.ts"],
        vec![seg_info("other_0_1.ts", true), seg_info("other_0_2.ts", false)],
        true,
    );
    let curr = disc_snap(3, 10, vec![seg_disc("other_0_2.ts", false), seg_disc("other_0_3.ts", false)]);
    let errors = check.check(&prev, &curr, &ctx());
    assert_eq!(errors.len(), 1);
    assert!(errors[0].details.contains("Wrong count increment in mseq(3) - Expected: 11. Got: 10"));
}

#[test]
fn error_early_increment_tag_at_top() {
    let check = DiscontinuityCheck;
    let prev = disc_prev(
        21,
        10,
        &["index_0_1.ts", "other_0_1.ts"],
        vec![seg_info("index_0_1.ts", false), seg_info("other_0_1.ts", true)],
        false,
    );
    let curr = disc_snap(22, 11, vec![seg_disc("other_0_1.ts", true), seg_disc("other_0_2.ts", false)]);
    let errors = check.check(&prev, &curr, &ctx());
    assert_eq!(errors.len(), 1);
    assert!(errors[0].details.contains("Early count increment in mseq(22) - Expected: 10. Got: 11"));
}

#[test]
fn error_early_increment_tag_under_top() {
    let check = DiscontinuityCheck;
    let prev = disc_prev(
        20,
        10,
        &["index_0_0.ts", "index_0_1.ts", "index_0_2.ts"],
        vec![
            seg_info("index_0_0.ts", false),
            seg_info("index_0_1.ts", false),
            seg_info("index_0_2.ts", false),
        ],
        false,
    );
    let curr = disc_snap(
        21,
        11,
        vec![seg_disc("index_0_1.ts", false), seg_disc("index_0_2.ts", false)],
    );
    let errors = check.check(&prev, &curr, &ctx());
    assert_eq!(errors.len(), 1);
    assert!(errors[0].details.contains("Early count increment in mseq(21) - Expected: 10. Got: 11"));
}

#[test]
fn passable_large_mseq_jump_skips_validation() {
    let check = DiscontinuityCheck;
    let prev = disc_prev(
        20,
        10,
        &["a.ts", "b.ts", "c.ts"],
        vec![seg_info("a.ts", false), seg_info("b.ts", true), seg_info("c.ts", false)],
        false,
    );
    let curr = disc_snap(123, 12, vec![seg_disc("x.ts", false), seg_disc("y.ts", false)]);
    let errors = check.check(&prev, &curr, &ctx());
    assert!(errors.is_empty());
}

#[test]
fn no_error_when_dseq_unchanged() {
    let check = DiscontinuityCheck;
    let prev = disc_prev(
        0,
        10,
        &["a.ts", "b.ts"],
        vec![seg_info("a.ts", false), seg_info("b.ts", false)],
        false,
    );
    let curr = disc_snap(1, 10, vec![seg_disc("b.ts", false), seg_disc("c.ts", false)]);
    let errors = check.check(&prev, &curr, &ctx());
    assert!(errors.is_empty());
}

fn scte_prev(mseq: u64, in_cue_out: bool) -> VariantState {
    VariantState { in_cue_out, ..prev_with(mseq, &["a.ts", "b.ts"]) }
}

fn scte_seg(uri: &str, cue_out: bool, cue_in: bool, cont: Option<&str>) -> SegmentSnapshot {
    SegmentSnapshot {
        cue_out,
        cue_in,
        cue_out_cont: cont.map(|s| s.to_string()),
        ..seg(uri)
    }
}

fn scte_snap(mseq: u64, segs: Vec<SegmentSnapshot>) -> PlaylistSnapshot {
    let n = segs.len() as u64;
    PlaylistSnapshot { media_sequence: mseq, segments: segs, duration_ms: n * 10_000, ..snap_with(mseq, &[]) }
}

#[test]
fn error_cue_out_disappeared_without_cue_in() {
    let check = Scte35Check;
    let errors = check.check(
        &scte_prev(10, true),
        &scte_snap(11, vec![scte_seg("a.ts", false, false, None)]),
        &ctx(),
    );
    assert_eq!(errors.len(), 1);
    assert!(errors[0].details.contains("disappeared without CUE-IN"));
}

#[test]
fn no_error_cue_out_followed_by_cue_in() {
    let check = Scte35Check;
    let errors = check.check(
        &scte_prev(10, true),
        &scte_snap(11, vec![scte_seg("a.ts", false, true, None)]),
        &ctx(),
    );
    assert!(errors.is_empty());
}

#[test]
fn error_cue_in_without_preceding_cue_out() {
    let check = Scte35Check;
    let errors = check.check(
        &scte_prev(10, false),
        &scte_snap(11, vec![scte_seg("a.ts", false, true, None)]),
        &ctx(),
    );
    assert_eq!(errors.len(), 1);
    assert!(errors[0].details.contains("CUE-IN found without preceding CUE-OUT"));
}

#[test]
fn no_error_normal_cue_out_cont() {
    let check = Scte35Check;
    let errors = check.check(
        &scte_prev(10, true),
        &scte_snap(11, vec![scte_seg("a.ts", false, false, Some("20.0/60.0"))]),
        &ctx(),
    );
    assert!(errors.is_empty());
}

#[test]
fn error_cue_out_cont_without_active_cue_out() {
    let check = Scte35Check;
    let errors = check.check(
        &scte_prev(10, false),
        &scte_snap(11, vec![scte_seg("a.ts", false, false, Some("20.0/60.0"))]),
        &ctx(),
    );
    assert_eq!(errors.len(), 1);
    assert!(errors[0].details.contains("CUE-OUT-CONT found without active CUE-OUT"));
}

#[test]
fn no_error_fresh_cue_out() {
    let check = Scte35Check;
    let errors = check.check(
        &scte_prev(10, false),
        &scte_snap(
            11,
            vec![scte_seg("a.ts", true, false, None), scte_seg("b.ts", false, false, None)],
        ),
        &ctx(),
    );
    assert!(errors.is_empty());
}

fn dur_seg(uri: &str, duration_ms: u64) -> SegmentSnapshot {
    SegmentSnapshot { duration_ms, ..seg(uri) }
}

fn dur_snap(target_ms: u64, segs: Vec<SegmentSnapshot>) -> PlaylistSnapshot {
    PlaylistSnapshot {
        media_sequence: 100,
        segments: segs,
        target_duration_ms: target_ms,
        ..snap_with(100, &[])
    }
}

#[test]
fn no_error_within_target() {
    let check = TargetDurationCheck::new(500);
    let snap = dur_snap(10_000, vec![dur_seg("a.ts", 9_500), dur_seg("b.ts", 10_000)]);
    let errors = check.check(&prev_with(100, &["a.ts"]), &snap, &ctx());
    assert!(errors.is_empty());
}

#[test]
fn no_error_within_tolerance() {
    let check = TargetDurationCheck::new(500);
    let snap = dur_snap(10_000, vec![dur_seg("a.ts", 10_300), dur_seg("b.ts", 10_500)]);
    let errors = check.check(&prev_with(100, &["a.ts"]), &snap, &ctx());
    assert!(errors.is_empty());
}

#[test]
fn error_when_exceeding_tolerance() {
    let check = TargetDurationCheck::new(500);
    let snap = dur_snap(10_000, vec![dur_seg("a.ts", 10_600)]);
    let errors = check.check(&prev_with(100, &["a.ts"]), &snap, &ctx());
    assert_eq!(errors.len(), 1);
    assert_eq!(errors[0].error_type, ErrorType::TargetDurationExceeded);
    assert!(errors[0].details.contains("10.600s"));
    assert!(errors[0].details.contains("index(0)"));
    assert!(errors[0].details.contains("mseq(100)"));
}

#[test]
fn multiple_violations_reported() {
    let check = TargetDurationCheck::new(500);
    let snap = dur_snap(
        10_000,
        vec![dur_seg("a.ts", 10_600), dur_seg("b.ts", 9_000), dur_seg("c.ts", 11_000)],
    );
    let errors = check.check(&prev_with(100, &["a.ts"]), &snap, &ctx());
    assert_eq!(errors.len(), 2);
    assert!(errors[0].details.contains("index(0)"));
    assert!(errors[1].details.contains("index(2)"));
}

fn gap_seg(uri: &str, gap: bool) -> SegmentSnapshot {
    SegmentSnapshot { gap, ..seg(uri) }
}

#[test]
fn no_error_without_gaps() {
    let check = GapCheck;
    let snap = dur_snap(10_000, vec![gap_seg("a.ts", false), gap_seg("b.ts", false)]);
    let errors = check.check(&prev_with(100, &["a.ts"]), &snap, &ctx());
    assert!(errors.is_empty());
}

#[test]
fn detects_single_gap() {
    let check = GapCheck;
    let snap = dur_snap(10_000, vec![gap_seg("a.ts", false), gap_seg("b.ts", true)]);
    let errors = check.check(&prev_with(100, &["a.ts"]), &snap, &ctx());
    assert_eq!(errors.len(), 1);
    assert_eq!(errors[0].error_type, ErrorType::GapDetected);
    assert!(errors[0].details.contains("index(1)"));
    assert!(errors[0].details.contains("mseq(101)"));
    assert!(errors[0].details.contains("b.ts"));
}

#[test]
fn detects_multiple_gaps() {
    let check = GapCheck;
    let snap = dur_snap(
        10_000,
        vec![gap_seg("a.ts", true), gap_seg("b.ts", false), gap_seg("c.ts", true)],
    );
    let errors = check.check(&prev_with(100, &["a.ts"]), &snap, &ctx());
    assert_eq!(errors.len(), 2);
    assert!(errors[0].details.contains("a.ts"));
    assert!(errors[1].details.contains("c.ts"));
}

fn window_prev(mseq: u64, window: usize) -> VariantState {
    let uris: Vec<String> = (0..window).map(|i| {
        let mut s = String::from("seg");
        s.push_str(&i.to_string());
        s.push_str(".ts");
        s
    }).collect();
    VariantState {
        segment_uris: uris,
        ..prev_with(mseq, &[])
    }
}

#[test]
fn no_error_on_normal_advance() {
    let check = MseqGapCheck::new(5);
    let errors = check.check(&window_prev(10, 5), &snap_with(11, &["a.ts"]), &ctx());
    assert!(errors.is_empty());
}

#[test]
fn no_error_within_window() {
    let check = MseqGapCheck::new(5);
    let errors = check.check(&window_prev(10, 5), &snap_with(15, &["a.ts"]), &ctx());
    assert!(errors.is_empty());
}

#[test]
fn no_error_on_regression() {
    let check = MseqGapCheck::new(5);
    let errors = check.check(&window_prev(10, 5), &snap_with(8, &["a.ts"]), &ctx());
    assert!(errors.is_empty());
}

#[test]
fn error_on_large_jump() {
    let check = MseqGapCheck::new(5);
    let errors = check.check(&window_prev(10, 5), &snap_with(60, &["a.ts"]), &ctx());
    assert_eq!(errors.len(), 1);
    assert_eq!(errors[0].error_type, ErrorType::MediaSequenceGap);
    assert!(errors[0].details.contains("jumped forward by 50"));
    assert!(errors[0].details.contains("from 10 to 60"));
    assert!(errors[0].details.contains("window of 5 segments"));
}

#[test]
fn mseq_gap_no_error_below_threshold() {
    let check = MseqGapCheck::new(50);
    let errors = check.check(&window_prev(10, 5), &snap_with(30, &["a.ts"]), &ctx());
    assert!(errors.is_empty());
}

fn typed_snap(mseq: u64, uris: &[&str], pt: Option<PlaylistType>) -> PlaylistSnapshot {
    PlaylistSnapshot { playlist_type: pt, ..snap_with(mseq, uris) }
}

#[test]
fn no_error_without_playlist_type() {
    let check = PlaylistTypeCheck;
    let errors = check.check(&window_prev(100, 3), &typed_snap(101, &["a.ts"], None), &ctx());
    assert!(errors.is_empty());
}

#[test]
fn event_allows_append() {
    let check = PlaylistTypeCheck;
    let errors = check.check(
        &window_prev(100, 3),
        &typed_snap(100, &["a.ts", "b.ts", "c.ts", "d.ts"], Some(PlaylistType::Event)),
        &ctx(),
    );
    assert!(errors.is_empty());
}

#[test]
fn event_rejects_removal() {
    let check = PlaylistTypeCheck;
    let errors = check.check(
        &window_prev(100, 3),
        &typed_snap(101, &["b.ts", "c.ts"], Some(PlaylistType::Event)),
        &ctx(),
    );
    assert_eq!(errors.len(), 1);
    assert_eq!(errors[0].error_type, ErrorType::PlaylistTypeViolation);
    assert!(errors[0].details.contains("EVENT playlist removed segments"));
    assert!(errors[0].details.contains("from 100 to 101"));
}

#[test]
fn vod_rejects_any_change() {
    let check = PlaylistTypeCheck;
    let errors = check.check(
        &window_prev(100, 3),
        &typed_snap(100, &["a.ts", "b.ts"], Some(PlaylistType::Vod)),
        &ctx(),
    );
    assert_eq!(errors.len(), 1);
    assert_eq!(errors[0].error_type, ErrorType::PlaylistTypeViolation);
    assert!(errors[0].details.contains("VOD playlist changed"));
    assert!(errors[0].details.contains("segments: 3 -> 2"));
}

#[test]
fn vod_no_error_when_unchanged() {
    let check = PlaylistTypeCheck;
    let errors = check.check(
        &window_prev(100, 3),
        &typed_snap(100, &["a.ts", "b.ts", "c.ts"], Some(PlaylistType::Vod)),
        &ctx(),
    );
    assert!(errors.is_empty());
}

#[test]
fn no_error_normal_durations() {
    let check = SegmentDurationAnomalyCheck::new(50);
    let snap = dur_snap(
        10_000,
        vec![dur_seg("a.ts", 9_500), dur_seg("b.ts", 10_000), dur_seg("c.ts", 9_800)],
    );
    let errors = check.check(&prev_with(100, &["a.ts"]), &snap, &ctx());
    assert!(errors.is_empty());
}

#[test]
fn detects_short_segment() {
    let check = SegmentDurationAnomalyCheck::new(50);
    let snap = dur_snap(
        10_000,
        vec![dur_seg("a.ts", 10_000), dur_seg("b.ts", 2_000), dur_seg("c.ts", 10_000)],
    );
    let errors = check.check(&prev_with(100, &["a.ts"]), &snap, &ctx());
    assert_eq!(errors.len(), 1);
    assert_eq!(errors[0].error_type, ErrorType::SegmentDurationAnomaly);
    assert!(errors[0].details.contains("2.000s"));
    assert!(errors[0].details.contains("index(1)"));
    assert!(errors[0].details.contains("mseq(101)"));
}

#[test]
fn ignores_short_last_segment() {
    let check = SegmentDurationAnomalyCheck::new(50);
    let snap = dur_snap(
        10_000,
        vec![dur_seg("a.ts", 10_000), dur_seg("b.ts", 10_000), dur_seg("c.ts", 2_000)],
    );
    let errors = check.check(&prev_with(100, &["a.ts"]), &snap, &ctx());
    assert!(errors.is_empty());
}

#[test]
fn skips_single_segment_playlist() {
    let check = SegmentDurationAnomalyCheck::new(50);
    let snap = dur_snap(10_000, vec![dur_seg("a.ts", 2_000)]);
    let errors = check.check(&prev_with(100, &["a.ts"]), &snap, &ctx());
    assert!(errors.is_empty());
}

fn ver_prev(version: Option<u16>) -> VariantState {
    VariantState { media_sequence: 100, version, ..prev_with(100, &["a.ts"]) }
}

fn ver_snap(version: Option<u16>) -> PlaylistSnapshot {
    PlaylistSnapshot { version, ..snap_with(100, &["a.ts"]) }
}

#[test]
fn no_error_same_version() {
    let check = VersionCheck;
    assert!(check.check(&ver_prev(Some(3)), &ver_snap(Some(3)), &ctx()).is_empty());
}

#[test]
fn error_on_version_change() {
    let check = VersionCheck;
    let errors = check.check(&ver_prev(Some(3)), &ver_snap(Some(7)), &ctx());
    assert_eq!(errors.len(), 1);
    assert_eq!(errors[0].error_type, ErrorType::VersionViolation);
    assert!(errors[0].details.contains("from 3 to 7"));
    assert!(errors[0].details.contains("mseq(100)"));
}

#[test]
fn no_error_when_prev_missing() {
    let check = VersionCheck;
    assert!(check.check(&ver_prev(None), &ver_snap(Some(3)), &ctx()).is_empty());
}

#[test]
fn no_error_when_curr_missing() {
    let check = VersionCheck;
    assert!(check.check(&ver_prev(Some(3)), &ver_snap(None), &ctx()).is_empty());
}

#[test]
fn no_error_when_both_missing() {
    let check = VersionCheck;
    assert!(check.check(&ver_prev(None), &ver_snap(None), &ctx()).is_empty());
}

fn pdt_seg(uri: &str, pdt: Option<i64>, disc: bool) -> SegmentSnapshot {
    SegmentSnapshot { program_date_time_ms: pdt, discontinuity: disc, ..seg(uri) }
}

#[test]
fn no_error_correct_progression() {
    let check = ProgramDateTimeCheck;
    let t0: i64 = 1_700_000_000_000;
    let snap = scte_snap(100, vec![
        pdt_seg("a.ts", Some(t0), false),
        pdt_seg("b.ts", Some(t0 + 10_000), false),
        pdt_seg("c.ts", Some(t0 + 20_000), false),
    ]);
    assert!(check.check(&prev_with(100, &["a.ts"]), &snap, &ctx()).is_empty());
}

#[test]
fn detects_pdt_jump() {
    let check = ProgramDateTimeCheck;
    let t0: i64 = 1_700_000_000_000;
    let snap = scte_snap(100, vec![
        pdt_seg("a.ts", Some(t0), false),
        pdt_seg("b.ts", Some(t0 + 50_000), false),
    ]);
    let errors = check.check(&prev_with(100, &["a.ts"]), &snap, &ctx());
    assert_eq!(errors.len(), 1);
    assert_eq!(errors[0].error_type, ErrorType::ProgramDateTimeJump);
    assert!(errors[0].details.contains("index(1)"));
    assert!(errors[0].details.contains("mseq(101)"));
    assert!(errors[0].details.contains("expected +10000ms"));
    assert!(errors[0].details.contains("actual diff 50000ms"));
}

#[test]
fn skips_discontinuity_boundary() {
    let check = ProgramDateTimeCheck;
    let t0: i64 = 1_700_000_000_000;
    let snap = scte_snap(100, vec![
        pdt_seg("a.ts", Some(t0), false),
        pdt_seg("b.ts", Some(t0 + 500_000), true),
    ]);
    assert!(check.check(&prev_with(100, &["a.ts"]), &snap, &ctx()).is_empty());
}

#[test]
fn skips_missing_pdt() {
    let check = ProgramDateTimeCheck;
    let t0: i64 = 1_700_000_000_000;
    let snap = scte_snap(100, vec![
        pdt_seg("a.ts", Some(t0), false),
        pdt_seg("b.ts", None, false),
        pdt_seg("c.ts", Some(t0 + 20_000), false),
    ]);
    assert!(check.check(&prev_with(100, &["a.ts"]), &snap, &ctx()).is_empty());
}

#[test]
fn allows_within_tolerance() {
    let check = ProgramDateTimeCheck;
    let t0: i64 = 1_700_000_000_000;
    let snap = scte_snap(100, vec![
        pdt_seg("a.ts", Some(t0), false),
        pdt_seg("b.ts", Some(t0 + 10_800), false),
    ]);
    assert!(check.check(&prev_with(100, &["a.ts"]), &snap, &ctx()).is_empty());
}
