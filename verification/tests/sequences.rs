use std::cell::Cell;
use std::collections::HashMap;

use hls_monitor::config::MonitorConfig;
use hls_monitor::engine::Monitor;
use hls_monitor::error::{ErrorType, MonitorError};
use hls_monitor::event::{EventKind, MonitorEvent};
use hls_monitor::loader::{LoadError, ManifestLoader};
use hls_monitor::state::StreamItem;

const MASTER_URL: &str = "https://mock.mock.com/channels/1xx/master.m3u8";
const LEVEL0_URL: &str = "https://mock.mock.com/channels/1xx/level_0.m3u8";
const LEVEL1_URL: &str = "https://mock.mock.com/channels/1xx/level_1.m3u8";

const MASTER_PLAYLIST: &str = "\
#EXTM3U
#EXT-X-VERSION:3
#EXT-X-STREAM-INF:BANDWIDTH=1212000,RESOLUTION=1280x720,FRAME-RATE=30.000
level_0.m3u8
#EXT-X-STREAM-INF:BANDWIDTH=2424000,RESOLUTION=1280x720,FRAME-RATE=30.000
level_1.m3u8
";

struct Seg {
    uri: &'static str,
    disc: bool,
    cue_out: Option<&'static str>,
    cue_in: bool,
}

fn s(uri: &'static str) -> Seg {
    Seg { uri, disc: false, cue_out: None, cue_in: false }
}

fn ds(uri: &'static str) -> Seg {
    Seg { uri, disc: true, cue_out: None, cue_in: false }
}

fn ds_co(uri: &'static str, dur: &'static str) -> Seg {
    Seg { uri, disc: true, cue_out: Some(dur), cue_in: false }
}

fn ds_ci(uri: &'static str) -> Seg {
    Seg { uri, disc: true, cue_out: None, cue_in: true }
}

fn mp(mseq: u64, dseq: Option<u64>, segs: &[Seg]) -> String {
    let mut out = format!(
        "#EXTM3U\n#EXT-X-VERSION:3\n#EXT-X-TARGETDURATION:10\n#EXT-X-MEDIA-SEQUENCE:{}\n",
        mseq
    );
    if let Some(d) = dseq {
        out.push_str(&format!("#EXT-X-DISCONTINUITY-SEQUENCE:{}\n", d));
    }
    for seg in segs {
        if seg.disc {
            out.push_str("#EXT-X-DISCONTINUITY\n");
        }
        if let Some(dur) = seg.cue_out {
            out.push_str(&format!("#EXT-X-CUE-OUT:{}\n", dur));
        }
        if seg.cue_in {
            out.push_str("#EXT-X-CUE-IN\n");
        }
        out.push_str(&format!("#EXTINF:10.000,\n{}\n", seg.uri));
    }
    out
}

struct SequenceLoader {
    step: Cell<usize>,
    responses: HashMap<String, Vec<String>>,
}

impl ManifestLoader for SequenceLoader {
    fn load(&self, uri: &str) -> Result<String, LoadError> {
        let responses = self
            .responses
            .get(uri)
            .unwrap_or_else(|| panic!("SequenceLoader: unexpected URL: {}", uri));
        let step = self.step.get();
        let idx = step.min(responses.len() - 1);
        Ok(responses[idx].clone())
    }
}

fn mock_monitor(
    level0_steps: Vec<String>,
    level1_steps: Vec<String>,
    scte35: bool,
) -> (Monitor, SequenceLoader) {
    let mut responses = HashMap::new();
    responses.insert(MASTER_URL.to_string(), vec![MASTER_PLAYLIST.to_string()]);
    responses.insert(LEVEL0_URL.to_string(), level0_steps);
    responses.insert(LEVEL1_URL.to_string(), level1_steps);
    let loader = SequenceLoader { step: Cell::new(0), responses };

    let config = MonitorConfig::default().with_stale_limit(8000).with_scte35(scte35);
    let stream = StreamItem {
        id: "stream_1".to_string(),
        url: MASTER_URL.to_string(),
    };
    (Monitor::new(vec![stream], config, 0), loader)
}

fn run_sequence(
    level0_steps: Vec<String>,
    level1_steps: Vec<String>,
    num_polls: usize,
) -> (Vec<MonitorError>, Vec<MonitorEvent>) {
    let (mut monitor, loader) = mock_monitor(level0_steps, level1_steps, false);
    for poll in 0..num_polls {
        loader.step.set(poll);
        monitor.poll_once_with(&loader, poll as u64 * 1000);
    }
    (monitor.get_errors(), monitor.get_events())
}

fn run_sequence_scte35(
    level0_steps: Vec<String>,
    level1_steps: Vec<String>,
    num_polls: usize,
) -> (Vec<MonitorError>, Vec<MonitorEvent>) {
    let (mut monitor, loader) = mock_monitor(level0_steps, level1_steps, true);
    for poll in 0..num_polls {
        loader.step.set(poll);
        monitor.poll_once_with(&loader, poll as u64 * 1000);
    }
    (monitor.get_errors(), monitor.get_events())
}

fn assert_any_error_contains(errors: &[MonitorError], needle: &str) {
    assert!(
        errors.iter().any(|e| e.details.contains(needle)),
        "Expected at least one error containing '{}', but got: {:?}",
        needle,
        errors.iter().map(|e| e.details.clone()).collect::<Vec<_>>()
    );
}

#[test]
fn test_segment_continuity_wrong_first_segment() {
    let level0 = vec![
        mp(0, None, &[s("index_0_0.ts"), s("index_0_1.ts")]),
        mp(1, None, &[s("index_0_1.ts"), s("index_0_2.ts")]),
        mp(2, None, &[s("index_0_1.ts"), s("index_0_2.ts")]),
        mp(3, None, &[s("index_0_2.ts"), s("index_0_3.ts")]),
    ];
    let level1 = vec![
        mp(0, None, &[s("index_1_0.ts"), s("index_1_1.ts")]),
        mp(1, None, &[s("index_1_1.ts"), s("index_1_2.ts")]),
        mp(2, None, &[s("index_1_1.ts"), s("index_1_2.ts")]),
        mp(3, None, &[s("index_1_2.ts"), s("index_1_3.ts")]),
    ];

    let (errors, _) = run_sequence(level0, level1, 4);
    assert!(!errors.is_empty());
    assert_any_error_contains(
        &errors,
        "Expected first item-uri in mseq(2) to be: 'index_0_2.ts'. Got: 'index_0_1.ts'",
    );
}

#[test]
fn test_playlist_content_wrong_segment_on_same_mseq() {
    let level0 = vec![
        mp(0, None, &[s("index_0_0.ts"), s("index_0_1.ts")]),
        mp(1, None, &[s("index_0_1.ts"), s("index_0_2.ts")]),
        mp(2, None, &[s("index_0_2.ts"), s("index_0_3.ts")]),
        mp(2, None, &[s("index_0_3.ts"), s("index_0_4.ts")]),
    ];
    let level1 = vec![
        mp(0, None, &[s("index_1_0.ts"), s("index_1_1.ts")]),
        mp(1, None, &[s("index_1_1.ts"), s("index_1_2.ts")]),
        mp(2, None, &[s("index_1_2.ts"), s("index_1_3.ts")]),
        mp(2, None, &[s("index_1_3.ts"), s("index_1_4.ts")]),
    ];

    let (errors, _) = run_sequence(level0, level1, 4);
    assert!(!errors.is_empty());
    assert_any_error_contains(
        &errors,
        "Expected playlist item-uri in mseq(2) at index(0) to be: 'index_0_2.ts'. Got: 'index_0_3.ts'",
    );
}

#[test]
fn test_playlist_size_shrinkage() {
    let level0 = vec![
        mp(12, None, &[s("index_0_2.ts"), s("index_0_3.ts"), s("index_0_4.ts")]),
        mp(13, None, &[s("index_0_3.ts"), s("index_0_4.ts"), s("index_0_5.ts"), s("index_0_6.ts"), s("index_0_7.ts")]),
        mp(13, None, &[s("index_0_3.ts"), s("index_0_4.ts"), s("index_0_5.ts"), s("index_0_6.ts")]),
    ];
    let level1 = vec![
        mp(12, None, &[s("index_1_2.ts"), s("index_1_3.ts"), s("index_1_4.ts")]),
        mp(13, None, &[s("index_1_3.ts"), s("index_1_4.ts"), s("index_1_5.ts"), s("index_1_6.ts"), s("index_1_7.ts")]),
        mp(13, None, &[s("index_1_3.ts"), s("index_1_4.ts"), s("index_1_5.ts"), s("index_1_6.ts")]),
    ];

    let (errors, _) = run_sequence(level0, level1, 3);
    assert!(!errors.is_empty());
    assert_any_error_contains(&errors, "Expected playlist size in mseq(13) to be: 5. Got: 4");
}

#[test]
fn test_media_sequence_regression() {
    let level0 = vec![
        mp(0, None, &[s("index_0_0.ts"), s("index_0_1.ts")]),
        mp(1, None, &[s("index_0_1.ts"), s("index_0_2.ts")]),
        mp(3, None, &[s("index_0_3.ts"), s("index_0_4.ts")]),
        mp(2, None, &[s("index_0_2.ts"), s("index_0_3.ts")]),
    ];
    let level1 = vec![
        mp(0, None, &[s("index_1_0.ts"), s("index_1_1.ts")]),
        mp(1, None, &[s("index_1_1.ts"), s("index_1_2.ts")]),
        mp(3, None, &[s("index_1_3.ts"), s("index_1_4.ts")]),
        mp(2, None, &[s("index_1_2.ts"), s("index_1_3.ts")]),
    ];

    let (errors, _) = run_sequence(level0, level1, 4);
    assert!(!errors.is_empty());
    assert_any_error_contains(&errors, "Expected mediaSequence >= 3. Got: 2");
}

#[test]
fn test_discontinuity_too_big_increment() {
    let level0 = vec![
        mp(0, Some(10), &[s("index_0_0.ts"), s("index_0_1.ts")]),
        mp(1, Some(10), &[s("index_0_1.ts"), ds("other_0_1.ts")]),
        mp(2, Some(10), &[ds("other_0_1.ts"), s("other_0_2.ts")]),
        mp(3, Some(12), &[s("other_0_2.ts"), s("other_0_3.ts")]),
    ];
    let level1 = vec![
        mp(0, Some(10), &[s("index_1_0.ts"), s("index_1_1.ts")]),
        mp(1, Some(10), &[s("index_1_1.ts"), ds("other_1_1.ts")]),
        mp(2, Some(10), &[ds("other_1_1.ts"), s("other_1_2.ts")]),
        mp(3, Some(12), &[s("other_1_2.ts"), s("other_1_3.ts")]),
    ];

    let (errors, _) = run_sequence(level0, level1, 4);
    assert!(!errors.is_empty());
    assert_any_error_contains(&errors, "Wrong count increment in mseq(3) - Expected: 11. Got: 12");
}

#[test]
fn test_discontinuity_passable_multi_disc() {
    let level0 = vec![
        mp(19, Some(10), &[
            s("index_0_00.ts"), s("index_0_0.ts"),
            ds("next_0_0.ts"), s("next_0_1.ts"),
            ds("other_0_0.ts"),
        ]),
        mp(20, Some(10), &[
            s("index_0_0.ts"),
            ds("next_0_0.ts"), s("next_0_1.ts"),
            ds("other_0_0.ts"), s("other_0_1.ts"),
        ]),
        mp(23, Some(11), &[
            ds("other_0_0.ts"), s("other_0_1.ts"), s("other_0_2.ts"),
            s("other_0_3.ts"), s("other_0_4.ts"),
        ]),
    ];
    let level1 = vec![
        mp(19, Some(10), &[
            s("index_1_00.ts"), s("index_1_0.ts"),
            ds("next_1_0.ts"), s("next_1_1.ts"),
            ds("other_1_0.ts"),
        ]),
        mp(20, Some(10), &[
            s("index_1_0.ts"),
            ds("next_1_0.ts"), s("next_1_1.ts"),
            ds("other_1_0.ts"), s("other_1_1.ts"),
        ]),
        mp(23, Some(11), &[
            ds("other_1_0.ts"), s("other_1_1.ts"), s("other_1_2.ts"),
            s("other_1_3.ts"), s("other_1_4.ts"),
        ]),
    ];

    let (errors, _) = run_sequence(level0, level1, 3);
    assert!(
        errors.is_empty(),
        "Expected no errors, got: {:?}",
        errors.iter().map(|e| e.details.clone()).collect::<Vec<_>>()
    );
}

fn count_events(events: &[MonitorEvent], kind: EventKind) -> usize {
    events.iter().filter(|e| e.kind == kind).count()
}

#[test]
fn test_events_manifest_updated() {
    let level0 = vec![
        mp(0, None, &[s("a0.ts"), s("a1.ts")]),
        mp(1, None, &[s("a1.ts"), s("a2.ts")]),
        mp(2, None, &[s("a2.ts"), s("a3.ts")]),
    ];
    let level1 = vec![
        mp(0, None, &[s("b0.ts"), s("b1.ts")]),
        mp(1, None, &[s("b1.ts"), s("b2.ts")]),
        mp(2, None, &[s("b2.ts"), s("b3.ts")]),
    ];

    let (errors, events) = run_sequence(level0, level1, 3);
    assert!(errors.is_empty());
    let update_count = count_events(&events, EventKind::ManifestUpdated);
    assert_eq!(update_count, 4);
}

#[test]
fn test_events_cue_out_and_cue_in() {
    let level0 = vec![
        mp(0, None, &[s("a0.ts"), s("a1.ts")]),
        mp(1, None, &[s("a1.ts"), ds_co("ad_0.ts", "30")]),
        mp(2, None, &[ds_co("ad_0.ts", "30"), s("ad_1.ts")]),
        mp(3, None, &[s("ad_1.ts"), ds_ci("a2.ts")]),
    ];
    let level1 = vec![
        mp(0, None, &[s("b0.ts"), s("b1.ts")]),
        mp(1, None, &[s("b1.ts"), ds_co("bad_0.ts", "30")]),
        mp(2, None, &[ds_co("bad_0.ts", "30"), s("bad_1.ts")]),
        mp(3, None, &[s("bad_1.ts"), ds_ci("b2.ts")]),
    ];

    let (errors, events) = run_sequence_scte35(level0, level1, 4);
    let scte_errors: Vec<_> = errors
        .iter()
        .filter(|e| e.error_type == ErrorType::Scte35Violation)
        .collect();
    assert!(scte_errors.is_empty(), "unexpected SCTE-35 errors: {:?}",
        scte_errors.iter().map(|e| e.details.clone()).collect::<Vec<_>>());

    assert_eq!(count_events(&events, EventKind::CueOutStarted), 2);
    assert_eq!(count_events(&events, EventKind::CueInReturned), 2);
}

#[test]
fn test_stale_then_recovered() {
    let level0 = vec![
        mp(0, None, &[s("a0.ts"), s("a1.ts")]),
        mp(0, None, &[s("a0.ts"), s("a1.ts")]),
        mp(1, None, &[s("a1.ts"), s("a2.ts")]),
    ];
    let level1 = vec![
        mp(0, None, &[s("b0.ts"), s("b1.ts")]),
        mp(0, None, &[s("b0.ts"), s("b1.ts")]),
        mp(1, None, &[s("b1.ts"), s("b2.ts")]),
    ];
    let (mut monitor, loader) = mock_monitor(level0, level1, false);

    loader.step.set(0);
    monitor.poll_once_with(&loader, 0);
    assert!(monitor.get_errors().is_empty());

    // frozen content past the 8000 ms stale limit
    loader.step.set(1);
    monitor.poll_once_with(&loader, 9_000);
    let errors = monitor.get_errors();
    assert!(errors.iter().any(|e| e.error_type == ErrorType::StaleManifest));

    // content advances again: exactly one recovery event
    loader.step.set(2);
    monitor.poll_once_with(&loader, 10_000);
    let events = monitor.get_events();
    assert_eq!(count_events(&events, EventKind::StaleRecovered), 1);
    let stale_count = monitor
        .get_errors()
        .iter()
        .filter(|e| e.error_type == ErrorType::StaleManifest)
        .count();
    assert_eq!(stale_count, 1);
}

#[test]
fn test_variant_failures_reset_on_success() {
    // first poll: level_1 is missing; second poll: it is back
    let mut responses = HashMap::new();
    responses.insert(MASTER_URL.to_string(), vec![MASTER_PLAYLIST.to_string()]);
    responses.insert(
        LEVEL0_URL.to_string(),
        vec![
            mp(0, None, &[s("a0.ts"), s("a1.ts")]),
            mp(1, None, &[s("a1.ts"), s("a2.ts")]),
        ],
    );
    responses.insert(
        LEVEL1_URL.to_string(),
        vec![
            "not a playlist".to_string(),
            mp(1, None, &[s("b1.ts"), s("b2.ts")]),
        ],
    );
    let loader = SequenceLoader { step: Cell::new(0), responses };
    let config = MonitorConfig::default().with_stale_limit(8000);
    let stream = StreamItem { id: "stream_1".to_string(), url: MASTER_URL.to_string() };
    let mut monitor = Monitor::new(vec![stream], config, 0);

    loader.step.set(0);
    monitor.poll_once_with(&loader, 0);
    let status = monitor.get_stream_status();
    assert_eq!(status.len(), 1);
    let bad = status[0]
        .variants
        .iter()
        .find(|v| v.variant_key == "2424000")
        .unwrap();
    assert_eq!(bad.consecutive_failures, 1);

    loader.step.set(1);
    monitor.poll_once_with(&loader, 1_000);
    let status = monitor.get_stream_status();
    let good = status[0]
        .variants
        .iter()
        .find(|v| v.variant_key == "2424000")
        .unwrap();
    assert_eq!(good.consecutive_failures, 0);
    assert!(monitor.manifest_error_count() >= 1);
}

#[test]
fn test_stream_status() {
    let level0 = vec![mp(10, Some(5), &[s("a0.ts"), s("a1.ts"), s("a2.ts")])];
    let level1 = vec![mp(10, Some(5), &[s("b0.ts"), s("b1.ts"), s("b2.ts")])];
    let (mut monitor, loader) = mock_monitor(level0, level1, false);
    loader.step.set(0);
    monitor.poll_once_with(&loader, 0);

    let statuses = monitor.get_stream_status();
    assert_eq!(statuses.len(), 1);
    let ss = &statuses[0];
    assert_eq!(ss.stream_id, "stream_1");
    assert_eq!(ss.variants.len(), 2);
    for v in &ss.variants {
        assert_eq!(v.media_sequence, 10);
        assert_eq!(v.discontinuity_sequence, 5);
        assert_eq!(v.segment_count, 3);
        assert!(!v.in_cue_out);
    }
}

#[test]
fn test_quiet_poll_produces_no_errors() {
    // unchanged, clean playlists across polls: nothing is raised
    let level0 = vec![mp(5, None, &[s("a0.ts"), s("a1.ts")])];
    let level1 = vec![mp(5, None, &[s("b0.ts"), s("b1.ts")])];
    let (mut monitor, loader) = mock_monitor(level0, level1, false);
    monitor.poll_once_with(&loader, 0);
    monitor.poll_once_with(&loader, 1_000);
    monitor.poll_once_with(&loader, 2_000);
    assert!(monitor.get_errors().is_empty());
}
