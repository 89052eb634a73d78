use hls_monitor::config::MonitorConfig;
use hls_monitor::engine::{build_playlist_url, get_base_url, Monitor};
use hls_monitor::event::EventKind;
use hls_monitor::state::{MonitorState, StreamItem};

#[test]
fn get_base_url_extracts_directory() {
    assert_eq!(
        get_base_url("https://example.com/path/to/master.m3u8"),
        "https://example.com/path/to/"
    );
}

#[test]
fn get_base_url_handles_root() {
    assert_eq!(
        get_base_url("https://example.com/master.m3u8"),
        "https://example.com/"
    );
}

#[test]
fn build_playlist_url_absolute() {
    assert_eq!(
        build_playlist_url("https://a.com/", "https://b.com/foo.m3u8"),
        "https://b.com/foo.m3u8"
    );
}

#[test]
fn build_playlist_url_relative() {
    assert_eq!(
        build_playlist_url("https://a.com/path/", "level_0.m3u8"),
        "https://a.com/path/level_0.m3u8"
    );
}

#[test]
fn valid_state_transitions() {
    assert!(MonitorState::Idle.can_transition_to(MonitorState::Active));
    assert!(MonitorState::Active.can_transition_to(MonitorState::Stopping));
    assert!(MonitorState::Stopping.can_transition_to(MonitorState::Stopped));
    assert!(MonitorState::Stopped.can_transition_to(MonitorState::Active));
}

#[test]
fn invalid_state_transitions() {
    assert!(!MonitorState::Idle.can_transition_to(MonitorState::Stopping));
    assert!(!MonitorState::Idle.can_transition_to(MonitorState::Stopped));
    assert!(!MonitorState::Active.can_transition_to(MonitorState::Idle));
    assert!(!MonitorState::Active.can_transition_to(MonitorState::Active));
    assert!(!MonitorState::Stopped.can_transition_to(MonitorState::Stopping));
    assert!(!MonitorState::Stopping.can_transition_to(MonitorState::Active));
}

#[test]
fn event_display() {
    assert_eq!(EventKind::CueOutStarted.label(), "CUE-OUT");
    assert_eq!(EventKind::CueInReturned.label(), "CUE-IN");
    assert_eq!(EventKind::DiscontinuityChanged.label(), "DISC");
}

#[test]
fn test_monitor_unique_ids_and_config() {
    let config1 = MonitorConfig::default().with_stale_limit(8000);
    let config2 = MonitorConfig::default();

    let m1 = Monitor::new(vec![], config1, 0);
    let m2 = Monitor::new(vec![], config2, 0);

    assert_ne!(m1.id(), m2.id());
    assert_eq!(config1.poll_interval_ms, 4000);
    assert_eq!(config2.poll_interval_ms, 3000);
    assert_eq!(config1.stale_limit_ms, 8000);
    assert_eq!(config2.stale_limit_ms, 6000);
}

#[test]
fn start_is_idempotent_and_stop_on_idle_is_a_no_op() {
    let mut m = Monitor::new(vec![], MonitorConfig::default(), 0);
    assert_eq!(m.state(), MonitorState::Idle);
    m.stop();
    assert_eq!(m.state(), MonitorState::Idle);
    assert!(m.start().is_ok());
    assert_eq!(m.state(), MonitorState::Active);
    assert!(m.start().is_ok());
    assert_eq!(m.state(), MonitorState::Active);
    m.stop();
    assert_eq!(m.state(), MonitorState::Stopping);
    m.stop();
    assert_eq!(m.state(), MonitorState::Stopping);
    assert!(!m.poll_cycle_begin());
    assert_eq!(m.state(), MonitorState::Stopped);
    assert!(m.start().is_ok());
    assert_eq!(m.state(), MonitorState::Active);
}

#[test]
fn clear_errors_is_idempotent() {
    let stream = StreamItem {
        id: "s1".to_string(),
        url: "https://mock/master.m3u8".to_string(),
    };
    let mut m = Monitor::new(vec![stream], MonitorConfig::default(), 0);
    m.clear_errors();
    assert_eq!(m.get_errors().len(), 0);
    m.clear_errors();
    assert_eq!(m.get_errors().len(), 0);
}

#[test]
fn add_and_remove_streams() {
    let mut m = Monitor::new(vec![], MonitorConfig::default(), 0);
    m.add_streams(vec![StreamItem {
        id: "a".to_string(),
        url: "https://x/1/master.m3u8".to_string(),
    }]);
    assert_eq!(m.streams().len(), 1);
    assert!(m.remove_stream("missing").is_err());
    assert!(m.remove_stream("a").is_ok());
    assert_eq!(m.streams().len(), 0);
}
