use hls_monitor::error::{ErrorType, MonitorError};
use hls_monitor::event::{EventKind, MonitorEvent};
use hls_monitor::webhook::{signature_header_value, Notification, PayloadData, WebhookConfig,
    WebhookPayload};

fn config(events: Vec<&str>) -> WebhookConfig {
    WebhookConfig {
        url: "https://example.com".to_string(),
        events: events.iter().map(|s| s.to_string()).collect(),
        timeout_ms: 5000,
        max_retries: 2,
        secret: None,
    }
}

#[test]
fn webhook_config_accepts_all_when_empty() {
    let wh = config(vec![]);
    assert!(wh.accepts("error"));
    assert!(wh.accepts("cue_out_started"));
    assert!(wh.accepts("manifest_updated"));
}

#[test]
fn webhook_config_filters_by_event_type() {
    let wh = config(vec!["error", "cue_out_started"]);
    assert!(wh.accepts("error"));
    assert!(wh.accepts("cue_out_started"));
    assert!(!wh.accepts("manifest_updated"));
    assert!(!wh.accepts("stale_recovered"));
}

#[test]
fn notification_type_for_error() {
    let n = Notification::Error {
        monitor_id: "m1".to_string(),
        error: MonitorError::new(
            ErrorType::StaleManifest,
            "VIDEO",
            "1200000",
            "stale",
            "https://example.com/",
            "s1",
            0,
        ),
    };
    assert_eq!(n.notification_type(), "error");
}

#[test]
fn notification_type_for_events() {
    let make = |kind: EventKind| Notification::Event {
        monitor_id: "m1".to_string(),
        event: MonitorEvent::new(kind, "VIDEO", "1200000", "detail", "s1", 0),
    };
    assert_eq!(make(EventKind::CueOutStarted).notification_type(), "cue_out_started");
    assert_eq!(make(EventKind::CueInReturned).notification_type(), "cue_in_returned");
    assert_eq!(make(EventKind::ManifestUpdated).notification_type(), "manifest_updated");
    assert_eq!(make(EventKind::StaleRecovered).notification_type(), "stale_recovered");
}

#[test]
fn payload_from_error_notification() {
    let n = Notification::Error {
        monitor_id: "m1".to_string(),
        error: MonitorError::new(
            ErrorType::StaleManifest,
            "VIDEO",
            "1200000",
            "Manifest stale for 8000ms",
            "https://example.com/",
            "stream_1",
            0,
        ),
    };
    let payload = WebhookPayload::from_notification(&n);
    assert_eq!(payload.version, 1);
    assert_eq!(payload.notification_type, "error");
    assert_eq!(payload.monitor_id, "m1");
    assert_eq!(payload.stream_id, "stream_1");
    match payload.data {
        PayloadData::ErrorData { error_type, details, .. } => {
            assert_eq!(error_type, "Stale Manifest");
            assert_eq!(details, "Manifest stale for 8000ms");
        }
        _ => panic!("expected error data"),
    }
}

#[test]
fn payload_from_event_notification() {
    let n = Notification::Event {
        monitor_id: "live-1".to_string(),
        event: MonitorEvent::new(
            EventKind::CueOutStarted,
            "VIDEO",
            "1200000",
            "Ad break started at mseq 42",
            "stream_1",
            0,
        ),
    };
    let payload = WebhookPayload::from_notification(&n);
    assert_eq!(payload.version, 1);
    assert_eq!(payload.notification_type, "cue_out_started");
    assert_eq!(payload.monitor_id, "live-1");
    match payload.data {
        PayloadData::EventData { kind, details, .. } => {
            assert_eq!(kind, "cue_out_started");
            assert_eq!(details, "Ad break started at mseq 42");
        }
        _ => panic!("expected event data"),
    }
}

#[test]
fn hmac_signature_is_deterministic() {
    let body: Vec<u8> = b"test payload".to_vec();
    let sig1 = signature_header_value("my-secret", &body);
    let sig2 = signature_header_value("my-secret", &body);
    assert_eq!(sig1, sig2);
    assert!(sig1.starts_with("sha256="));
    assert_eq!(sig1.len(), "sha256=".len() + 64);

    let sig3 = signature_header_value("other-secret", &body);
    assert_ne!(sig1, sig3);
}
