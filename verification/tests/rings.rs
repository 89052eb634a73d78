use hls_monitor::error::{ErrorRing, ErrorType, MonitorError};
use hls_monitor::event::{EventKind, EventRing, MonitorEvent};

fn make_error(detail: &str) -> MonitorError {
    MonitorError::new(
        ErrorType::MediaSequence,
        "VIDEO",
        "1200000",
        detail,
        "http://example.com/master.m3u8",
        "stream_1",
        0,
    )
}

#[test]
fn ring_push_within_capacity() {
    let mut ring = ErrorRing::new(5);
    ring.push(make_error("e1"));
    ring.push(make_error("e2"));
    ring.push(make_error("e3"));
    assert_eq!(ring.len(), 3);
}

#[test]
fn ring_evicts_oldest_at_capacity() {
    let mut ring = ErrorRing::new(3);
    ring.push(make_error("e1"));
    ring.push(make_error("e2"));
    ring.push(make_error("e3"));
    ring.push(make_error("e4"));
    assert_eq!(ring.len(), 3);
    let errors = ring.list_chronological();
    assert_eq!(errors[0].details, "e2");
    assert_eq!(errors[1].details, "e3");
    assert_eq!(errors[2].details, "e4");
}

#[test]
fn ring_list_returns_newest_first() {
    let mut ring = ErrorRing::new(5);
    ring.push(make_error("e1"));
    ring.push(make_error("e2"));
    ring.push(make_error("e3"));
    let errors = ring.list();
    assert_eq!(errors[0].details, "e3");
    assert_eq!(errors[1].details, "e2");
    assert_eq!(errors[2].details, "e1");
}

#[test]
fn ring_clear_empties_buffer() {
    let mut ring = ErrorRing::new(5);
    ring.push(make_error("e1"));
    ring.push(make_error("e2"));
    ring.clear();
    assert!(ring.is_empty());
    assert_eq!(ring.len(), 0);
}

#[test]
fn ring_with_status_code() {
    let err = make_error("fetch failed").with_status_code(503);
    assert_eq!(err.status_code, Some(503));
}

#[test]
fn ring_single_capacity() {
    let mut ring = ErrorRing::new(1);
    ring.push(make_error("e1"));
    ring.push(make_error("e2"));
    assert_eq!(ring.len(), 1);
    assert_eq!(ring.list()[0].details, "e2");
}

fn make_event(kind: EventKind, detail: &str) -> MonitorEvent {
    MonitorEvent::new(kind, "VIDEO", "1200000", detail, "stream_1", 0)
}

#[test]
fn ring_push_and_list() {
    let mut ring = EventRing::new(5);
    ring.push(make_event(EventKind::CueOutStarted, "ad break 1"));
    ring.push(make_event(EventKind::CueInReturned, "ad break end"));
    assert_eq!(ring.len(), 2);

    let events = ring.list();
    assert_eq!(events[0].kind, EventKind::CueInReturned);
    assert_eq!(events[1].kind, EventKind::CueOutStarted);
}

#[test]
fn ring_evicts_oldest() {
    let mut ring = EventRing::new(2);
    ring.push(make_event(EventKind::CueOutStarted, "e1"));
    ring.push(make_event(EventKind::CueInReturned, "e2"));
    ring.push(make_event(EventKind::ManifestUpdated, "e3"));
    assert_eq!(ring.len(), 2);
    let events = ring.list_chronological();
    assert_eq!(events[0].kind, EventKind::CueInReturned);
    assert_eq!(events[1].kind, EventKind::ManifestUpdated);
}

#[test]
fn ring_clear() {
    let mut ring = EventRing::new(5);
    ring.push(make_event(EventKind::CueOutStarted, "e1"));
    ring.clear();
    assert!(ring.is_empty());
}

#[test]
fn ring_zero_capacity_stays_empty() {
    let mut ring = ErrorRing::new(0);
    ring.push(make_error("e1"));
    assert_eq!(ring.len(), 0);
    assert!(ring.is_empty());
}
