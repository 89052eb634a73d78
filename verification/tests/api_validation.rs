use hls_monitor::api::{validate_added_streams, validate_stream_inputs, ApiError, StreamInput};
use hls_monitor::state::StreamItem;

fn url(u: &str) -> StreamInput {
    StreamInput::Url(u.to_string())
}

#[test]
fn create_rejects_empty_streams() {
    let r = validate_stream_inputs(vec![]);
    assert!(matches!(r, Err(ApiError::BadRequest(_))));
}

#[test]
fn create_rejects_invalid_urls() {
    let r = validate_stream_inputs(vec![url("not-a-url")]);
    assert!(matches!(r, Err(ApiError::BadRequest(_))));
    let r = validate_stream_inputs(vec![url("http://")]);
    assert!(matches!(r, Err(ApiError::BadRequest(_))));
}

#[test]
fn create_rejects_duplicate_urls() {
    let r = validate_stream_inputs(vec![
        url("https://example.com/a.m3u8"),
        url("https://example.com/a.m3u8"),
    ]);
    assert!(matches!(r, Err(ApiError::BadRequest(_))));
}

#[test]
fn create_numbers_unnamed_streams() {
    let items = match validate_stream_inputs(vec![
        url("https://example.com/a.m3u8"),
        StreamInput::Object {
            id: Some("custom_id".to_string()),
            url: "https://example.com/b.m3u8".to_string(),
        },
        StreamInput::Object { id: None, url: "https://example.com/c.m3u8".to_string() },
    ]) {
        Ok(items) => items,
        Err(_) => panic!("expected the inputs to validate"),
    };
    assert_eq!(items.len(), 3);
    assert_eq!(items[0].id, "stream_1");
    assert_eq!(items[0].url, "https://example.com/a.m3u8");
    assert_eq!(items[1].id, "custom_id");
    assert_eq!(items[2].id, "stream_3");
}

#[test]
fn add_rejects_already_monitored() {
    let existing = vec![StreamItem {
        id: "stream_1".to_string(),
        url: "https://example.com/a.m3u8".to_string(),
    }];
    let r = validate_added_streams(&existing, vec![url("https://example.com/a.m3u8")]);
    assert!(matches!(r, Err(ApiError::Conflict(_))));
}

#[test]
fn add_numbers_after_existing() {
    let existing = vec![StreamItem {
        id: "stream_1".to_string(),
        url: "https://example.com/a.m3u8".to_string(),
    }];
    let items = match validate_added_streams(&existing, vec![url("https://example.com/b.m3u8")]) {
        Ok(items) => items,
        Err(_) => panic!("expected the inputs to validate"),
    };
    assert_eq!(items.len(), 1);
    assert_eq!(items[0].id, "stream_2");
}
