use hls_monitor::loader::{fetch_backoff_ms, is_fatal_status, LoadError};
use hls_monitor::messages::{fmt_secs1, fmt_secs3, fmt_stale};
use hls_monitor::strutil::{parse_u64, strip_query, u64_to_string, uri_eq};

#[test]
fn decimal_rendering_is_exact() {
    assert_eq!(u64_to_string(0), "0");
    assert_eq!(u64_to_string(7), "7");
    assert_eq!(u64_to_string(1212000), "1212000");
    assert_eq!(u64_to_string(u64::MAX), "18446744073709551615");
}

#[test]
fn seconds_rendering_is_exact() {
    assert_eq!(fmt_secs3(10_600), "10.600");
    assert_eq!(fmt_secs3(2_000), "2.000");
    assert_eq!(fmt_secs3(999), "0.999");
    assert_eq!(fmt_secs1(500), "0.5");
    assert_eq!(fmt_secs1(20_000), "20.0");
}

#[test]
fn stale_message_is_exact() {
    assert_eq!(fmt_stale(6000, 7000), "Expected: 6000ms. Got: 7000ms");
}

#[test]
fn u64_parsing_is_exact() {
    assert_eq!(parse_u64("0"), Some(0));
    assert_eq!(parse_u64("1212000"), Some(1_212_000));
    assert_eq!(parse_u64("18446744073709551615"), Some(u64::MAX));
    assert_eq!(parse_u64("18446744073709551616"), None);
    assert_eq!(parse_u64(""), None);
    assert_eq!(parse_u64("12a"), None);
    assert_eq!(parse_u64("-3"), None);
}

#[test]
fn query_strings_are_ignored_in_uri_comparison() {
    assert_eq!(strip_query("a.ts?token=abc"), "a.ts");
    assert_eq!(strip_query("a.ts"), "a.ts");
    assert_eq!(strip_query("?x"), "");
    assert!(uri_eq("a.ts?token=abc", "a.ts?token=xyz"));
    assert!(!uri_eq("a.ts?token=abc", "b.ts?token=abc"));
}

#[test]
fn fetch_backoff_doubles_each_attempt() {
    assert_eq!(fetch_backoff_ms(100, 0), 0);
    assert_eq!(fetch_backoff_ms(100, 1), 100);
    assert_eq!(fetch_backoff_ms(100, 2), 200);
    assert_eq!(fetch_backoff_ms(100, 3), 400);
    assert_eq!(fetch_backoff_ms(500, 2), 1000);
}

#[test]
fn fatal_statuses_are_client_errors_except_429() {
    assert!(is_fatal_status(400));
    assert!(is_fatal_status(404));
    assert!(!is_fatal_status(429));
    assert!(!is_fatal_status(500));
    assert!(!is_fatal_status(200));
}

#[test]
fn load_error_classification() {
    let e = LoadError::Http {
        url: "http://x/".to_string(),
        status: 503,
        message: "Service Unavailable".to_string(),
        is_last_retry: false,
    };
    assert!(!e.is_last_retry());
    assert_eq!(e.status_code(), Some(503));
    assert_eq!(e.describe(), "HTTP error 503 fetching http://x/: Service Unavailable");

    let p = LoadError::Parse { url: "http://x/".to_string(), message: "bad".to_string() };
    assert!(p.is_last_retry());
    assert_eq!(p.status_code(), None);
}

#[test]
fn variant_keys_follow_the_master() {
    let master = "#EXTM3U\n\
#EXT-X-STREAM-INF:BANDWIDTH=1212000\n\
level_0.m3u8\n\
#EXT-X-I-FRAME-STREAM-INF:BANDWIDTH=90000,URI=\"if.m3u8\"\n\
#EXT-X-MEDIA:TYPE=AUDIO,GROUP-ID=\"aud\",NAME=\"English\",LANGUAGE=\"en\",URI=\"a.m3u8\"\n\
#EXT-X-MEDIA:TYPE=SUBTITLES,GROUP-ID=\"subs\",NAME=\"Deutsch\",URI=\"s.m3u8\"\n";
    let m = hls_monitor::playlist::parse_master_playlist(master).unwrap();
    let targets = hls_monitor::engine::master_targets("https://h/p/", &m);
    let keys: Vec<String> = targets.iter().map(|t| t.key.clone()).collect();
    assert_eq!(keys, vec!["1212000", "iframe_90000", "aud;en", "subs;Deutsch"]);
    assert_eq!(targets[0].url, "https://h/p/level_0.m3u8");
    assert_eq!(targets[0].media_type, "VIDEO");
    assert_eq!(targets[2].media_type, "AUDIO");
    assert_eq!(targets[3].media_type, "SUBTITLES");
}
