use hls_monitor::playlist::{is_master_playlist, parse_master_playlist, parse_media_playlist};
use hls_monitor::state::PlaylistType;

const MEDIA: &str = "#EXTM3U\n\
#EXT-X-VERSION:3\n\
#EXT-X-TARGETDURATION:10\n\
#EXT-X-MEDIA-SEQUENCE:7\n\
#EXT-X-DISCONTINUITY-SEQUENCE:2\n\
#EXTINF:10.000,\n\
a0.ts\n\
#EXT-X-DISCONTINUITY\n\
#EXTINF:9.5,\n\
a1.ts\n\
#EXT-X-CUE-OUT:30\n\
#EXTINF:4.123,\n\
a2.ts\n";

#[test]
fn media_playlist_fields_are_read() {
    let p = parse_media_playlist(MEDIA).unwrap();
    assert_eq!(p.media_sequence, 7);
    assert_eq!(p.discontinuity_sequence, 2);
    assert_eq!(p.target_duration_ms, 10_000);
    assert_eq!(p.version, Some(3));
    assert_eq!(p.segments.len(), 3);
    assert_eq!(p.segments[0].uri, "a0.ts");
    assert_eq!(p.segments[0].duration_ms, 10_000);
    assert!(!p.segments[0].discontinuity);
    assert!(p.segments[1].discontinuity);
    assert_eq!(p.segments[1].duration_ms, 9_500);
    assert_eq!(p.segments[2].duration_ms, 4_123);
    assert!(p.segments[2].cue_out);
    assert_eq!(p.cue_out_count, 1);
    assert_eq!(p.cue_in_count, 0);
    assert!(p.has_cue_out);
    assert!(!p.has_gaps);
    assert_eq!(p.duration_ms, 23_623);
    assert_eq!(p.playlist_type, None);
}

#[test]
fn media_playlist_requires_header() {
    assert!(parse_media_playlist("#EXT-X-VERSION:3\n#EXTINF:10,\na.ts\n").is_err());
    assert!(parse_media_playlist("").is_err());
}

#[test]
fn media_playlist_rejects_bad_media_sequence() {
    assert!(parse_media_playlist("#EXTM3U\n#EXT-X-MEDIA-SEQUENCE:abc\n").is_err());
}

#[test]
fn media_playlist_reads_cue_markers_and_gaps() {
    let text = "#EXTM3U\n\
#EXT-X-PLAYLIST-TYPE:EVENT\n\
#EXT-X-CUE-OUT-CONT:20.0/60.0\n\
#EXTINF:10,\n\
a.ts\n\
#EXT-X-CUE-IN\n\
#EXT-X-GAP\n\
#EXTINF:10,\n\
b.ts\n";
    let p = parse_media_playlist(text).unwrap();
    assert_eq!(p.playlist_type, Some(PlaylistType::Event));
    assert_eq!(p.segments[0].cue_out_cont.as_deref(), Some("20.0/60.0"));
    assert!(p.segments[1].cue_in);
    assert!(p.segments[1].gap);
    assert!(p.has_gaps);
    assert_eq!(p.cue_in_count, 1);
}

#[test]
fn media_playlist_reads_program_date_time() {
    let text = "#EXTM3U\n\
#EXT-X-PROGRAM-DATE-TIME:1970-01-01T00:00:10.000Z\n\
#EXTINF:10,\n\
a.ts\n";
    let p = parse_media_playlist(text).unwrap();
    assert_eq!(p.segments[0].program_date_time_ms, Some(10_000));
}

#[test]
fn media_playlist_reads_daterange() {
    let text = "#EXTM3U\n\
#EXT-X-DATERANGE:ID=\"ad-1\",CLASS=\"ads\",START-DATE=\"1970-01-01T00:00:01.000Z\",END-DATE=\"1970-01-01T00:00:31.000Z\",DURATION=30.0\n\
#EXTINF:10,\n\
a.ts\n";
    let p = parse_media_playlist(text).unwrap();
    let dr = p.segments[0].daterange.as_ref().unwrap();
    assert_eq!(dr.id, "ad-1");
    assert_eq!(dr.class.as_deref(), Some("ads"));
    assert_eq!(dr.start_date_ms, 1_000);
    assert_eq!(dr.end_date_ms, Some(31_000));
    assert_eq!(dr.duration_ms, Some(30_000));
    assert!(!dr.end_on_next);
}

const MASTER: &str = "#EXTM3U\n\
#EXT-X-VERSION:3\n\
#EXT-X-STREAM-INF:BANDWIDTH=1212000,RESOLUTION=1280x720,CODECS=\"avc1.4d401f,mp4a.40.2\"\n\
level_0.m3u8\n\
#EXT-X-STREAM-INF:BANDWIDTH=2424000\n\
level_1.m3u8\n\
#EXT-X-MEDIA:TYPE=AUDIO,GROUP-ID=\"aud\",NAME=\"English\",LANGUAGE=\"en\",URI=\"audio_en.m3u8\"\n\
#EXT-X-I-FRAME-STREAM-INF:BANDWIDTH=100000,URI=\"iframe.m3u8\"\n";

#[test]
fn master_playlist_variants_are_read() {
    assert!(is_master_playlist(MASTER));
    assert!(!is_master_playlist(MEDIA));
    let m = parse_master_playlist(MASTER).unwrap();
    assert_eq!(m.variants.len(), 3);
    assert_eq!(m.variants[0].uri, "level_0.m3u8");
    assert_eq!(m.variants[0].bandwidth, 1_212_000);
    assert!(!m.variants[0].is_i_frame);
    assert_eq!(m.variants[1].bandwidth, 2_424_000);
    assert_eq!(m.variants[2].uri, "iframe.m3u8");
    assert!(m.variants[2].is_i_frame);
    assert_eq!(m.alternatives.len(), 1);
    assert_eq!(m.alternatives[0].group_id, "aud");
    assert_eq!(m.alternatives[0].language.as_deref(), Some("en"));
    assert_eq!(m.alternatives[0].uri.as_deref(), Some("audio_en.m3u8"));
    assert_eq!(m.alternatives[0].media_type, "AUDIO");
}

#[test]
fn master_playlist_rejects_missing_bandwidth() {
    let bad = "#EXTM3U\n#EXT-X-STREAM-INF:RESOLUTION=1280x720\nlevel_0.m3u8\n";
    assert!(parse_master_playlist(bad).is_err());
}

#[test]
fn crlf_lines_are_handled() {
    let text = "#EXTM3U\r\n#EXT-X-MEDIA-SEQUENCE:4\r\n#EXTINF:10,\r\na.ts\r\n";
    let p = parse_media_playlist(text).unwrap();
    assert_eq!(p.media_sequence, 4);
    assert_eq!(p.segments[0].uri, "a.ts");
}

#[test]
fn snapshot_to_state_round_trip_preserves_window() {
    // reducing a parsed snapshot to the carried variant state keeps the
    // media sequence, the discontinuity sequence, and the ordered URIs
    let p = parse_media_playlist(MEDIA).unwrap();
    let st = hls_monitor::engine::state_from_snapshot("VIDEO", &p, false);
    assert_eq!(st.media_sequence, 7);
    assert_eq!(st.discontinuity_sequence, 2);
    assert_eq!(st.segment_uris, vec!["a0.ts", "a1.ts", "a2.ts"]);
    assert_eq!(st.media_sequence, p.media_sequence);
    assert_eq!(st.discontinuity_sequence, p.discontinuity_sequence);
    // the second segment carries EXT-X-DISCONTINUITY, so the carried state
    // predicts that a single-step advance crosses it
    assert!(st.next_is_discontinuity);
    assert!(st.in_cue_out == false);
}

#[test]
fn cue_latch_follows_the_rule() {
    let next_in_cue_out = hls_monitor::engine::next_in_cue_out;
    // a CUE-OUT opens the latch unless a CUE-IN also appears
    assert!(next_in_cue_out(true, false, false));
    assert!(!next_in_cue_out(true, true, false));
    // a CUE-IN alone closes it
    assert!(!next_in_cue_out(false, true, true));
    // otherwise it carries over
    assert!(next_in_cue_out(false, false, true));
    assert!(!next_in_cue_out(false, false, false));
}

#[test]
fn next_is_discontinuity_covers_first_two_segments() {
    let text = "#EXTM3U\n\
#EXTINF:10,\n\
a.ts\n\
#EXT-X-DISCONTINUITY\n\
#EXTINF:10,\n\
b.ts\n\
#EXTINF:10,\n\
c.ts\n";
    let p = parse_media_playlist(text).unwrap();
    let st = hls_monitor::engine::state_from_snapshot("VIDEO", &p, false);
    // the discontinuity sits on the second segment: a single-step advance
    // will cross it, so the carried state predicts it
    assert!(st.next_is_discontinuity);
}
