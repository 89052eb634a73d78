//! The monitoring engine: per-stream state across polls, the poll step
//! functions, and the monitor aggregate. The engine never does I/O: callers
//! fetch playlist bodies and hand them in together with the current time.

use vstd::prelude::*;

use crate::assoc::AssocMap;
use crate::config::MonitorConfig;
use crate::error::{ErrorCore, ErrorType, MonitorError};
use crate::event::{EventCore, EventKind, MonitorEvent};
use crate::loader::{load_error_text, spec_is_last_retry, spec_status_code, LoadError};
use crate::messages::{fmt_cue_in_returned, fmt_cue_out_cont, fmt_cue_out_started,
    fmt_dseq_changed, fmt_fetch_master, fmt_fetch_variant, fmt_manifest_updated,
    fmt_parse_master, fmt_parse_variant, fmt_stale_recovered, msg_cue_in_returned,
    msg_cue_out_cont, msg_cue_out_started, msg_dseq_changed, msg_fetch_master,
    msg_fetch_variant, msg_manifest_updated, msg_parse_master, msg_parse_variant,
    msg_stale_recovered};
use crate::playlist::{master_model, parse_master_spec, parse_media_spec, playlist_model,
    AltModel, MasterModel, MasterPlaylist, PlaylistModel, SegmentModel, VariantModel};
use crate::state::{MonitorState, PlaylistSnapshot, SegmentInfo, StreamData, StreamItem,
    VariantState};
use crate::strutil::{dec_rep, has_prefix, u64_to_string};

verus! {

/// The base URL of a stream is the prefix of its master URL up to and
/// including the last `/`; a URL without `/` is its own base.
pub open spec fn base_url_of(url: Seq<char>) -> Seq<char> {
    if exists|i: int| 0 <= i < url.len() && url[i] == '/' {
        let last = choose|i: int|
            0 <= i < url.len() && url[i] == '/' && (forall|j: int|
                i < j < url.len() ==> url[j] != '/');
        url.subrange(0, last + 1)
    } else {
        url
    }
}

/// Prefix of a stream URL up to and including the final `/`; per-stream
/// state is keyed by this base URL.
pub fn get_base_url(url: &str) -> (r: String)
    ensures
        r@ == base_url_of(url@),
{
    let len = url.unicode_len();
    let mut i: usize = len;
    let mut found: bool = false;
    while i > 0 && !found
        invariant
            i <= len,
            len == url@.len(),
            !found ==> forall|j: int| i <= j < len ==> url@[j] != '/',
            found ==> i < len && url@[i as int] == '/' && (forall|j: int|
                i < j < len ==> url@[j] != '/'),
        decreases i + (if found { 0int } else { 1int }),
    {
        if url.get_char(i - 1) == '/' {
            i = i - 1;
            found = true;
        } else {
            i = i - 1;
        }
    }
    if found {
        let r = url.substring_char(0, i + 1).to_owned();
        proof {
            let last = choose|k: int|
                0 <= k < url@.len() && url@[k] == '/' && (forall|j: int|
                    k < j < url@.len() ==> url@[j] != '/');
            assert(last == i as int);
        }
        r
    } else {
        let r = url.substring_char(0, len).to_owned();
        proof {
            assert(url@.subrange(0, len as int) =~= url@);
        }
        r
    }
}

/// An absolute path is kept; a relative one is appended to the base URL.
pub open spec fn resolved_url(base: Seq<char>, path: Seq<char>) -> Seq<char> {
    if has_prefix(path, "http://"@) || has_prefix(path, "https://"@) {
        path
    } else {
        base + path
    }
}

/// Resolves a playlist path against the stream's base URL.
pub fn build_playlist_url(base_url: &str, path: &str) -> (r: String)
    ensures
        r@ == resolved_url(base_url@, path@),
{
    if crate::strutil::starts_with(path, "http://") || crate::strutil::starts_with(
        path,
        "https://",
    ) {
        path.to_owned()
    } else {
        let mut s = base_url.to_owned();
        s.append(path);
        s
    }
}

/// One variant playlist to fetch: its resolved URL, its key, and its media
/// type.
pub struct VariantTarget {
    pub url: String,
    pub key: String,
    pub media_type: String,
}

/// The plain values of a target.
pub open spec fn target_model(t: VariantTarget) -> (Seq<char>, Seq<char>, Seq<char>) {
    (t.url@, t.key@, t.media_type@)
}

/// The key of a bandwidth variant: the bandwidth in decimal, prefixed with
/// `iframe_` for I-frame-only variants.
pub open spec fn key_of_variant(v: VariantModel) -> Seq<char> {
    if v.is_i_frame {
        "iframe_"@ + dec_rep(v.bandwidth as nat)
    } else {
        dec_rep(v.bandwidth as nat)
    }
}

/// The key of an alternative rendition: its group, a semicolon, and its
/// language (or, without one, its name).
pub open spec fn key_of_alt(a: AltModel) -> Seq<char> {
    a.group_id + ";"@ + match a.language {
        Some(l) => l,
        None => a.name,
    }
}

/// The fetch targets of the bandwidth variants, in order.
pub open spec fn variant_targets_spec(base: Seq<char>, vs: Seq<VariantModel>) -> Seq<
    (Seq<char>, Seq<char>, Seq<char>),
> {
    vs.map(|i: int, v: VariantModel| (resolved_url(base, v.uri), key_of_variant(v), "VIDEO"@))
}

/// The fetch targets of the alternative renditions that carry a URI, in
/// order.
pub open spec fn alt_targets_spec(base: Seq<char>, alts: Seq<AltModel>) -> Seq<
    (Seq<char>, Seq<char>, Seq<char>),
>
    decreases alts.len(),
{
    if alts.len() == 0 {
        Seq::empty()
    } else {
        alt_targets_spec(base, alts.drop_last()) + match alts.last().uri {
            Some(u) => seq![(resolved_url(base, u), key_of_alt(alts.last()), alts.last().media_type)],
            None => Seq::empty(),
        }
    }
}

/// Every fetch target a master playlist yields: the bandwidth variants, then
/// the alternative renditions with URIs.
pub open spec fn targets_spec(base: Seq<char>, m: MasterModel) -> Seq<
    (Seq<char>, Seq<char>, Seq<char>),
> {
    variant_targets_spec(base, m.variants) + alt_targets_spec(base, m.alternatives)
}

/// Enumerates the fetch targets of a parsed master playlist, exactly as
/// `targets_spec` describes.
pub fn master_targets(base_url: &str, m: &MasterPlaylist) -> (r: Vec<VariantTarget>)
    ensures
        r@.map(|i: int, t: VariantTarget| target_model(t)) == targets_spec(
            base_url@,
            master_model(*m),
        ),
{
    let ghost vm = m.variants@.map(|k: int, v: crate::playlist::VariantStreamInfo|
        crate::playlist::variant_model(v));
    let ghost am = m.alternatives@.map(|k: int, a: crate::playlist::AlternativeMediaInfo|
        crate::playlist::alt_model(a));
    let mut r: Vec<VariantTarget> = Vec::new();
    let n = m.variants.len();
    let mut i: usize = 0;
    proof {
        assert(r@.map(|k: int, t: VariantTarget| target_model(t)) =~= variant_targets_spec(
            base_url@,
            vm,
        ).take(0));
    }
    while i < n
        invariant
            i <= n,
            n == m.variants@.len(),
            vm == m.variants@.map(|k: int, v: crate::playlist::VariantStreamInfo|
                crate::playlist::variant_model(v)),
            vm.len() == n,
            r@.map(|k: int, t: VariantTarget| target_model(t)) == variant_targets_spec(
                base_url@,
                vm,
            ).take(i as int),
        decreases n - i,
    {
        let ghost pre = r@.map(|k: int, t: VariantTarget| target_model(t));
        let v = &m.variants[i];
        let url = build_playlist_url(base_url, v.uri.as_str());
        let key = if v.is_i_frame {
            let mut k = "iframe_".to_owned();
            let b = u64_to_string(v.bandwidth);
            k.append(b.as_str());
            proof {
                assert(k@ =~= key_of_variant(vm[i as int]));
            }
            k
        } else {
            u64_to_string(v.bandwidth)
        };
        r.push(VariantTarget { url, key, media_type: "VIDEO".to_owned() });
        proof {
            assert(r@.map(|k: int, t: VariantTarget| target_model(t)) =~= pre.push(
                variant_targets_spec(base_url@, vm)[i as int],
            ));
            assert(r@.map(|k: int, t: VariantTarget| target_model(t)) =~= variant_targets_spec(
                base_url@,
                vm,
            ).take(i as int + 1));
        }
        i = i + 1;
    }
    proof {
        assert(variant_targets_spec(base_url@, vm).take(n as int) =~= variant_targets_spec(
            base_url@,
            vm,
        ));
    }
    let na = m.alternatives.len();
    let mut j: usize = 0;
    while j < na
        invariant
            j <= na,
            na == m.alternatives@.len(),
            am == m.alternatives@.map(|k: int, a: crate::playlist::AlternativeMediaInfo|
                crate::playlist::alt_model(a)),
            am.len() == na,
            vm == m.variants@.map(|k: int, v: crate::playlist::VariantStreamInfo|
                crate::playlist::variant_model(v)),
            r@.map(|k: int, t: VariantTarget| target_model(t)) == variant_targets_spec(
                base_url@,
                vm,
            ) + alt_targets_spec(base_url@, am.take(j as int)),
        decreases na - j,
    {
        let ghost pre = r@.map(|k: int, t: VariantTarget| target_model(t));
        let a = &m.alternatives[j];
        match &a.uri {
            Some(u) => {
                let url = build_playlist_url(base_url, u.as_str());
                let mut key = a.group_id.clone();
                key.append(";");
                match &a.language {
                    Some(l) => key.append(l.as_str()),
                    None => key.append(a.name.as_str()),
                }
                proof {
                    assert(key@ =~= key_of_alt(am[j as int]));
                }
                r.push(VariantTarget { url, key, media_type: a.media_type.clone() });
                proof {
                    assert(r@.map(|k: int, t: VariantTarget| target_model(t)) =~= pre.push(
                        (resolved_url(base_url@, u@), key_of_alt(am[j as int]), am[j as int].media_type),
                    ));
                }
            },
            None => {},
        }
        proof {
            assert(am.take(j as int + 1).drop_last() =~= am.take(j as int));
            assert(am.take(j as int + 1).last() == am[j as int]);
            assert(r@.map(|k: int, t: VariantTarget| target_model(t)) =~= variant_targets_spec(
                base_url@,
                vm,
            ) + alt_targets_spec(base_url@, am.take(j as int + 1)));
        }
        j = j + 1;
    }
    proof {
        assert(am.take(na as int) =~= am);
        assert(r@.map(|k: int, t: VariantTarget| target_model(t)) =~= targets_spec(
            base_url@,
            master_model(*m),
        ));
    }
    r
}


/// Per-variant state as plain values.
#[verifier::ext_equal]
pub struct VSModel {
    pub media_type: Seq<char>,
    pub media_sequence: u64,
    pub segment_uris: Seq<Seq<char>>,
    pub discontinuity_sequence: u64,
    pub next_is_discontinuity: bool,
    pub prev_segments: Seq<(Seq<char>, bool)>,
    pub duration_ms: u64,
    pub cue_out_count: int,
    pub cue_in_count: int,
    pub in_cue_out: bool,
    pub cue_out_duration_ms: Option<u64>,
    pub version: Option<u16>,
}

/// The plain values of a variant state.
pub open spec fn vs_model(v: VariantState) -> VSModel {
    VSModel {
        media_type: v.media_type@,
        media_sequence: v.media_sequence,
        segment_uris: v.segment_uris@.map(|i: int, s: String| s@),
        discontinuity_sequence: v.discontinuity_sequence,
        next_is_discontinuity: v.next_is_discontinuity,
        prev_segments: v.prev_segments@.map(|i: int, s: SegmentInfo| (s.uri@, s.discontinuity)),
        duration_ms: v.duration_ms,
        cue_out_count: v.cue_out_count as int,
        cue_in_count: v.cue_in_count as int,
        in_cue_out: v.in_cue_out,
        cue_out_duration_ms: v.cue_out_duration_ms,
        version: v.version,
    }
}

/// Whether the first or second segment of a window carries a discontinuity:
/// the window predicts that a single-step advance crosses one.
pub open spec fn next_is_disc_spec(segs: Seq<SegmentModel>) -> bool {
    segs.len() > 0 && (segs[0].discontinuity || (segs.len() > 1 && segs[1].discontinuity))
}

/// The ad-break latch after a poll: opened by a CUE-OUT without CUE-IN,
/// closed by a CUE-IN, otherwise carried over.
pub open spec fn latch_next(has_cue_out: bool, has_cue_in: bool, was_in_cue_out: bool) -> bool {
    if has_cue_out {
        !has_cue_in
    } else if has_cue_in {
        false
    } else {
        was_in_cue_out
    }
}

/// Computes the ad-break latch after a poll, exactly as `latch_next` says.
pub fn next_in_cue_out(has_cue_out: bool, has_cue_in: bool, was_in_cue_out: bool) -> (r: bool)
    ensures
        r == latch_next(has_cue_out, has_cue_in, was_in_cue_out),
{
    if has_cue_out {
        !has_cue_in
    } else if has_cue_in {
        false
    } else {
        was_in_cue_out
    }
}

/// The variant state a snapshot leaves behind: its counters, its window, a
/// copy of its segments for the discontinuity check, the two-segment
/// discontinuity prediction, and the given ad-break latch.
pub open spec fn derived_state_m(media_type: Seq<char>, p: PlaylistModel, in_cue_out: bool) -> VSModel {
    VSModel {
        media_type,
        media_sequence: p.media_sequence,
        segment_uris: p.segments.map(|i: int, s: SegmentModel| s.uri),
        discontinuity_sequence: p.discontinuity_sequence,
        next_is_discontinuity: next_is_disc_spec(p.segments),
        prev_segments: p.segments.map(|i: int, s: SegmentModel| (s.uri, s.discontinuity)),
        duration_ms: p.duration_ms,
        cue_out_count: p.cue_out_count,
        cue_in_count: p.cue_in_count,
        in_cue_out,
        cue_out_duration_ms: p.cue_out_duration_ms,
        version: p.version,
    }
}

/// Builds the variant state a snapshot leaves behind, exactly as
/// `derived_state_m` describes. The media sequence, discontinuity sequence
/// and ordered segment URIs of the snapshot are preserved.
pub fn state_from_snapshot(media_type: &str, snap: &PlaylistSnapshot, in_cue_out: bool) -> (r:
    VariantState)
    ensures
        vs_model(r) == derived_state_m(media_type@, playlist_model(*snap), in_cue_out),
        r.media_sequence == snap.media_sequence,
        r.discontinuity_sequence == snap.discontinuity_sequence,
        r.segment_uris@.map(|i: int, s: String| s@) == crate::state::seg_uris(snap.segments@),
{
    let ghost pm = playlist_model(*snap);
    let n = snap.segments.len();
    let mut uris: Vec<String> = Vec::new();
    let mut infos: Vec<SegmentInfo> = Vec::new();
    let mut i: usize = 0;
    proof {
        assert(uris@.map(|k: int, s: String| s@) =~= pm.segments.map(
            |k: int, s: SegmentModel| s.uri,
        ).take(0));
        assert(infos@.map(|k: int, s: SegmentInfo| (s.uri@, s.discontinuity)) =~= pm.segments.map(
            |k: int, s: SegmentModel| (s.uri, s.discontinuity),
        ).take(0));
    }
    while i < n
        invariant
            i <= n,
            n == snap.segments@.len(),
            pm == playlist_model(*snap),
            pm.segments.len() == n,
            uris@.map(|k: int, s: String| s@) == pm.segments.map(
                |k: int, s: SegmentModel| s.uri,
            ).take(i as int),
            infos@.map(|k: int, s: SegmentInfo| (s.uri@, s.discontinuity)) == pm.segments.map(
                |k: int, s: SegmentModel| (s.uri, s.discontinuity),
            ).take(i as int),
        decreases n - i,
    {
        let ghost preu = uris@.map(|k: int, s: String| s@);
        let ghost prei = infos@.map(|k: int, s: SegmentInfo| (s.uri@, s.discontinuity));
        uris.push(snap.segments[i].uri.clone());
        infos.push(
            SegmentInfo {
                uri: snap.segments[i].uri.clone(),
                discontinuity: snap.segments[i].discontinuity,
            },
        );
        proof {
            assert(uris@.map(|k: int, s: String| s@) =~= preu.push(pm.segments[i as int].uri));
            assert(uris@.map(|k: int, s: String| s@) =~= pm.segments.map(
                |k: int, s: SegmentModel| s.uri,
            ).take(i as int + 1));
            assert(infos@.map(|k: int, s: SegmentInfo| (s.uri@, s.discontinuity)) =~= prei.push(
                (pm.segments[i as int].uri, pm.segments[i as int].discontinuity),
            ));
            assert(infos@.map(|k: int, s: SegmentInfo| (s.uri@, s.discontinuity))
                =~= pm.segments.map(|k: int, s: SegmentModel| (s.uri, s.discontinuity)).take(
                i as int + 1,
            ));
        }
        i = i + 1;
    }
    let nid = if snap.segments.len() > 0 {
        if snap.segments[0].discontinuity {
            true
        } else {
            snap.segments.len() > 1 && snap.segments[1].discontinuity
        }
    } else {
        false
    };
    let r = VariantState {
        media_type: media_type.to_owned(),
        media_sequence: snap.media_sequence,
        segment_uris: uris,
        discontinuity_sequence: snap.discontinuity_sequence,
        next_is_discontinuity: nid,
        prev_segments: infos,
        duration_ms: snap.duration_ms,
        cue_out_count: snap.cue_out_count,
        cue_in_count: snap.cue_in_count,
        in_cue_out,
        cue_out_duration_ms: snap.cue_out_duration_ms,
        version: snap.version,
    };
    proof {
        assert(pm.segments.map(|k: int, s: SegmentModel| s.uri).take(n as int) =~= pm.segments.map(
            |k: int, s: SegmentModel| s.uri,
        ));
        assert(pm.segments.map(|k: int, s: SegmentModel| (s.uri, s.discontinuity)).take(n as int)
            =~= pm.segments.map(|k: int, s: SegmentModel| (s.uri, s.discontinuity)));
        assert(vs_model(r) =~~= derived_state_m(media_type@, pm, in_cue_out));
        assert(r.segment_uris@.map(|k: int, s: String| s@) =~= crate::state::seg_uris(
            snap.segments@,
        ));
    }
    r
}

/// The cores of a run of events, in order.
pub open spec fn ecores(s: Seq<MonitorEvent>) -> Seq<EventCore> {
    s.map(|i: int, e: MonitorEvent| e.core_data())
}

/// The first `CUE-OUT-CONT` value among a run of segments, if any.
pub open spec fn first_cont(segs: Seq<SegmentModel>) -> Option<Seq<char>>
    decreases segs.len(),
{
    if segs.len() == 0 {
        None
    } else {
        match segs[0].cue_out_cont {
            Some(v) => Some(v),
            None => first_cont(segs.drop_first()),
        }
    }
}

/// The core of an event the engine records for a variant.
pub open spec fn event_core(
    kind: EventKind,
    media_type: Seq<char>,
    key: Seq<char>,
    details: Seq<char>,
    stream_id: Seq<char>,
    now: u64,
) -> EventCore {
    EventCore {
        timestamp_ms: now,
        kind,
        stream_id,
        media_type,
        variant_key: key,
        details,
    }
}

/// The events one successfully parsed variant emits, in order: an update
/// when the media sequence changed; the start of an ad break when a CUE-OUT
/// appears with the latch closed; its end when a CUE-IN appears with the
/// latch open; one continuation event when any CUE-OUT-CONT is present; and
/// a discontinuity event when that counter changed.
pub open spec fn variant_event_cores(
    prev_mseq: u64,
    prev_dseq: u64,
    was_in_cue_out: bool,
    p: PlaylistModel,
    stream_id: Seq<char>,
    media_type: Seq<char>,
    key: Seq<char>,
    now: u64,
) -> Seq<EventCore> {
    let a: Seq<EventCore> = if p.media_sequence != prev_mseq {
        seq![
            event_core(
                EventKind::ManifestUpdated,
                media_type,
                key,
                msg_manifest_updated(
                    prev_mseq as nat,
                    p.media_sequence as nat,
                    p.segments.len(),
                    p.duration_ms as nat,
                ),
                stream_id,
                now,
            ),
        ]
    } else {
        Seq::empty()
    };
    let b: Seq<EventCore> = if !was_in_cue_out && p.has_cue_out {
        seq![
            event_core(
                EventKind::CueOutStarted,
                media_type,
                key,
                msg_cue_out_started(p.media_sequence as nat, p.cue_out_duration_ms),
                stream_id,
                now,
            ),
        ]
    } else {
        Seq::empty()
    };
    let c: Seq<EventCore> = if was_in_cue_out && p.cue_in_count > 0 {
        seq![
            event_core(
                EventKind::CueInReturned,
                media_type,
                key,
                msg_cue_in_returned(p.media_sequence as nat),
                stream_id,
                now,
            ),
        ]
    } else {
        Seq::empty()
    };
    let d: Seq<EventCore> = match first_cont(p.segments) {
        Some(v) => seq![
            event_core(
                EventKind::CueOutCont,
                media_type,
                key,
                msg_cue_out_cont(v),
                stream_id,
                now,
            ),
        ],
        None => Seq::empty(),
    };
    let e: Seq<EventCore> = if p.discontinuity_sequence != prev_dseq {
        seq![
            event_core(
                EventKind::DiscontinuityChanged,
                media_type,
                key,
                msg_dseq_changed(prev_dseq as nat, p.discontinuity_sequence as nat),
                stream_id,
                now,
            ),
        ]
    } else {
        Seq::empty()
    };
    a + b + c + d + e
}

/// Finds the first `CUE-OUT-CONT` value among the segments.
fn find_first_cont(snap: &PlaylistSnapshot) -> (r: Option<&String>)
    ensures
        match r {
            Some(v) => first_cont(playlist_model(*snap).segments) == Some(v@),
            None => first_cont(playlist_model(*snap).segments) is None,
        },
{
    let ghost sm = playlist_model(*snap).segments;
    let n = snap.segments.len();
    let mut i: usize = 0;
    proof {
        assert(sm.skip(0) =~= sm);
    }
    while i < n
        invariant
            i <= n,
            n == snap.segments@.len(),
            sm == playlist_model(*snap).segments,
            sm.len() == n,
            first_cont(sm) == first_cont(sm.skip(i as int)),
            forall|j: int| 0 <= j < i ==> sm[j].cue_out_cont is None,
        decreases n - i,
    {
        proof {
            assert(sm.skip(i as int)[0] == sm[i as int]);
            assert(sm.skip(i as int).drop_first() =~= sm.skip(i as int + 1));
        }
        match &snap.segments[i].cue_out_cont {
            Some(v) => {
                return Some(v);
            },
            None => {},
        }
        i = i + 1;
    }
    proof {
        assert(sm.skip(n as int) =~= Seq::<SegmentModel>::empty());
    }
    None
}

/// Records the events of one successfully parsed variant, exactly as
/// `variant_event_cores` describes.
pub fn emit_variant_events(
    prev_mseq: u64,
    prev_dseq: u64,
    was_in_cue_out: bool,
    snap: &PlaylistSnapshot,
    stream_id: &str,
    media_type: &str,
    key: &str,
    now_ms: u64,
) -> (r: Vec<MonitorEvent>)
    ensures
        ecores(r@) == variant_event_cores(
            prev_mseq,
            prev_dseq,
            was_in_cue_out,
            playlist_model(*snap),
            stream_id@,
            media_type@,
            key@,
            now_ms,
        ),
{
    let mut r: Vec<MonitorEvent> = Vec::new();
    if snap.media_sequence != prev_mseq {
        let details = fmt_manifest_updated(
            prev_mseq,
            snap.media_sequence,
            snap.segments.len(),
            snap.duration_ms,
        );
        r.push(
            MonitorEvent::new(
                EventKind::ManifestUpdated,
                media_type,
                key,
                details.as_str(),
                stream_id,
                now_ms,
            ),
        );
    }
    if !was_in_cue_out && snap.has_cue_out {
        let details = fmt_cue_out_started(snap.media_sequence, snap.cue_out_duration_ms);
        r.push(
            MonitorEvent::new(
                EventKind::CueOutStarted,
                media_type,
                key,
                details.as_str(),
                stream_id,
                now_ms,
            ),
        );
    }
    if was_in_cue_out && snap.cue_in_count > 0 {
        let details = fmt_cue_in_returned(snap.media_sequence);
        r.push(
            MonitorEvent::new(
                EventKind::CueInReturned,
                media_type,
                key,
                details.as_str(),
                stream_id,
                now_ms,
            ),
        );
    }
    match find_first_cont(snap) {
        Some(v) => {
            let details = fmt_cue_out_cont(v.as_str());
            r.push(
                MonitorEvent::new(
                    EventKind::CueOutCont,
                    media_type,
                    key,
                    details.as_str(),
                    stream_id,
                    now_ms,
                ),
            );
        },
        None => {},
    }
    if snap.discontinuity_sequence != prev_dseq {
        let details = fmt_dseq_changed(prev_dseq, snap.discontinuity_sequence);
        r.push(
            MonitorEvent::new(
                EventKind::DiscontinuityChanged,
                media_type,
                key,
                details.as_str(),
                stream_id,
                now_ms,
            ),
        );
    }
    proof {
        assert(ecores(r@) =~~= variant_event_cores(
            prev_mseq,
            prev_dseq,
            was_in_cue_out,
            playlist_model(*snap),
            stream_id@,
            media_type@,
            key@,
            now_ms,
        ));
    }
    r
}


/// A fetched variant body after parsing: a snapshot, a parse failure, or a
/// fetch failure.
pub enum VariantOutcome {
    Fetched(PlaylistSnapshot),
    ParseFailed,
    FetchFailed(LoadError),
}

/// Parses each fetched variant body: a body that reads as a media playlist
/// becomes a snapshot, one that does not is a parse failure, and fetch
/// failures pass through.
pub fn prepare_outcomes(results: Vec<Result<String, LoadError>>) -> (r: Vec<VariantOutcome>)
    ensures
        r@.len() == results@.len(),
        forall|i: int|
            0 <= i < r@.len() ==> match results@[i] {
                Ok(body) => match #[trigger] r@[i] {
                    VariantOutcome::Fetched(p) => parse_media_spec(body@) == Some(
                        playlist_model(p),
                    ),
                    VariantOutcome::ParseFailed => parse_media_spec(body@) is None,
                    VariantOutcome::FetchFailed(_) => false,
                },
                Err(e) => r@[i] == VariantOutcome::FetchFailed(e),
            },
{
    let ghost rsview = results@;
    let mut r: Vec<VariantOutcome> = Vec::new();
    let mut rest = results;
    let n = rest.len();
    let mut i: usize = 0;
    while i < n
        invariant
            i <= n,
            n == rsview.len(),
            rest@ == rsview,
            r@.len() == i,
            forall|k: int|
                0 <= k < i ==> match rsview[k] {
                    Ok(body) => match #[trigger] r@[k] {
                        VariantOutcome::Fetched(p) => parse_media_spec(body@) == Some(
                            playlist_model(p),
                        ),
                        VariantOutcome::ParseFailed => parse_media_spec(body@) is None,
                        VariantOutcome::FetchFailed(_) => false,
                    },
                    Err(e) => r@[k] == VariantOutcome::FetchFailed(e),
                },
        decreases n - i,
    {
        match &rest[i] {
            Ok(body) => {
                match crate::playlist::parse_media_playlist(body.as_str()) {
                    Ok(snap) => {
                        r.push(VariantOutcome::Fetched(snap));
                    },
                    Err(_) => {
                        r.push(VariantOutcome::ParseFailed);
                    },
                }
            },
            Err(e) => {
                r.push(VariantOutcome::FetchFailed(crate::ring::Dup::dup(e)));
            },
        }
        i = i + 1;
    }
    r
}

/// How many of a run of errors are manifest-retrieval errors.
pub open spec fn count_mr(s: Seq<MonitorError>) -> int
    decreases s.len(),
{
    if s.len() == 0 {
        0
    } else {
        count_mr(s.drop_last()) + if s.last().error_type == ErrorType::ManifestRetrieval {
            1int
        } else {
            0int
        }
    }
}

/// How many of a run of errors belong to the stream with identifier `k`.
pub open spec fn count_by_stream(s: Seq<MonitorError>, k: Seq<char>) -> int
    decreases s.len(),
{
    if s.len() == 0 {
        0
    } else {
        count_by_stream(s.drop_last(), k) + if s.last().stream_id@ == k {
            1int
        } else {
            0int
        }
    }
}

/// The errors wrapped by a run of notifications, in order.
pub open spec fn note_errors(s: Seq<crate::webhook::Notification>) -> Seq<MonitorError>
    decreases s.len(),
{
    if s.len() == 0 {
        Seq::empty()
    } else {
        note_errors(s.drop_last()) + match s.last() {
            crate::webhook::Notification::Error { error, .. } => seq![error],
            _ => Seq::empty(),
        }
    }
}

/// The events wrapped by a run of notifications, in order.
pub open spec fn note_events(s: Seq<crate::webhook::Notification>) -> Seq<MonitorEvent>
    decreases s.len(),
{
    if s.len() == 0 {
        Seq::empty()
    } else {
        note_events(s.drop_last()) + match s.last() {
            crate::webhook::Notification::Event { event, .. } => seq![event],
            _ => Seq::empty(),
        }
    }
}

/// Appending a notification appends its wrapped error or event.
pub proof fn lemma_note_push(s: Seq<crate::webhook::Notification>, n: crate::webhook::Notification)
    ensures
        note_errors(s.push(n)) == note_errors(s) + (match n {
            crate::webhook::Notification::Error { error, .. } => seq![error],
            _ => Seq::<MonitorError>::empty(),
        }),
        note_events(s.push(n)) == note_events(s) + (match n {
            crate::webhook::Notification::Event { event, .. } => seq![event],
            _ => Seq::<MonitorEvent>::empty(),
        }),
{
    assert(s.push(n).drop_last() =~= s);
    assert(s.push(n).last() == n);
    assert(note_errors(s.push(n)) == note_errors(s) + (match n {
        crate::webhook::Notification::Error { error, .. } => seq![error],
        _ => Seq::<MonitorError>::empty(),
    }));
    assert(note_events(s.push(n)) == note_events(s) + (match n {
        crate::webhook::Notification::Event { event, .. } => seq![event],
        _ => Seq::<MonitorEvent>::empty(),
    }));
}

/// What the first step of a poll decided for one stream.
pub enum MasterStep {
    /// A transient fetch failure, or a media playlist at the master URL:
    /// nothing to record, nothing to fetch.
    Skip,
    /// A fatal fetch or parse failure: a manifest-retrieval error was
    /// recorded.
    Recorded,
    /// A parsed master playlist: these variant playlists are to be fetched.
    FetchVariants(Vec<VariantTarget>),
}

/// An HLS monitor: identity, configuration, monitored streams, and
/// per-stream state carried across polls. All mutation happens through the
/// poll step functions and the lifecycle methods; time is handed in by the
/// caller.
pub struct Monitor {
    id: String,
    monitor_id: String,
    config: MonitorConfig,
    state: MonitorState,
    streams: Vec<StreamItem>,
    stream_data: AssocMap<StreamData>,
    created_at_ms: u64,
    last_checked_ms: Option<u64>,
    total_errors_per_stream: AssocMap<u64>,
    last_error_time_per_stream: AssocMap<u64>,
    manifest_error_count: u64,
}

impl Monitor {
    /// The monitor's random identifier.
    pub closed spec fn spec_id(&self) -> Seq<char> {
        self.id@
    }

    /// The caller-facing identifier (the random one unless overridden).
    pub closed spec fn spec_monitor_id(&self) -> Seq<char> {
        self.monitor_id@
    }

    /// The lifecycle state.
    pub closed spec fn spec_state(&self) -> MonitorState {
        self.state
    }

    /// The configuration.
    pub closed spec fn spec_config(&self) -> MonitorConfig {
        self.config
    }

    /// The monitored streams, in order.
    pub closed spec fn spec_streams(&self) -> Seq<StreamItem> {
        self.streams@
    }

    /// The per-stream state, keyed by base URL.
    pub closed spec fn spec_data(&self) -> Seq<(Seq<char>, StreamData)> {
        self.stream_data@
    }

    /// The per-stream state bound to a base URL, if any.
    pub open spec fn spec_data_get(&self, k: Seq<char>) -> Option<StreamData> {
        crate::assoc::assoc_get(self.spec_data(), k)
    }

    /// The creation time.
    pub closed spec fn spec_created_at(&self) -> u64 {
        self.created_at_ms
    }

    /// When the monitor last began a poll, if ever.
    pub closed spec fn spec_last_checked(&self) -> Option<u64> {
        self.last_checked_ms
    }

    /// Cumulative error counts per stream identifier.
    pub closed spec fn spec_totals(&self) -> Seq<(Seq<char>, u64)> {
        self.total_errors_per_stream@
    }

    /// The last error time per stream identifier.
    pub closed spec fn spec_last_error_times(&self) -> Seq<(Seq<char>, u64)> {
        self.last_error_time_per_stream@
    }

    /// How many manifest-retrieval errors the monitor has recorded.
    pub closed spec fn spec_manifest_error_count(&self) -> u64 {
        self.manifest_error_count
    }

    /// The maps have unique keys and every per-stream state is well-formed,
    /// with ring capacities as configured.
    pub closed spec fn wf(&self) -> bool {
        &&& self.stream_data.wf()
        &&& self.total_errors_per_stream.wf()
        &&& self.last_error_time_per_stream.wf()
        &&& forall|i: int|
            0 <= i < self.stream_data@.len() ==> (#[trigger] self.stream_data@[i].1).wf()
        &&& forall|i: int|
            0 <= i < self.stream_data@.len() ==> (#[trigger] self.stream_data@[i].1).errors.cap()
                == self.config.error_limit
        &&& forall|i: int|
            0 <= i < self.stream_data@.len() ==> (#[trigger] self.stream_data@[i].1).events.cap()
                == self.config.event_limit
    }

    /// Every per-stream state was last touched no later than `now`.
    pub open spec fn time_ok(&self, now: u64) -> bool {
        forall|i: int|
            0 <= i < self.spec_data().len() ==> (#[trigger] self.spec_data()[i].1).last_fetch_ms
                <= now
    }

    /// A fresh monitor: Idle, with a random identity, the given streams, and
    /// no state yet.
    pub fn new(streams: Vec<StreamItem>, config: MonitorConfig, now_ms: u64) -> (r: Monitor)
        ensures
            r.wf(),
            r.spec_state() == MonitorState::Idle,
            r.spec_streams() == streams@,
            r.spec_config() == config,
            r.spec_created_at() == now_ms,
            r.spec_last_checked() is None,
            r.spec_data() == Seq::<(Seq<char>, StreamData)>::empty(),
            r.spec_totals() == Seq::<(Seq<char>, u64)>::empty(),
            r.spec_last_error_times() == Seq::<(Seq<char>, u64)>::empty(),
            r.spec_manifest_error_count() == 0,
            r.spec_monitor_id() == r.spec_id(),
            r.time_ok(now_ms),
    {
        let id = crate::ids::fresh_id();
        let monitor_id = id.clone();
        Monitor {
            id,
            monitor_id,
            config,
            state: MonitorState::Idle,
            streams,
            stream_data: AssocMap::new(),
            created_at_ms: now_ms,
            last_checked_ms: None,
            total_errors_per_stream: AssocMap::new(),
            last_error_time_per_stream: AssocMap::new(),
            manifest_error_count: 0,
        }
    }

    /// The same monitor under a caller-chosen identifier.
    pub fn with_monitor_id(self, monitor_id: &str) -> (r: Monitor)
        ensures
            r.spec_monitor_id() == monitor_id@,
            r.spec_id() == self.spec_id(),
            r.spec_state() == self.spec_state(),
            r.spec_streams() == self.spec_streams(),
            r.spec_config() == self.spec_config(),
            r.spec_data() == self.spec_data(),
            r.wf() == self.wf(),
    {
        Monitor { monitor_id: monitor_id.to_owned(), ..self }
    }

    /// The monitor's random identifier.
    pub fn id(&self) -> (r: &str)
        ensures
            r@ == self.spec_id(),
    {
        self.id.as_str()
    }

    /// The caller-facing identifier.
    pub fn monitor_id(&self) -> (r: &str)
        ensures
            r@ == self.spec_monitor_id(),
    {
        self.monitor_id.as_str()
    }

    /// The creation time.
    pub fn created_at(&self) -> (r: u64)
        ensures
            r == self.spec_created_at(),
    {
        self.created_at_ms
    }

    /// The configuration.
    pub fn config(&self) -> (r: &MonitorConfig)
        ensures
            *r == self.spec_config(),
    {
        &self.config
    }

    /// The lifecycle state.
    pub fn state(&self) -> (r: MonitorState)
        ensures
            r == self.spec_state(),
    {
        self.state
    }

    /// When the monitor last began a poll, if ever.
    pub fn last_checked(&self) -> (r: Option<u64>)
        ensures
            r == self.spec_last_checked(),
    {
        self.last_checked_ms
    }

    /// The monitored streams, in order.
    pub fn streams(&self) -> (r: Vec<StreamItem>)
        ensures
            r@.len() == self.spec_streams().len(),
            forall|i: int| 0 <= i < r@.len() ==> r@[i] == self.spec_streams()[i],
    {
        let mut r: Vec<StreamItem> = Vec::new();
        let n = self.streams.len();
        let mut i: usize = 0;
        while i < n
            invariant
                i <= n,
                n == self.streams@.len(),
                r@.len() == i,
                forall|j: int| 0 <= j < i ==> r@[j] == self.streams@[j],
            decreases n - i,
        {
            r.push(crate::ring::Dup::dup(&self.streams[i]));
            i = i + 1;
        }
        r
    }

    /// Appends streams to the monitored list.
    pub fn add_streams(&mut self, new_streams: Vec<StreamItem>)
        ensures
            final(self).spec_streams() == old(self).spec_streams() + new_streams@,
            final(self).spec_state() == old(self).spec_state(),
            final(self).spec_config() == old(self).spec_config(),
            final(self).spec_data() == old(self).spec_data(),
            final(self).wf() == old(self).wf(),
            final(self).spec_monitor_id() == old(self).spec_monitor_id(),
    {
        let mut ns = new_streams;
        self.streams.append(&mut ns);
    }

    /// Removes the stream with the given identifier, dropping its state and
    /// counters; an unknown identifier is reported back.
    pub fn remove_stream(&mut self, stream_id: &str) -> (r: Result<(), String>)
        requires
            old(self).wf(),
        ensures
            final(self).wf(),
            final(self).spec_state() == old(self).spec_state(),
            final(self).spec_config() == old(self).spec_config(),
            final(self).spec_monitor_id() == old(self).spec_monitor_id(),
            match r {
                Ok(_) => (exists|i: int|
                    0 <= i < old(self).spec_streams().len() && old(self).spec_streams()[i].id@
                        == stream_id@) && final(self).spec_streams().len() == old(self).spec_streams().len() - 1,
                Err(m) => *final(self) == *old(self) && (forall|i: int|
                    0 <= i < old(self).spec_streams().len() ==> old(self).spec_streams()[i].id@
                        != stream_id@),
            },
    {
        let n = self.streams.len();
        let mut i: usize = 0;
        while i < n
            invariant
                i <= n,
                n == self.streams@.len(),
                old(self).wf(),
                *self == *old(self),
                forall|j: int| 0 <= j < i ==> self.streams@[j].id@ != stream_id@,
            decreases n - i,
        {
            if crate::strutil::eq_str(self.streams[i].id.as_str(), stream_id) {
                let ghost olddata = self.stream_data@;
                let removed = self.streams.remove(i);
                let base = get_base_url(removed.url.as_str());
                self.stream_data.remove(base.as_str());
                self.total_errors_per_stream.remove(stream_id);
                self.last_error_time_per_stream.remove(stream_id);
                proof {
                    assert forall|j: int|
                        0 <= j < self.stream_data@.len() implies (#[trigger] self.stream_data@[j]).1.wf()
                        && self.stream_data@[j].1.errors.cap() == self.config.error_limit
                        && self.stream_data@[j].1.events.cap() == self.config.event_limit by {
                        match crate::assoc::spec_index_of(olddata, base@) {
                            Some(w) => {
                                if j < w {
                                    assert(self.stream_data@[j] == olddata[j]);
                                } else {
                                    assert(self.stream_data@[j] == olddata[j + 1]);
                                }
                            },
                            None => {
                                assert(self.stream_data@[j] == olddata[j]);
                            },
                        }
                    }
                }
                return Ok(());
            }
            i = i + 1;
        }
        let mut m = "Stream with ID '".to_owned();
        m.append(stream_id);
        m.append("' not found");
        Err(m)
    }

    /// Starts the monitor: Idle or Stopped becomes Active; an Active monitor
    /// is left as it is. A monitor still stopping is also left as it is: the
    /// polling loop must first observe the stop. Every move is one of the
    /// four legal transitions.
    pub fn start(&mut self) -> (r: Result<(), String>)
        ensures
            r is Ok,
            final(self).spec_state() == if old(self).spec_state() == MonitorState::Idle
                || old(self).spec_state() == MonitorState::Stopped {
                MonitorState::Active
            } else {
                old(self).spec_state()
            },
            final(self).spec_state() == old(self).spec_state() || crate::state::legal_transition(
                old(self).spec_state(),
                final(self).spec_state(),
            ),
            final(self).spec_streams() == old(self).spec_streams(),
            final(self).spec_config() == old(self).spec_config(),
            final(self).spec_data() == old(self).spec_data(),
            final(self).wf() == old(self).wf(),
            final(self).spec_monitor_id() == old(self).spec_monitor_id(),
    {
        if self.state.can_transition_to(MonitorState::Active) {
            self.state = MonitorState::Active;
        }
        Ok(())
    }

    /// Requests a stop: an Active monitor becomes Stopping; any other state
    /// is left as it is. Every move is one of the four legal transitions.
    pub fn stop(&mut self)
        ensures
            final(self).spec_state() == if old(self).spec_state() == MonitorState::Active {
                MonitorState::Stopping
            } else {
                old(self).spec_state()
            },
            final(self).spec_state() == old(self).spec_state() || crate::state::legal_transition(
                old(self).spec_state(),
                final(self).spec_state(),
            ),
            final(self).spec_streams() == old(self).spec_streams(),
            final(self).spec_config() == old(self).spec_config(),
            final(self).spec_data() == old(self).spec_data(),
            final(self).wf() == old(self).wf(),
            final(self).spec_monitor_id() == old(self).spec_monitor_id(),
    {
        if matches!(self.state, MonitorState::Active) {
            self.state = MonitorState::Stopping;
        }
    }

    /// The top of one polling-loop iteration: an Active monitor continues; a
    /// Stopping monitor becomes Stopped and the loop ends; any other state
    /// ends the loop unchanged. Every move is one of the four legal
    /// transitions.
    pub fn poll_cycle_begin(&mut self) -> (cont: bool)
        ensures
            cont == (old(self).spec_state() == MonitorState::Active),
            final(self).spec_state() == if old(self).spec_state() == MonitorState::Stopping {
                MonitorState::Stopped
            } else {
                old(self).spec_state()
            },
            final(self).spec_state() == old(self).spec_state() || crate::state::legal_transition(
                old(self).spec_state(),
                final(self).spec_state(),
            ),
            final(self).spec_streams() == old(self).spec_streams(),
            final(self).spec_config() == old(self).spec_config(),
            final(self).spec_data() == old(self).spec_data(),
            final(self).wf() == old(self).wf(),
            final(self).spec_monitor_id() == old(self).spec_monitor_id(),
            final(self).spec_last_checked() == old(self).spec_last_checked(),
    {
        match self.state {
            MonitorState::Active => true,
            MonitorState::Stopping => {
                self.state = MonitorState::Stopped;
                false
            },
            _ => false,
        }
    }

    /// Notes that a poll began at `now_ms`.
    pub fn begin_poll(&mut self, now_ms: u64)
        ensures
            final(self).spec_last_checked() == Some(now_ms),
            final(self).spec_state() == old(self).spec_state(),
            final(self).spec_streams() == old(self).spec_streams(),
            final(self).spec_config() == old(self).spec_config(),
            final(self).spec_data() == old(self).spec_data(),
            final(self).wf() == old(self).wf(),
            final(self).spec_monitor_id() == old(self).spec_monitor_id(),
    {
        self.last_checked_ms = Some(now_ms);
    }

    /// Empties every stream's error ring.
    pub fn clear_errors(&mut self)
        requires
            old(self).wf(),
        ensures
            final(self).wf(),
            final(self).spec_data().len() == old(self).spec_data().len(),
            forall|i: int|
                0 <= i < final(self).spec_data().len() ==> (#[trigger] final(self).spec_data()[i]).1.errors@ == Seq::<MonitorError>::empty(),
            forall|i: int|
                0 <= i < final(self).spec_data().len() ==> final(self).spec_data()[i].0 == old(self).spec_data()[i].0 && (#[trigger] final(self).spec_data()[i]).1.events@ == old(self).spec_data()[i].1.events@,
            final(self).spec_state() == old(self).spec_state(),
            final(self).spec_streams() == old(self).spec_streams(),
            final(self).spec_config() == old(self).spec_config(),
            final(self).spec_monitor_id() == old(self).spec_monitor_id(),
    {
        let n = self.stream_data.len();
        let mut i: usize = 0;
        while i < n
            invariant
                i <= n,
                old(self).wf(),
                n == self.stream_data@.len(),
                n == old(self).stream_data@.len(),
                self.stream_data.wf(),
                self.total_errors_per_stream == old(self).total_errors_per_stream,
                self.last_error_time_per_stream == old(self).last_error_time_per_stream,
                self.state == old(self).state,
                self.streams == old(self).streams,
                self.config == old(self).config,
                self.monitor_id == old(self).monitor_id,
                self.id == old(self).id,
                self.created_at_ms == old(self).created_at_ms,
                self.last_checked_ms == old(self).last_checked_ms,
                self.manifest_error_count == old(self).manifest_error_count,
                forall|j: int|
                    0 <= j < n ==> (#[trigger] self.stream_data@[j]).0 == old(self).stream_data@[j].0,
                forall|j: int|
                    0 <= j < i ==> (#[trigger] self.stream_data@[j]).1.errors@ == Seq::<
                        MonitorError,
                    >::empty(),
                forall|j: int|
                    i <= j < n ==> (#[trigger] self.stream_data@[j]).1 == old(self).stream_data@[j].1,
                forall|j: int|
                    0 <= j < i ==> (#[trigger] self.stream_data@[j]).1.events@ == old(self).stream_data@[j].1.events@,
                forall|j: int|
                    0 <= j < i ==> (#[trigger] self.stream_data@[j]).1.wf() && self.stream_data@[j].1.errors.cap()
                        == old(self).stream_data@[j].1.errors.cap() && self.stream_data@[j].1.events.cap()
                        == old(self).stream_data@[j].1.events.cap(),
            decreases n - i,
        {
            let mut sd = self.stream_data.replace_at(i, StreamData::new(0, 0, 0));
            sd.errors.clear();
            let _ = self.stream_data.replace_at(i, sd);
            i = i + 1;
        }
        proof {
            assert(final(self).wf()) by {
                assert(forall|j: int|
                    0 <= j < n ==> (#[trigger] self.stream_data@[j]).1.wf());
            }
        }
    }
}


/// Whether two per-stream states agree on everything except the error ring's
/// contents.
pub open spec fn sd_like(a: StreamData, b: StreamData) -> bool {
    &&& a.variants@ == b.variants@
    &&& a.known_variants@ == b.known_variants@
    &&& a.variant_failures@ == b.variant_failures@
    &&& a.last_content_change_ms == b.last_content_change_ms
    &&& a.last_fetch_ms == b.last_fetch_ms
    &&& a.events@ == b.events@
    &&& a.was_stale == b.was_stale
    &&& a.errors.cap() == b.errors.cap()
    &&& a.events.cap() == b.events.cap()
}

/// Whether a per-stream state is freshly created at `now`: empty maps and
/// rings, both timestamps at `now`, not stale.
pub open spec fn sd_fresh(sd: StreamData, now: u64) -> bool {
    &&& sd.variants@ == Seq::<(Seq<char>, VariantState)>::empty()
    &&& sd.known_variants@ == Seq::<(Seq<char>, String)>::empty()
    &&& sd.variant_failures@ == Seq::<(Seq<char>, u32)>::empty()
    &&& sd.errors@ == Seq::<MonitorError>::empty()
    &&& sd.events@ == Seq::<MonitorEvent>::empty()
    &&& sd.last_content_change_ms == now
    &&& sd.last_fetch_ms == now
    &&& !sd.was_stale
}

/// The core of the manifest-retrieval error for a failed master fetch.
pub open spec fn master_fetch_core(
    e: LoadError,
    stream_url: Seq<char>,
    stream_id: Seq<char>,
    now: u64,
) -> ErrorCore {
    ErrorCore {
        timestamp_ms: now,
        error_type: ErrorType::ManifestRetrieval,
        media_type: "MASTER"@,
        variant: "master"@,
        details: msg_fetch_master(load_error_text(e)),
        stream_url,
        stream_id,
        status_code: Some(
            match spec_status_code(e) {
                Some(s) => s,
                None => 0,
            },
        ),
    }
}

/// The core of the manifest-retrieval error for an unreadable master.
pub open spec fn master_parse_core(stream_url: Seq<char>, stream_id: Seq<char>, now: u64) -> ErrorCore {
    ErrorCore {
        timestamp_ms: now,
        error_type: ErrorType::ManifestRetrieval,
        media_type: "MASTER"@,
        variant: "master"@,
        details: msg_parse_master("invalid master playlist"@),
        stream_url,
        stream_id,
        status_code: None,
    }
}

impl Monitor {
    /// Binds a stream's state, keeping the monitor well-formed.
    fn put_stream_data(&mut self, base: &str, sd: StreamData)
        requires
            old(self).wf(),
            sd.wf(),
            sd.errors.cap() == old(self).spec_config().error_limit,
            sd.events.cap() == old(self).spec_config().event_limit,
        ensures
            final(self).wf(),
            final(self).spec_data_get(base@) == Some(sd),
            forall|k: Seq<char>|
                k != base@ ==> final(self).spec_data_get(k) == old(self).spec_data_get(k),
            forall|j: int|
                0 <= j < final(self).spec_data().len() ==> ((#[trigger] final(self).spec_data()[j]).1 == sd || crate::assoc::assoc_has(
                    old(self).spec_data(),
                    final(self).spec_data()[j].0,
                )),
            forall|j: int|
                0 <= j < final(self).spec_data().len() ==> ((#[trigger] final(self).spec_data()[j]).1 == sd || (exists|i: int|
                    0 <= i < old(self).spec_data().len() && old(self).spec_data()[i].1 == final(self).spec_data()[j].1)),
            final(self).spec_state() == old(self).spec_state(),
            final(self).spec_streams() == old(self).spec_streams(),
            final(self).spec_config() == old(self).spec_config(),
            final(self).spec_monitor_id() == old(self).spec_monitor_id(),
            final(self).spec_last_checked() == old(self).spec_last_checked(),
            final(self).spec_totals() == old(self).spec_totals(),
            final(self).spec_last_error_times() == old(self).spec_last_error_times(),
            final(self).spec_manifest_error_count() == old(self).spec_manifest_error_count(),
            final(self).spec_created_at() == old(self).spec_created_at(),
            final(self).spec_id() == old(self).spec_id(),
    {
        let ghost olddata = self.stream_data@;
        self.stream_data.set(base, sd);
        proof {
            assert forall|k: Seq<char>|
                k != base@ implies crate::assoc::assoc_get(self.stream_data@, k)
                == crate::assoc::assoc_get(olddata, k) by {
                assert(self.stream_data.spec_get(k) == crate::assoc::assoc_get(
                    self.stream_data@,
                    k,
                ));
            }
            match crate::assoc::spec_index_of(olddata, base@) {
                Some(w) => {
                    assert forall|j: int|
                        0 <= j < self.stream_data@.len() implies ((#[trigger] self.stream_data@[j]).1
                        == sd || (0 <= j < olddata.len() && olddata[j] == self.stream_data@[j])) by {
                        if j != w {
                            assert(self.stream_data@[j] == olddata[j]);
                        }
                    }
                    assert forall|j: int|
                        0 <= j < self.stream_data@.len() implies (#[trigger] self.stream_data@[j]).1.wf()
                        && self.stream_data@[j].1.errors.cap() == self.config.error_limit
                        && self.stream_data@[j].1.events.cap() == self.config.event_limit by {
                        if j != w {
                            assert(self.stream_data@[j] == olddata[j]);
                        }
                    }
                    assert forall|j: int|
                        0 <= j < self.stream_data@.len() implies ((#[trigger] self.stream_data@[j]).1
                        == sd || crate::assoc::assoc_has(olddata, self.stream_data@[j].0)) by {
                        if j != w {
                            assert(self.stream_data@[j] == olddata[j]);
                            assert(crate::assoc::assoc_has(olddata, olddata[j].0));
                        }
                    }
                },
                None => {
                    assert forall|j: int|
                        0 <= j < self.stream_data@.len() implies (#[trigger] self.stream_data@[j]).1.wf()
                        && self.stream_data@[j].1.errors.cap() == self.config.error_limit
                        && self.stream_data@[j].1.events.cap() == self.config.event_limit by {
                        if j < olddata.len() {
                            assert(self.stream_data@[j] == olddata[j]);
                        } else {
                            assert(self.stream_data@[j] == (base@, sd));
                        }
                    }
                    assert forall|j: int|
                        0 <= j < self.stream_data@.len() implies ((#[trigger] self.stream_data@[j]).1
                        == sd || crate::assoc::assoc_has(olddata, self.stream_data@[j].0)) by {
                        if j < olddata.len() {
                            assert(self.stream_data@[j] == olddata[j]);
                            assert(crate::assoc::assoc_has(olddata, olddata[j].0));
                        }
                    }
                    assert forall|j: int|
                        0 <= j < self.stream_data@.len() implies ((#[trigger] self.stream_data@[j]).1
                        == sd || (0 <= j < olddata.len() && olddata[j] == self.stream_data@[j])) by {
                        if j < olddata.len() {
                            assert(self.stream_data@[j] == olddata[j]);
                        }
                    }
                },
            }
        }
    }

    /// Takes a stream's state out, or creates fresh state first seen at
    /// `now_ms`.
    fn take_stream_data(&mut self, base: &str, now_ms: u64) -> (r: StreamData)
        requires
            old(self).wf(),
        ensures
            final(self).wf(),
            r.wf(),
            r.errors.cap() == old(self).spec_config().error_limit,
            r.events.cap() == old(self).spec_config().event_limit,
            match old(self).spec_data_get(base@) {
                Some(sd) => r == sd,
                None => sd_fresh(r, now_ms),
            },
            final(self).spec_data_get(base@) is None,
            forall|k: Seq<char>|
                k != base@ ==> final(self).spec_data_get(k) == old(self).spec_data_get(k),
            forall|j: int|
                0 <= j < final(self).spec_data().len() ==> (exists|i: int|
                    0 <= i < old(self).spec_data().len() && old(self).spec_data()[i] == #[trigger] final(self).spec_data()[j]),
            final(self).spec_state() == old(self).spec_state(),
            final(self).spec_streams() == old(self).spec_streams(),
            final(self).spec_config() == old(self).spec_config(),
            final(self).spec_monitor_id() == old(self).spec_monitor_id(),
            final(self).spec_last_checked() == old(self).spec_last_checked(),
            final(self).spec_totals() == old(self).spec_totals(),
            final(self).spec_last_error_times() == old(self).spec_last_error_times(),
            final(self).spec_manifest_error_count() == old(self).spec_manifest_error_count(),
            final(self).spec_created_at() == old(self).spec_created_at(),
            final(self).spec_id() == old(self).spec_id(),
    {
        let ghost olddata = self.stream_data@;
        let taken = self.stream_data.remove(base);
        proof {
            assert forall|k: Seq<char>|
                k != base@ implies crate::assoc::assoc_get(self.stream_data@, k)
                == crate::assoc::assoc_get(olddata, k) by {
                assert(self.stream_data.spec_get(k) == crate::assoc::assoc_get(
                    self.stream_data@,
                    k,
                ));
            }
            match crate::assoc::spec_index_of(olddata, base@) {
                Some(w) => {
                    assert forall|j: int|
                        0 <= j < self.stream_data@.len() implies (exists|i: int|
                        0 <= i < olddata.len() && olddata[i] == (#[trigger] self.stream_data@[j])) by {
                        if j < w {
                            assert(olddata[j] == self.stream_data@[j]);
                        } else {
                            assert(olddata[j + 1] == self.stream_data@[j]);
                        }
                    }
                    crate::assoc::lemma_assoc_get_at(olddata, w);
                },
                None => {
                    assert forall|j: int|
                        0 <= j < self.stream_data@.len() implies (exists|i: int|
                        0 <= i < olddata.len() && olddata[i] == (#[trigger] self.stream_data@[j])) by {
                        assert(olddata[j] == self.stream_data@[j]);
                    }
                },
            }
            assert forall|j: int|
                0 <= j < self.stream_data@.len() implies (#[trigger] self.stream_data@[j]).1.wf()
                && self.stream_data@[j].1.errors.cap() == self.config.error_limit
                && self.stream_data@[j].1.events.cap() == self.config.event_limit by {
                let i = choose|i: int|
                    0 <= i < olddata.len() && olddata[i] == self.stream_data@[j];
                assert(olddata[i].1.wf());
            }
        }
        match taken {
            Some(sd) => sd,
            None => StreamData::new(self.config.error_limit, self.config.event_limit, now_ms),
        }
    }

    /// Records one master-level error: pushes it into the stream's error
    /// ring (creating the stream's state if needed) and wraps it in a
    /// notification.
    fn record_master_error(&mut self, base: &str, err: MonitorError, now_ms: u64) -> (r: (
        Vec<MonitorError>,
        Vec<crate::webhook::Notification>,
    ))
        requires
            old(self).wf(),
            old(self).time_ok(now_ms),
        ensures
            final(self).wf(),
            final(self).time_ok(now_ms),
            final(self).spec_state() == old(self).spec_state(),
            final(self).spec_streams() == old(self).spec_streams(),
            final(self).spec_config() == old(self).spec_config(),
            final(self).spec_monitor_id() == old(self).spec_monitor_id(),
            final(self).spec_last_checked() == old(self).spec_last_checked(),
            r.0@.len() == 1,
            r.0@[0] == err,
            note_errors(r.1@) == r.0@,
            note_events(r.1@) == Seq::<MonitorEvent>::empty(),
            match final(self).spec_data_get(base@) {
                Some(nsd) => {
                    &&& nsd.errors@ == crate::ring::ring_push(
                        (match old(self).spec_data_get(base@) {
                            Some(osd) => osd.errors@,
                            None => Seq::<MonitorError>::empty(),
                        }),
                        err,
                        old(self).spec_config().error_limit as nat,
                    )
                    &&& (match old(self).spec_data_get(base@) {
                        Some(osd) => sd_like(nsd, osd),
                        None => nsd.last_fetch_ms == now_ms && !nsd.was_stale,
                    })
                },
                None => false,
            },
            forall|k: Seq<char>|
                k != base@ ==> final(self).spec_data_get(k) == old(self).spec_data_get(k),
    {
        proof {
            if old(self).spec_data_get(base@) is Some {
                crate::assoc::lemma_assoc_get_some(old(self).spec_data(), base@);
            }
        }
        let mut sd = self.take_stream_data(base, now_ms);
        proof {
            assert(sd.last_fetch_ms <= now_ms);
        }
        sd.errors.push(crate::ring::Dup::dup(&err));
        let note = crate::webhook::Notification::Error {
            monitor_id: self.monitor_id.clone(),
            error: crate::ring::Dup::dup(&err),
        };
        self.put_stream_data(base, sd);
        proof {
            assert forall|j: int|
                0 <= j < self.stream_data@.len() implies (#[trigger] self.stream_data@[j]).1.last_fetch_ms
                <= now_ms by {
                if self.stream_data@[j].1 != sd {
                    let i = choose|i: int|
                        0 <= i < old(self).spec_data().len() && old(self).spec_data()[i].1
                            == self.stream_data@[j].1;
                    assert(old(self).spec_data()[i].1.last_fetch_ms <= now_ms);
                }
            }
        }
        let mut errors: Vec<MonitorError> = Vec::new();
        errors.push(err);
        let mut notes: Vec<crate::webhook::Notification> = Vec::new();
        notes.push(note);
        proof {
            lemma_note_push(Seq::<crate::webhook::Notification>::empty(), notes@[0]);
            assert(notes@ =~= Seq::<crate::webhook::Notification>::empty().push(notes@[0]));
            assert(note_errors(Seq::<crate::webhook::Notification>::empty()) =~= Seq::<
                MonitorError,
            >::empty());
            assert(note_events(Seq::<crate::webhook::Notification>::empty()) =~= Seq::<
                MonitorEvent,
            >::empty());
            assert(note_errors(notes@) =~= errors@);
            assert(note_events(notes@) =~= Seq::<MonitorEvent>::empty());
        }
        (errors, notes)
    }

    /// The first step of a poll for one stream: judges the master fetch.
    /// A transient failure or a media playlist at the master URL is skipped
    /// silently. A failure on the final attempt, or an unreadable master, is
    /// recorded as a manifest-retrieval error. A parsed master yields the
    /// variant targets to fetch.
    #[verifier::rlimit(100)]
    pub fn process_master(
        &mut self,
        stream_index: usize,
        master_result: Result<String, LoadError>,
        now_ms: u64,
    ) -> (r: (MasterStep, Vec<MonitorError>, Vec<crate::webhook::Notification>))
        requires
            old(self).wf(),
            stream_index < old(self).spec_streams().len(),
            old(self).time_ok(now_ms),
        ensures
            final(self).wf(),
            final(self).time_ok(now_ms),
            final(self).spec_state() == old(self).spec_state(),
            final(self).spec_streams() == old(self).spec_streams(),
            final(self).spec_config() == old(self).spec_config(),
            final(self).spec_monitor_id() == old(self).spec_monitor_id(),
            final(self).spec_last_checked() == old(self).spec_last_checked(),
            ({
                let stream = old(self).spec_streams()[stream_index as int];
                let base = base_url_of(stream.url@);
                match master_result {
                    Err(e) => if spec_is_last_retry(e) {
                        &&& r.0 is Recorded
                        &&& r.1@.len() == 1
                        &&& r.1@[0].core_data() == master_fetch_core(e, stream.url@, stream.id@, now_ms)
                        &&& note_errors(r.2@) == r.1@
                        &&& note_events(r.2@) == Seq::<MonitorEvent>::empty()
                        &&& (match final(self).spec_data_get(base) {
                            Some(nsd) => {
                                &&& nsd.errors@ == crate::ring::ring_push(
                                    (match old(self).spec_data_get(base) {
                                        Some(osd) => osd.errors@,
                                        None => Seq::<MonitorError>::empty(),
                                    }),
                                    r.1@[0],
                                    old(self).spec_config().error_limit as nat,
                                )
                                &&& (match old(self).spec_data_get(base) {
                                    Some(osd) => sd_like(nsd, osd),
                                    None => nsd.last_fetch_ms == now_ms && !nsd.was_stale,
                                })
                            },
                            None => false,
                        })
                        &&& (forall|k: Seq<char>|
                            k != base ==> final(self).spec_data_get(k) == old(self).spec_data_get(
                                k,
                            ))
                    } else {
                        r.0 is Skip && r.1@.len() == 0 && r.2@.len() == 0 && final(self).spec_data() == old(self).spec_data()
                    },
                    Ok(body) => if !crate::playlist::is_master_spec(body@) {
                        r.0 is Skip && r.1@.len() == 0 && r.2@.len() == 0 && final(self).spec_data() == old(self).spec_data()
                    } else {
                        match parse_master_spec(body@) {
                            Some(mm) => {
                                &&& (r.0 matches MasterStep::FetchVariants(ts) && ts@.map(
                                    |i: int, t: VariantTarget| target_model(t),
                                ) == targets_spec(base, mm))
                                &&& r.1@.len() == 0
                                &&& r.2@.len() == 0
                                &&& final(self).spec_data() == old(self).spec_data()
                            },
                            None => {
                                &&& r.0 is Recorded
                                &&& r.1@.len() == 1
                                &&& r.1@[0].core_data() == master_parse_core(
                                    stream.url@,
                                    stream.id@,
                                    now_ms,
                                )
                                &&& note_errors(r.2@) == r.1@
                                &&& note_events(r.2@) == Seq::<MonitorEvent>::empty()
                                &&& (match final(self).spec_data_get(base) {
                                    Some(nsd) => nsd.errors@ == crate::ring::ring_push(
                                        (match old(self).spec_data_get(base) {
                                            Some(osd) => osd.errors@,
                                            None => Seq::<MonitorError>::empty(),
                                        }),
                                        r.1@[0],
                                        old(self).spec_config().error_limit as nat,
                                    ),
                                    None => false,
                                })
                                &&& (forall|k: Seq<char>|
                                    k != base ==> final(self).spec_data_get(k) == old(self).spec_data_get(k))
                            },
                        }
                    },
                }
            }),
    {
        let stream_url = self.streams[stream_index].url.clone();
        let sid = self.streams[stream_index].id.clone();
        let base = get_base_url(stream_url.as_str());
        match master_result {
            Err(e) => {
                if e.is_last_retry() {
                    let reason = e.describe();
                    let details = fmt_fetch_master(reason.as_str());
                    let sc = match e.status_code() {
                        Some(s) => s,
                        None => 0,
                    };
                    let err = MonitorError::new(
                        ErrorType::ManifestRetrieval,
                        "MASTER",
                        "master",
                        details.as_str(),
                        stream_url.as_str(),
                        sid.as_str(),
                        now_ms,
                    ).with_status_code(sc);
                    let (errors, notes) = self.record_master_error(base.as_str(), err, now_ms);
                    (MasterStep::Recorded, errors, notes)
                } else {
                    (MasterStep::Skip, Vec::new(), Vec::new())
                }
            },
            Ok(body) => {
                if !crate::playlist::is_master_playlist(body.as_str()) {
                    (MasterStep::Skip, Vec::new(), Vec::new())
                } else {
                    match crate::playlist::parse_master_playlist(body.as_str()) {
                        Ok(m) => {
                            let ts = master_targets(base.as_str(), &m);
                            (MasterStep::FetchVariants(ts), Vec::new(), Vec::new())
                        },
                        Err(_) => {
                            let details = fmt_parse_master("invalid master playlist");
                            let err = MonitorError::new(
                                ErrorType::ManifestRetrieval,
                                "MASTER",
                                "master",
                                details.as_str(),
                                stream_url.as_str(),
                                sid.as_str(),
                                now_ms,
                            );
                            let (errors, notes) = self.record_master_error(
                                base.as_str(),
                                err,
                                now_ms,
                            );
                            (MasterStep::Recorded, errors, notes)
                        },
                    }
                }
            },
        }
    }
}


/// Records a batch of errors for one stream: each goes into the error ring,
/// the outgoing notification list, and the poll's error list, in order.
fn record_errors(
    sd: &mut StreamData,
    notes: &mut Vec<crate::webhook::Notification>,
    all: &mut Vec<MonitorError>,
    errs: Vec<MonitorError>,
    mid: &String,
)
    requires
        old(sd).wf(),
    ensures
        final(sd).wf(),
        final(sd).variants@ == old(sd).variants@,
        final(sd).known_variants@ == old(sd).known_variants@,
        final(sd).variant_failures@ == old(sd).variant_failures@,
        final(sd).last_content_change_ms == old(sd).last_content_change_ms,
        final(sd).last_fetch_ms == old(sd).last_fetch_ms,
        final(sd).was_stale == old(sd).was_stale,
        final(sd).events@ == old(sd).events@,
        final(sd).errors.cap() == old(sd).errors.cap(),
        final(sd).events.cap() == old(sd).events.cap(),
        final(sd).errors@ == crate::ring::ring_push_all(old(sd).errors@, errs@, old(sd).errors.cap()),
        final(all)@ == old(all)@ + errs@,
        note_errors(final(notes)@) == note_errors(old(notes)@) + errs@,
        note_events(final(notes)@) == note_events(old(notes)@),
    decreases errs@.len(),
{
    let ghost errsv = errs@;
    let mut errs = errs;
    let n = errs.len();
    let mut k: usize = 0;
    while k < n
        invariant
            k <= n,
            n == errsv.len(),
            errs@ == errsv,
            sd.wf(),
            sd.variants@ == old(sd).variants@,
            sd.known_variants@ == old(sd).known_variants@,
            sd.variant_failures@ == old(sd).variant_failures@,
            sd.last_content_change_ms == old(sd).last_content_change_ms,
            sd.last_fetch_ms == old(sd).last_fetch_ms,
            sd.was_stale == old(sd).was_stale,
            sd.events@ == old(sd).events@,
            sd.errors.cap() == old(sd).errors.cap(),
            sd.events.cap() == old(sd).events.cap(),
            sd.errors@ == crate::ring::ring_push_all(
                old(sd).errors@,
                errsv.take(k as int),
                old(sd).errors.cap(),
            ),
            all@ == old(all)@ + errsv.take(k as int),
            note_errors(notes@) == note_errors(old(notes)@) + errsv.take(k as int),
            note_events(notes@) == note_events(old(notes)@),
        decreases n - k,
    {
        let ghost prenotes = notes@;
        let e = &errs[k];
        sd.errors.push(crate::ring::Dup::dup(e));
        notes.push(
            crate::webhook::Notification::Error {
                monitor_id: mid.clone(),
                error: crate::ring::Dup::dup(e),
            },
        );
        all.push(crate::ring::Dup::dup(e));
        proof {
            assert(errsv.take(k as int + 1).drop_last() =~= errsv.take(k as int));
            assert(errsv.take(k as int + 1).last() == errsv[k as int]);
            lemma_note_push(prenotes, notes@.last());
            assert(notes@ =~= prenotes.push(notes@.last()));
            assert(note_errors(notes@) =~= note_errors(old(notes)@) + errsv.take(k as int + 1));
            assert(all@ =~= old(all)@ + errsv.take(k as int + 1));
        }
        k = k + 1;
    }
    proof {
        assert(errsv.take(n as int) =~= errsv);
    }
}

/// Records a batch of events for one stream: each goes into the event ring,
/// the outgoing notification list, and the poll's event list, in order.
fn record_events(
    sd: &mut StreamData,
    notes: &mut Vec<crate::webhook::Notification>,
    all: &mut Vec<MonitorEvent>,
    evs: Vec<MonitorEvent>,
    mid: &String,
)
    requires
        old(sd).wf(),
    ensures
        final(sd).wf(),
        final(sd).variants@ == old(sd).variants@,
        final(sd).known_variants@ == old(sd).known_variants@,
        final(sd).variant_failures@ == old(sd).variant_failures@,
        final(sd).last_content_change_ms == old(sd).last_content_change_ms,
        final(sd).last_fetch_ms == old(sd).last_fetch_ms,
        final(sd).was_stale == old(sd).was_stale,
        final(sd).errors@ == old(sd).errors@,
        final(sd).errors.cap() == old(sd).errors.cap(),
        final(sd).events.cap() == old(sd).events.cap(),
        final(sd).events@ == crate::ring::ring_push_all(old(sd).events@, evs@, old(sd).events.cap()),
        final(all)@ == old(all)@ + evs@,
        note_events(final(notes)@) == note_events(old(notes)@) + evs@,
        note_errors(final(notes)@) == note_errors(old(notes)@),
{
    let ghost evsv = evs@;
    let evs = evs;
    let n = evs.len();
    let mut k: usize = 0;
    while k < n
        invariant
            k <= n,
            n == evsv.len(),
            evs@ == evsv,
            sd.wf(),
            sd.variants@ == old(sd).variants@,
            sd.known_variants@ == old(sd).known_variants@,
            sd.variant_failures@ == old(sd).variant_failures@,
            sd.last_content_change_ms == old(sd).last_content_change_ms,
            sd.last_fetch_ms == old(sd).last_fetch_ms,
            sd.was_stale == old(sd).was_stale,
            sd.errors@ == old(sd).errors@,
            sd.errors.cap() == old(sd).errors.cap(),
            sd.events.cap() == old(sd).events.cap(),
            sd.events@ == crate::ring::ring_push_all(
                old(sd).events@,
                evsv.take(k as int),
                old(sd).events.cap(),
            ),
            all@ == old(all)@ + evsv.take(k as int),
            note_events(notes@) == note_events(old(notes)@) + evsv.take(k as int),
            note_errors(notes@) == note_errors(old(notes)@),
        decreases n - k,
    {
        let ghost prenotes = notes@;
        let e = &evs[k];
        sd.events.push(crate::ring::Dup::dup(e));
        notes.push(
            crate::webhook::Notification::Event {
                monitor_id: mid.clone(),
                event: crate::ring::Dup::dup(e),
            },
        );
        all.push(crate::ring::Dup::dup(e));
        proof {
            assert(evsv.take(k as int + 1).drop_last() =~= evsv.take(k as int));
            assert(evsv.take(k as int + 1).last() == evsv[k as int]);
            lemma_note_push(prenotes, notes@.last());
            assert(notes@ =~= prenotes.push(notes@.last()));
            assert(note_events(notes@) =~= note_events(old(notes)@) + evsv.take(k as int + 1));
            assert(all@ =~= old(all)@ + evsv.take(k as int + 1));
        }
        k = k + 1;
    }
    proof {
        assert(evsv.take(n as int) =~= evsv);
    }
}


/// The event recorded when a stale stream's content changes again.
pub open spec fn stale_recovered_core(stream_id: Seq<char>, now: u64) -> EventCore {
    EventCore {
        timestamp_ms: now,
        kind: EventKind::StaleRecovered,
        stream_id,
        media_type: "MASTER"@,
        variant_key: "all"@,
        details: msg_stale_recovered(now as nat),
    }
}

/// Whether index `i` is the last occurrence of its variant key among the
/// targets.
pub open spec fn last_occurrence(targets: Seq<VariantTarget>, i: int) -> bool {
    forall|j: int| i < j < targets.len() ==> (#[trigger] targets[j]).key@ != targets[i].key@
}

/// Whether the variant key at index `i` occurs nowhere else among the
/// targets.
pub open spec fn unique_key(targets: Seq<VariantTarget>, i: int) -> bool {
    forall|j: int|
        0 <= j < targets.len() && j != i ==> (#[trigger] targets[j]).key@ != targets[i].key@
}

/// Whether the variant map binds the target's key to exactly the state its
/// snapshot leaves behind: the snapshot's counters and window, with the
/// ad-break latch advanced from the state the poll began with.
pub open spec fn p3_state_ok(
    vmap: Seq<(Seq<char>, VariantState)>,
    bvars: Seq<(Seq<char>, VariantState)>,
    t: VariantTarget,
    snap: PlaylistSnapshot,
) -> bool {
    let was = match crate::assoc::assoc_get(bvars, t.key@) {
        Some(p) => p.in_cue_out,
        None => false,
    };
    let pm = playlist_model(snap);
    match crate::assoc::assoc_get(vmap, t.key@) {
        Some(v) => vs_model(v) == derived_state_m(
            t.media_type@,
            pm,
            latch_next(pm.has_cue_out, pm.cue_in_count > 0, was),
        ),
        None => false,
    }
}

impl Monitor {
    /// The second step of a poll for one stream: judges every fetched
    /// variant playlist in input order. A fetch or parse failure is recorded
    /// as a manifest-retrieval error and bumps the variant's consecutive
    /// failure counter; a parsed playlist resets that counter, is compared
    /// with the variant's previous state by the whole check battery, emits
    /// its events, and replaces the state. Stream-level checks then run over
    /// the updated variants; the stream's timestamps, staleness and recovery
    /// are settled last. Returns the errors, the events, the outbound
    /// notifications (wrapping exactly those errors and events, in order),
    /// and whether content changed.
    pub fn process_variants(
        &mut self,
        stream_index: usize,
        targets: &Vec<VariantTarget>,
        outcomes: Vec<VariantOutcome>,
        now_ms: u64,
    ) -> (r: (Vec<MonitorError>, Vec<MonitorEvent>, Vec<crate::webhook::Notification>, bool))
        requires
            old(self).wf(),
            stream_index < old(self).spec_streams().len(),
            outcomes@.len() == targets@.len(),
            old(self).time_ok(now_ms),
        ensures
            final(self).wf(),
            final(self).time_ok(now_ms),
            final(self).spec_state() == old(self).spec_state(),
            final(self).spec_streams() == old(self).spec_streams(),
            final(self).spec_config() == old(self).spec_config(),
            final(self).spec_monitor_id() == old(self).spec_monitor_id(),
            final(self).spec_last_checked() == old(self).spec_last_checked(),
            note_errors(r.2@) == r.0@,
            note_events(r.2@) == r.1@,
            r.3 ==> exists|i: int|
                0 <= i < outcomes@.len() && (#[trigger] outcomes@[i]) matches VariantOutcome::Fetched(_),
            ({
                let stream = old(self).spec_streams()[stream_index as int];
                let base = base_url_of(stream.url@);
                let cfg = old(self).spec_config();
                let binit_errors = match old(self).spec_data_get(base) {
                    Some(osd) => osd.errors@,
                    None => Seq::<MonitorError>::empty(),
                };
                let binit_events = match old(self).spec_data_get(base) {
                    Some(osd) => osd.events@,
                    None => Seq::<MonitorEvent>::empty(),
                };
                let blcc = match old(self).spec_data_get(base) {
                    Some(osd) => osd.last_content_change_ms,
                    None => now_ms,
                };
                let bstale = match old(self).spec_data_get(base) {
                    Some(osd) => osd.was_stale,
                    None => false,
                };
                let bvars = match old(self).spec_data_get(base) {
                    Some(osd) => osd.variants@,
                    None => Seq::<(Seq<char>, VariantState)>::empty(),
                };
                let bknown = match old(self).spec_data_get(base) {
                    Some(osd) => osd.known_variants@,
                    None => Seq::<(Seq<char>, String)>::empty(),
                };
                &&& (forall|k: Seq<char>|
                    k != base ==> final(self).spec_data_get(k) == old(self).spec_data_get(k))
                &&& (match final(self).spec_data_get(base) {
                    Some(nsd) => {
                        &&& nsd.last_fetch_ms == now_ms
                        &&& nsd.errors@ == crate::ring::ring_push_all(
                            binit_errors,
                            r.0@,
                            cfg.error_limit as nat,
                        )
                        &&& nsd.events@ == crate::ring::ring_push_all(
                            binit_events,
                            r.1@,
                            cfg.event_limit as nat,
                        )
                        &&& nsd.last_content_change_ms == if r.3 {
                            now_ms
                        } else {
                            blcc
                        }
                        &&& (now_ms - nsd.last_content_change_ms > cfg.stale_limit_ms ==> {
                            &&& nsd.was_stale
                            &&& r.0@.len() > 0
                            &&& r.0@.last().core_data() == crate::checks::stale_core(
                                cfg.stale_limit_ms,
                                (now_ms - nsd.last_content_change_ms) as u64,
                                stream.url@,
                                stream.id@,
                                now_ms,
                            )
                        })
                        &&& (now_ms - nsd.last_content_change_ms <= cfg.stale_limit_ms && bstale
                            && r.3 ==> {
                            &&& !nsd.was_stale
                            &&& r.1@.len() > 0
                            &&& r.1@.last().core_data() == stale_recovered_core(stream.id@, now_ms)
                        })
                        &&& (now_ms - nsd.last_content_change_ms <= cfg.stale_limit_ms && !(bstale
                            && r.3) ==> nsd.was_stale == bstale)
                        &&& (forall|i: int|
                            0 <= i < targets@.len() && ((#[trigger] outcomes@[i]) matches VariantOutcome::Fetched(_))
                                && last_occurrence(targets@, i) ==> crate::assoc::assoc_get(
                                nsd.variant_failures@,
                                targets@[i].key@,
                            ) is None)
                        &&& (forall|i: int|
                            0 <= i < targets@.len() && !((#[trigger] outcomes@[i]) matches VariantOutcome::Fetched(_))
                                && last_occurrence(targets@, i) ==> (match crate::assoc::assoc_get(
                                nsd.variant_failures@,
                                targets@[i].key@,
                            ) {
                                Some(c) => c >= 1,
                                None => false,
                            }))
                        &&& (forall|i: int|
                            0 <= i < targets@.len() ==> (match #[trigger] outcomes@[i] {
                                VariantOutcome::Fetched(snap) => unique_key(targets@, i)
                                    ==> p3_state_ok(nsd.variants@, bvars, targets@[i], snap),
                                _ => true,
                            }))
                        &&& (forall|i: int|
                            0 <= i < targets@.len() ==> crate::assoc::assoc_get(
                                nsd.known_variants@,
                                (#[trigger] targets@[i]).key@,
                            ) is Some)
                        &&& (forall|k: Seq<char>|
                            crate::assoc::assoc_get(bknown, k) is Some
                                ==> #[trigger] crate::assoc::assoc_get(nsd.known_variants@, k)
                                == crate::assoc::assoc_get(bknown, k))
                    },
                    None => false,
                })
            }),
    {
        let cfg = self.config;
        let full_url = self.streams[stream_index].url.clone();
        let sid = self.streams[stream_index].id.clone();
        let mid = self.monitor_id.clone();
        let base = get_base_url(full_url.as_str());
        proof {
            if old(self).spec_data_get(base@) is Some {
                crate::assoc::lemma_assoc_get_some(old(self).spec_data(), base@);
            }
        }
        let mut sd = self.take_stream_data(base.as_str(), now_ms);
        proof {
            assert(sd.last_fetch_ms <= now_ms);
            assert(sd.last_content_change_ms <= now_ms);
        }
        let ghost bsd = sd;
        let n = targets.len();

        // grow the known-variant map: a key keeps the media type it was
        // first seen with
        let mut i: usize = 0;
        while i < n
            invariant
                i <= n,
                n == targets@.len(),
                sd.wf(),
                sd.variants@ == bsd.variants@,
                sd.variant_failures@ == bsd.variant_failures@,
                sd.errors@ == bsd.errors@,
                sd.events@ == bsd.events@,
                sd.errors.cap() == bsd.errors.cap(),
                sd.events.cap() == bsd.events.cap(),
                sd.last_content_change_ms == bsd.last_content_change_ms,
                sd.last_fetch_ms == bsd.last_fetch_ms,
                sd.was_stale == bsd.was_stale,
                forall|j: int|
                    0 <= j < i ==> crate::assoc::assoc_get(
                        sd.known_variants@,
                        (#[trigger] targets@[j]).key@,
                    ) is Some,
                forall|k: Seq<char>|
                    crate::assoc::assoc_get(bsd.known_variants@, k) is Some
                        ==> #[trigger] crate::assoc::assoc_get(sd.known_variants@, k)
                        == crate::assoc::assoc_get(bsd.known_variants@, k),
            decreases n - i,
        {
            let t = &targets[i];
            let ghost preknown = sd.known_variants@;
            let ghost key = targets@[i as int].key@;
            if !sd.known_variants.contains_key(t.key.as_str()) {
                sd.known_variants.set(t.key.as_str(), t.media_type.clone());
                proof {
                    assert forall|k: Seq<char>|
                        k != key implies #[trigger] crate::assoc::assoc_get(sd.known_variants@, k)
                        == crate::assoc::assoc_get(preknown, k) by {
                        assert(sd.known_variants.spec_get(k) == crate::assoc::assoc_get(
                            sd.known_variants@,
                            k,
                        ));
                    }
                    assert(crate::assoc::assoc_get(sd.known_variants@, key) is Some);
                }
            }
            i = i + 1;
        }
        let ghost knownv = sd.known_variants@;

        let mut all_errors: Vec<MonitorError> = Vec::new();
        let mut all_events: Vec<MonitorEvent> = Vec::new();
        let mut notes: Vec<crate::webhook::Notification> = Vec::new();
        let mut content_changed: bool = false;
        let ghost outv = outcomes@;

        let mut i: usize = 0;
        proof {
            assert(crate::ring::ring_push_all(bsd.errors@, all_errors@, sd.errors.cap())
                == sd.errors@);
            assert(crate::ring::ring_push_all(bsd.events@, all_events@, sd.events.cap())
                == sd.events@);
        }
        while i < n
            invariant
                i <= n,
                n == targets@.len(),
                outcomes@ == outv,
                outv.len() == n,
                sd.wf(),
                sd.errors.cap() == bsd.errors.cap(),
                sd.events.cap() == bsd.events.cap(),
                sd.known_variants@ == knownv,
                sd.last_content_change_ms == bsd.last_content_change_ms,
                sd.last_fetch_ms == bsd.last_fetch_ms,
                sd.was_stale == bsd.was_stale,
                sd.errors@ == crate::ring::ring_push_all(bsd.errors@, all_errors@, sd.errors.cap()),
                sd.events@ == crate::ring::ring_push_all(bsd.events@, all_events@, sd.events.cap()),
                note_errors(notes@) == all_errors@,
                note_events(notes@) == all_events@,
                content_changed ==> exists|i2: int|
                    0 <= i2 < i && (#[trigger] outv[i2]) matches VariantOutcome::Fetched(_),
                forall|k: Seq<char>|
                    (forall|j: int| 0 <= j < i ==> (#[trigger] targets@[j]).key@ != k) ==> (
                    #[trigger] crate::assoc::assoc_get(sd.variants@, k) == crate::assoc::assoc_get(
                        bsd.variants@,
                        k,
                    ) && crate::assoc::assoc_get(sd.variant_failures@, k)
                        == crate::assoc::assoc_get(bsd.variant_failures@, k)),
                forall|i2: int|
                    0 <= i2 < i && ((#[trigger] outv[i2]) matches VariantOutcome::Fetched(_)) && (
                    forall|j: int|
                        i2 < j < i ==> (#[trigger] targets@[j]).key@ != targets@[i2].key@)
                        ==> crate::assoc::assoc_get(sd.variant_failures@, targets@[i2].key@)
                        is None,
                forall|i2: int|
                    0 <= i2 < i && !((#[trigger] outv[i2]) matches VariantOutcome::Fetched(_)) && (
                    forall|j: int|
                        i2 < j < i ==> (#[trigger] targets@[j]).key@ != targets@[i2].key@) ==> (
                    match crate::assoc::assoc_get(sd.variant_failures@, targets@[i2].key@) {
                        Some(c) => c >= 1,
                        None => false,
                    }),
                forall|i2: int|
                    0 <= i2 < i ==> (match #[trigger] outv[i2] {
                        VariantOutcome::Fetched(snap) => unique_key(targets@, i2) ==> p3_state_ok(
                            sd.variants@,
                            bsd.variants@,
                            targets@[i2],
                            snap,
                        ),
                        _ => true,
                    }),
            decreases n - i,
        {
            let t = &targets[i];
            let ghost prevars = sd.variants@;
            let ghost prefail = sd.variant_failures@;
            let ghost preerrs = all_errors@;
            let ghost preevs = all_events@;
            let ghost key = targets@[i as int].key@;
            match &outcomes[i] {
                VariantOutcome::FetchFailed(e) => {
                    let reason = e.describe();
                    let details = fmt_fetch_variant(reason.as_str());
                    let sc = match e.status_code() {
                        Some(v) => v,
                        None => 0,
                    };
                    let err = MonitorError::new(
                        ErrorType::ManifestRetrieval,
                        t.media_type.as_str(),
                        t.key.as_str(),
                        details.as_str(),
                        base.as_str(),
                        sid.as_str(),
                        now_ms,
                    ).with_status_code(sc);
                    let mut batch: Vec<MonitorError> = Vec::new();
                    batch.push(err);
                    let ghost bv = batch@;
                    record_errors(&mut sd, &mut notes, &mut all_errors, batch, &mid);
                    proof {
                        crate::ring::lemma_ring_push_all_app(bsd.errors@, preerrs, bv, sd.errors.cap());
                        assert(all_errors@ =~= preerrs + bv);
                    }
                    let c: u32 = match sd.variant_failures.get(t.key.as_str()) {
                        Some(v) => *v,
                        None => 0,
                    };
                    sd.variant_failures.set(t.key.as_str(), c.saturating_add(1));
                    proof {
                        assert forall|k: Seq<char>|
                            k != key implies #[trigger] crate::assoc::assoc_get(
                            sd.variant_failures@,
                            k,
                        ) == crate::assoc::assoc_get(prefail, k) by {
                            assert(sd.variant_failures.spec_get(k) == crate::assoc::assoc_get(
                                sd.variant_failures@,
                                k,
                            ));
                        }
                        assert(crate::assoc::assoc_get(sd.variant_failures@, key) == Some(
                            c.saturating_add(1),
                        ));
                        assert(c.saturating_add(1) >= 1);
                    }
                },
                VariantOutcome::ParseFailed => {
                    let details = fmt_parse_variant(t.url.as_str(), "invalid media playlist");
                    let err = MonitorError::new(
                        ErrorType::ManifestRetrieval,
                        t.media_type.as_str(),
                        t.key.as_str(),
                        details.as_str(),
                        base.as_str(),
                        sid.as_str(),
                        now_ms,
                    );
                    let mut batch: Vec<MonitorError> = Vec::new();
                    batch.push(err);
                    let ghost bv = batch@;
                    record_errors(&mut sd, &mut notes, &mut all_errors, batch, &mid);
                    proof {
                        crate::ring::lemma_ring_push_all_app(bsd.errors@, preerrs, bv, sd.errors.cap());
                        assert(all_errors@ =~= preerrs + bv);
                    }
                    let c: u32 = match sd.variant_failures.get(t.key.as_str()) {
                        Some(v) => *v,
                        None => 0,
                    };
                    sd.variant_failures.set(t.key.as_str(), c.saturating_add(1));
                    proof {
                        assert forall|k: Seq<char>|
                            k != key implies #[trigger] crate::assoc::assoc_get(
                            sd.variant_failures@,
                            k,
                        ) == crate::assoc::assoc_get(prefail, k) by {
                            assert(sd.variant_failures.spec_get(k) == crate::assoc::assoc_get(
                                sd.variant_failures@,
                                k,
                            ));
                        }
                        assert(crate::assoc::assoc_get(sd.variant_failures@, key) == Some(
                            c.saturating_add(1),
                        ));
                        assert(c.saturating_add(1) >= 1);
                    }
                },
                VariantOutcome::Fetched(snap) => {
                    sd.variant_failures.remove(t.key.as_str());
                    proof {
                        assert forall|k: Seq<char>|
                            k != key implies #[trigger] crate::assoc::assoc_get(
                            sd.variant_failures@,
                            k,
                        ) == crate::assoc::assoc_get(prefail, k) by {
                            assert(sd.variant_failures.spec_get(k) == crate::assoc::assoc_get(
                                sd.variant_failures@,
                                k,
                            ));
                        }
                        assert(crate::assoc::assoc_get(sd.variant_failures@, key) is None);
                    }
                    let (errs, evs, was, changed_here): (
                        Vec<MonitorError>,
                        Vec<MonitorEvent>,
                        bool,
                        bool,
                    ) = match sd.variants.get(t.key.as_str()) {
                        Some(prev) => {
                            let ctx = crate::state::CheckContext {
                                stream_url: base.clone(),
                                stream_id: sid.clone(),
                                media_type: t.media_type.clone(),
                                variant_key: t.key.clone(),
                                now_ms,
                            };
                            let errs = crate::checks::run_variant_checks(&cfg, prev, snap, &ctx);
                            let evs = emit_variant_events(
                                prev.media_sequence,
                                prev.discontinuity_sequence,
                                prev.in_cue_out,
                                snap,
                                sid.as_str(),
                                t.media_type.as_str(),
                                t.key.as_str(),
                                now_ms,
                            );
                            let ch = snap.media_sequence != prev.media_sequence
                                || snap.segments.len() != prev.segment_uris.len();
                            (errs, evs, prev.in_cue_out, ch)
                        },
                        None => (Vec::new(), Vec::new(), false, true),
                    };
                    let ghost bwas = match crate::assoc::assoc_get(bsd.variants@, key) {
                        Some(p) => p.in_cue_out,
                        None => false,
                    };
                    let in_cue = next_in_cue_out(snap.has_cue_out, snap.cue_in_count > 0, was);
                    let st = state_from_snapshot(t.media_type.as_str(), snap, in_cue);
                    let ghost stg = st;
                    sd.variants.set(t.key.as_str(), st);
                    proof {
                        assert forall|k: Seq<char>|
                            k != key implies #[trigger] crate::assoc::assoc_get(sd.variants@, k)
                            == crate::assoc::assoc_get(prevars, k) by {
                            assert(sd.variants.spec_get(k) == crate::assoc::assoc_get(
                                sd.variants@,
                                k,
                            ));
                        }
                        assert(crate::assoc::assoc_get(sd.variants@, key) == Some(stg));
                    }
                    if changed_here {
                        content_changed = true;
                    }
                    let ghost errsv = errs@;
                    let ghost evsv = evs@;
                    record_errors(&mut sd, &mut notes, &mut all_errors, errs, &mid);
                    record_events(&mut sd, &mut notes, &mut all_events, evs, &mid);
                    proof {
                        crate::ring::lemma_ring_push_all_app(
                            bsd.errors@,
                            preerrs,
                            errsv,
                            sd.errors.cap(),
                        );
                        assert(all_errors@ =~= preerrs + errsv);
                        crate::ring::lemma_ring_push_all_app(
                            bsd.events@,
                            preevs,
                            evsv,
                            sd.events.cap(),
                        );
                        assert(all_events@ =~= preevs + evsv);
                        if unique_key(targets@, i as int) {
                            assert(forall|j: int|
                                0 <= j < i ==> (#[trigger] targets@[j]).key@ != key);
                            assert(crate::assoc::assoc_get(prevars, key)
                                == crate::assoc::assoc_get(bsd.variants@, key));
                            assert(was == bwas);
                            assert(p3_state_ok(sd.variants@, bsd.variants@, targets@[i as int], *snap));
                        }
                    }
                },
            }
            proof {
                assert(forall|k: Seq<char>|
                    k != key ==> #[trigger] crate::assoc::assoc_get(sd.variants@, k)
                        == crate::assoc::assoc_get(prevars, k));
                assert(forall|k: Seq<char>|
                    k != key ==> #[trigger] crate::assoc::assoc_get(sd.variant_failures@, k)
                        == crate::assoc::assoc_get(prefail, k));
                assert forall|k: Seq<char>|
                    (forall|j: int| 0 <= j < i + 1 ==> (#[trigger] targets@[j]).key@ != k) implies (
                    #[trigger] crate::assoc::assoc_get(sd.variants@, k) == crate::assoc::assoc_get(
                        bsd.variants@,
                        k,
                    ) && crate::assoc::assoc_get(sd.variant_failures@, k)
                        == crate::assoc::assoc_get(bsd.variant_failures@, k)) by {
                    assert(targets@[i as int].key@ != k);
                }
                assert forall|i2: int|
                    0 <= i2 < i + 1 && ((#[trigger] outv[i2]) matches VariantOutcome::Fetched(_))
                        && (forall|j: int|
                        i2 < j < i + 1 ==> (#[trigger] targets@[j]).key@ != targets@[i2].key@) implies crate::assoc::assoc_get(
                    sd.variant_failures@,
                    targets@[i2].key@,
                ) is None by {
                    if i2 < i as int {
                        assert(targets@[i as int].key@ != targets@[i2].key@);
                    }
                }
                assert forall|i2: int|
                    0 <= i2 < i + 1 && !((#[trigger] outv[i2]) matches VariantOutcome::Fetched(_))
                        && (forall|j: int|
                        i2 < j < i + 1 ==> (#[trigger] targets@[j]).key@ != targets@[i2].key@) implies (
                match crate::assoc::assoc_get(sd.variant_failures@, targets@[i2].key@) {
                    Some(c) => c >= 1,
                    None => false,
                }) by {
                    if i2 < i as int {
                        assert(targets@[i as int].key@ != targets@[i2].key@);
                    }
                }
                assert forall|i2: int|
                    0 <= i2 < i + 1 implies (match #[trigger] outv[i2] {
                    VariantOutcome::Fetched(snap) => unique_key(targets@, i2) ==> p3_state_ok(
                        sd.variants@,
                        bsd.variants@,
                        targets@[i2],
                        snap,
                    ),
                    _ => true,
                }) by {
                    if i2 < i as int {
                        match outv[i2] {
                            VariantOutcome::Fetched(snap2) => {
                                if unique_key(targets@, i2) {
                                    assert(targets@[i as int].key@ != targets@[i2].key@);
                                }
                            },
                            _ => {},
                        }
                    }
                }
            }
            i = i + 1;
        }

        // stream-level checks over the updated variants
        let failures_moved = sd.variant_failures;
        sd.variant_failures = AssocMap::new();
        let sctx = crate::stream_checks::StreamCheckContext {
            stream_url: full_url.clone(),
            stream_id: sid.clone(),
            variant_failures: failures_moved,
            now_ms,
        };
        let sc_errors = crate::stream_checks::run_stream_checks(&cfg, &sd.variants, &sctx);
        sd.variant_failures = sctx.variant_failures;
        let ghost preerrs2 = all_errors@;
        let ghost scv = sc_errors@;
        record_errors(&mut sd, &mut notes, &mut all_errors, sc_errors, &mid);
        proof {
            crate::ring::lemma_ring_push_all_app(bsd.errors@, preerrs2, scv, sd.errors.cap());
            assert(all_errors@ =~= preerrs2 + scv);
        }

        // timestamps, staleness, recovery
        if content_changed {
            sd.last_content_change_ms = now_ms;
        }
        sd.last_fetch_ms = now_ms;
        let elapsed = now_ms - sd.last_content_change_ms;
        match crate::checks::check_stale(
            elapsed,
            cfg.stale_limit_ms,
            full_url.as_str(),
            sid.as_str(),
            now_ms,
        ) {
            Some(stale_err) => {
                let ghost preerrs3 = all_errors@;
                let mut batch: Vec<MonitorError> = Vec::new();
                batch.push(stale_err);
                let ghost bv3 = batch@;
                record_errors(&mut sd, &mut notes, &mut all_errors, batch, &mid);
                sd.was_stale = true;
                proof {
                    crate::ring::lemma_ring_push_all_app(bsd.errors@, preerrs3, bv3, sd.errors.cap());
                    assert(all_errors@ =~= preerrs3 + bv3);
                }
            },
            None => {
                if sd.was_stale && content_changed {
                    let details = fmt_stale_recovered(now_ms);
                    let ev = MonitorEvent::new(
                        EventKind::StaleRecovered,
                        "MASTER",
                        "all",
                        details.as_str(),
                        sid.as_str(),
                        now_ms,
                    );
                    let ghost preevs3 = all_events@;
                    let mut batch: Vec<MonitorEvent> = Vec::new();
                    batch.push(ev);
                    let ghost bev3 = batch@;
                    record_events(&mut sd, &mut notes, &mut all_events, batch, &mid);
                    sd.was_stale = false;
                    proof {
                        crate::ring::lemma_ring_push_all_app(bsd.events@, preevs3, bev3, sd.events.cap());
                        assert(all_events@ =~= preevs3 + bev3);
                    }
                }
            },
        }

        self.put_stream_data(base.as_str(), sd);
        proof {
            assert forall|j: int|
                0 <= j < self.stream_data@.len() implies (#[trigger] self.stream_data@[j]).1.last_fetch_ms
                <= now_ms by {
                if self.stream_data@[j].1 != sd {
                    let w = choose|w: int|
                        0 <= w < old(self).spec_data().len() && old(self).spec_data()[w].1
                            == self.stream_data@[j].1;
                    assert(old(self).spec_data()[w].1.last_fetch_ms <= now_ms);
                }
            }
        }
        (all_errors, all_events, notes, content_changed)
    }
}


/// Newest-first ordering by timestamp.
pub open spec fn sorted_desc_errors(s: Seq<MonitorError>) -> bool {
    forall|i: int, j: int| 0 <= i < j < s.len() ==> s[i].timestamp_ms >= s[j].timestamp_ms
}

/// Newest-first ordering by timestamp.
pub open spec fn sorted_desc_events(s: Seq<MonitorEvent>) -> bool {
    forall|i: int, j: int| 0 <= i < j < s.len() ==> s[i].timestamp_ms >= s[j].timestamp_ms
}

/// Every error of every stream's ring, stream by stream, each ring newest
/// first.
pub open spec fn gathered_errors(data: Seq<(Seq<char>, StreamData)>) -> Seq<MonitorError>
    decreases data.len(),
{
    if data.len() == 0 {
        Seq::empty()
    } else {
        gathered_errors(data.drop_last()) + data.last().1.errors@.reverse()
    }
}

/// Every event of every stream's ring, stream by stream, each ring newest
/// first.
pub open spec fn gathered_events(data: Seq<(Seq<char>, StreamData)>) -> Seq<MonitorEvent>
    decreases data.len(),
{
    if data.len() == 0 {
        Seq::empty()
    } else {
        gathered_events(data.drop_last()) + data.last().1.events@.reverse()
    }
}

/// Sorts errors newest first, keeping exactly the same collection.
fn sort_errors_desc(v: Vec<MonitorError>) -> (r: Vec<MonitorError>)
    ensures
        r@.to_multiset() == v@.to_multiset(),
        r@.len() == v@.len(),
        sorted_desc_errors(r@),
{
    broadcast use vstd::seq_lib::group_seq_properties;

    let mut src = v;
    let mut out: Vec<MonitorError> = Vec::new();
    let ghost total = v@.to_multiset();
    proof {
        assert(out@.to_multiset().add(src@.to_multiset()) =~= total);
    }
    while src.len() > 0
        invariant
            out@.to_multiset().add(src@.to_multiset()) == total,
            out@.len() + src@.len() == v@.len(),
            sorted_desc_errors(out@),
            forall|i: int, j: int|
                0 <= i < out@.len() && 0 <= j < src@.len() ==> out@[i].timestamp_ms
                    >= src@[j].timestamp_ms,
        decreases src@.len(),
    {
        let m = src.len();
        let mut best: usize = 0;
        let mut k: usize = 1;
        while k < m
            invariant
                1 <= k <= m,
                m == src@.len(),
                best < k,
                forall|j: int| 0 <= j < k ==> src@[best as int].timestamp_ms >= src@[j].timestamp_ms,
            decreases m - k,
        {
            if src[k].timestamp_ms > src[best].timestamp_ms {
                best = k;
            }
            k = k + 1;
        }
        let ghost preout = out@;
        let ghost presrc = src@;
        let e = src.remove(best);
        out.push(e);
        proof {
            broadcast use vstd::seq_lib::group_to_multiset_ensures;

            assert(src@ =~= presrc.remove(best as int));
            assert(src@.to_multiset() =~= presrc.to_multiset().remove(e));
            assert(out@.to_multiset() =~= preout.to_multiset().insert(e));
            assert(presrc.to_multiset().count(e) > 0) by {
                assert(presrc[best as int] == e);
                assert(presrc.contains(e));
            }
            assert(out@.to_multiset().add(src@.to_multiset()) =~= total);
            assert forall|i: int, j: int|
                0 <= i < out@.len() && 0 <= j < src@.len() implies out@[i].timestamp_ms
                >= src@[j].timestamp_ms by {
                let sj = if j < best as int {
                    j
                } else {
                    j + 1
                };
                assert(src@[j] == presrc[sj]);
                if i < preout.len() {
                    assert(out@[i] == preout[i]);
                } else {
                    assert(out@[i] == e);
                }
            }
        }
    }
    out
}

/// Sorts events newest first, keeping exactly the same collection.
fn sort_events_desc(v: Vec<MonitorEvent>) -> (r: Vec<MonitorEvent>)
    ensures
        r@.to_multiset() == v@.to_multiset(),
        r@.len() == v@.len(),
        sorted_desc_events(r@),
{
    broadcast use vstd::seq_lib::group_seq_properties;

    let mut src = v;
    let mut out: Vec<MonitorEvent> = Vec::new();
    let ghost total = v@.to_multiset();
    proof {
        assert(out@.to_multiset().add(src@.to_multiset()) =~= total);
    }
    while src.len() > 0
        invariant
            out@.to_multiset().add(src@.to_multiset()) == total,
            out@.len() + src@.len() == v@.len(),
            sorted_desc_events(out@),
            forall|i: int, j: int|
                0 <= i < out@.len() && 0 <= j < src@.len() ==> out@[i].timestamp_ms
                    >= src@[j].timestamp_ms,
        decreases src@.len(),
    {
        let m = src.len();
        let mut best: usize = 0;
        let mut k: usize = 1;
        while k < m
            invariant
                1 <= k <= m,
                m == src@.len(),
                best < k,
                forall|j: int| 0 <= j < k ==> src@[best as int].timestamp_ms >= src@[j].timestamp_ms,
            decreases m - k,
        {
            if src[k].timestamp_ms > src[best].timestamp_ms {
                best = k;
            }
            k = k + 1;
        }
        let ghost preout = out@;
        let ghost presrc = src@;
        let e = src.remove(best);
        out.push(e);
        proof {
            broadcast use vstd::seq_lib::group_to_multiset_ensures;

            assert(src@ =~= presrc.remove(best as int));
            assert(src@.to_multiset() =~= presrc.to_multiset().remove(e));
            assert(out@.to_multiset() =~= preout.to_multiset().insert(e));
            assert(presrc.to_multiset().count(e) > 0) by {
                assert(presrc[best as int] == e);
                assert(presrc.contains(e));
            }
            assert(out@.to_multiset().add(src@.to_multiset()) =~= total);
            assert forall|i: int, j: int|
                0 <= i < out@.len() && 0 <= j < src@.len() implies out@[i].timestamp_ms
                >= src@[j].timestamp_ms by {
                let sj = if j < best as int {
                    j
                } else {
                    j + 1
                };
                assert(src@[j] == presrc[sj]);
                if i < preout.len() {
                    assert(out@[i] == preout[i]);
                } else {
                    assert(out@[i] == e);
                }
            }
        }
    }
    out
}

impl Monitor {
    /// Every retained error across all streams, newest first.
    pub fn get_errors(&self) -> (r: Vec<MonitorError>)
        requires
            self.wf(),
        ensures
            r@.to_multiset() == gathered_errors(self.spec_data()).to_multiset(),
            sorted_desc_errors(r@),
    {
        let mut gathered: Vec<MonitorError> = Vec::new();
        let n = self.stream_data.len();
        let mut i: usize = 0;
        proof {
            assert(gathered@ =~= gathered_errors(self.spec_data().take(0)));
        }
        while i < n
            invariant
                i <= n,
                self.wf(),
                n == self.spec_data().len(),
                gathered@ == gathered_errors(self.spec_data().take(i as int)),
            decreases n - i,
        {
            let ghost pre = gathered@;
            let mut part = self.stream_data.val_at(i).errors.list();
            let ghost partv = part@;
            gathered.append(&mut part);
            proof {
                assert(self.spec_data().take(i as int + 1).drop_last() =~= self.spec_data().take(
                    i as int,
                ));
                assert(self.spec_data().take(i as int + 1).last() == self.spec_data()[i as int]);
                assert(partv =~= self.spec_data()[i as int].1.errors@.reverse());
                assert(gathered@ =~= pre + partv);
            }
            i = i + 1;
        }
        proof {
            assert(self.spec_data().take(n as int) =~= self.spec_data());
        }
        sort_errors_desc(gathered)
    }

    /// Every retained event across all streams, newest first.
    pub fn get_events(&self) -> (r: Vec<MonitorEvent>)
        requires
            self.wf(),
        ensures
            r@.to_multiset() == gathered_events(self.spec_data()).to_multiset(),
            sorted_desc_events(r@),
    {
        let mut gathered: Vec<MonitorEvent> = Vec::new();
        let n = self.stream_data.len();
        let mut i: usize = 0;
        proof {
            assert(gathered@ =~= gathered_events(self.spec_data().take(0)));
        }
        while i < n
            invariant
                i <= n,
                self.wf(),
                n == self.spec_data().len(),
                gathered@ == gathered_events(self.spec_data().take(i as int)),
            decreases n - i,
        {
            let ghost pre = gathered@;
            let mut part = self.stream_data.val_at(i).events.list();
            let ghost partv = part@;
            gathered.append(&mut part);
            proof {
                assert(self.spec_data().take(i as int + 1).drop_last() =~= self.spec_data().take(
                    i as int,
                ));
                assert(self.spec_data().take(i as int + 1).last() == self.spec_data()[i as int]);
                assert(partv =~= self.spec_data()[i as int].1.events@.reverse());
                assert(gathered@ =~= pre + partv);
            }
            i = i + 1;
        }
        proof {
            assert(self.spec_data().take(n as int) =~= self.spec_data());
        }
        sort_events_desc(gathered)
    }

    /// How many manifest-retrieval errors the monitor has recorded.
    pub fn manifest_error_count(&self) -> (r: u64)
        ensures
            r == self.spec_manifest_error_count(),
    {
        self.manifest_error_count
    }

    /// The cumulative error count per stream identifier.
    pub fn total_errors_per_stream(&self) -> (r: Vec<(String, u64)>)
        ensures
            r@.map(|i: int, p: (String, u64)| (p.0@, p.1)) == self.spec_totals(),
    {
        self.total_errors_per_stream.to_pairs()
    }

    /// The last error time per stream identifier.
    pub fn last_error_time_per_stream(&self) -> (r: Vec<(String, u64)>)
        ensures
            r@.map(|i: int, p: (String, u64)| (p.0@, p.1)) == self.spec_last_error_times(),
    {
        self.last_error_time_per_stream.to_pairs()
    }

    /// Books a poll's errors into the per-stream totals, the per-stream last
    /// error time, and the manifest-error counter.
    pub fn note_poll_errors(&mut self, errors: &Vec<MonitorError>, now_ms: u64)
        requires
            old(self).wf(),
        ensures
            final(self).wf(),
            final(self).spec_state() == old(self).spec_state(),
            final(self).spec_streams() == old(self).spec_streams(),
            final(self).spec_config() == old(self).spec_config(),
            final(self).spec_data() == old(self).spec_data(),
            final(self).spec_monitor_id() == old(self).spec_monitor_id(),
            final(self).spec_last_checked() == old(self).spec_last_checked(),
            final(self).spec_manifest_error_count() as int == (if old(
                self,
            ).spec_manifest_error_count() + count_mr(errors@) > u64::MAX {
                u64::MAX as int
            } else {
                old(self).spec_manifest_error_count() + count_mr(errors@)
            }),
            forall|i: int|
                0 <= i < errors@.len() ==> crate::assoc::assoc_get(
                    final(self).spec_last_error_times(),
                    (#[trigger] errors@[i]).stream_id@,
                ) == Some(now_ms),
            forall|i: int|
                0 <= i < errors@.len() ==> (match crate::assoc::assoc_get(
                    final(self).spec_totals(),
                    (#[trigger] errors@[i]).stream_id@,
                ) {
                    Some(c) => c >= 1,
                    None => false,
                }),
    {
        let ghost ev = errors@;
        let n = errors.len();
        let mut i: usize = 0;
        proof {
            assert(count_mr(ev.take(0)) == 0) by {
                assert(ev.take(0) =~= Seq::<MonitorError>::empty());
            }
        }
        while i < n
            invariant
                i <= n,
                n == ev.len(),
                errors@ == ev,
                self.total_errors_per_stream.wf(),
                self.last_error_time_per_stream.wf(),
                self.stream_data == old(self).stream_data,
                old(self).wf(),
                self.state == old(self).state,
                self.streams == old(self).streams,
                self.config == old(self).config,
                self.monitor_id == old(self).monitor_id,
                self.id == old(self).id,
                self.created_at_ms == old(self).created_at_ms,
                self.last_checked_ms == old(self).last_checked_ms,
                self.manifest_error_count as int == (if old(self).manifest_error_count + count_mr(
                    ev.take(i as int),
                ) > u64::MAX {
                    u64::MAX as int
                } else {
                    old(self).manifest_error_count + count_mr(ev.take(i as int))
                }),
                forall|i2: int|
                    0 <= i2 < i ==> crate::assoc::assoc_get(
                        self.last_error_time_per_stream@,
                        (#[trigger] ev[i2]).stream_id@,
                    ) == Some(now_ms),
                forall|i2: int|
                    0 <= i2 < i ==> (match crate::assoc::assoc_get(
                        self.total_errors_per_stream@,
                        (#[trigger] ev[i2]).stream_id@,
                    ) {
                        Some(c) => c >= 1,
                        None => false,
                    }),
            decreases n - i,
        {
            let e = &errors[i];
            let ghost pretot = self.total_errors_per_stream@;
            let ghost pretime = self.last_error_time_per_stream@;
            let c: u64 = match self.total_errors_per_stream.get(e.stream_id.as_str()) {
                Some(v) => *v,
                None => 0,
            };
            self.total_errors_per_stream.set(e.stream_id.as_str(), c.saturating_add(1));
            self.last_error_time_per_stream.set(e.stream_id.as_str(), now_ms);
            if matches!(e.error_type, ErrorType::ManifestRetrieval) {
                self.manifest_error_count = self.manifest_error_count.saturating_add(1);
            }
            proof {
                assert(ev.take(i as int + 1).drop_last() =~= ev.take(i as int));
                assert(ev.take(i as int + 1).last() == ev[i as int]);
                assert forall|i2: int|
                    0 <= i2 < i + 1 implies crate::assoc::assoc_get(
                    self.last_error_time_per_stream@,
                    (#[trigger] ev[i2]).stream_id@,
                ) == Some(now_ms) by {
                    assert(self.last_error_time_per_stream.spec_get(ev[i2].stream_id@)
                        == crate::assoc::assoc_get(
                        self.last_error_time_per_stream@,
                        ev[i2].stream_id@,
                    ));
                }
                assert forall|i2: int|
                    0 <= i2 < i + 1 implies (match crate::assoc::assoc_get(
                    self.total_errors_per_stream@,
                    (#[trigger] ev[i2]).stream_id@,
                ) {
                    Some(c2) => c2 >= 1,
                    None => false,
                }) by {
                    assert(self.total_errors_per_stream.spec_get(ev[i2].stream_id@)
                        == crate::assoc::assoc_get(
                        self.total_errors_per_stream@,
                        ev[i2].stream_id@,
                    ));
                }
            }
            i = i + 1;
        }
        proof {
            assert(ev.take(n as int) =~= ev);
        }
    }

    /// One full poll of one stream, through the given loader: fetches the
    /// master, then every variant playlist, judges everything, and books the
    /// totals. The caller hands in the current time.
    pub fn poll_stream_with<L: crate::loader::ManifestLoader>(
        &mut self,
        stream_index: usize,
        loader: &L,
        now_ms: u64,
    ) -> (r: (Vec<MonitorError>, Vec<MonitorEvent>, Vec<crate::webhook::Notification>))
        requires
            old(self).wf(),
            stream_index < old(self).spec_streams().len(),
            old(self).time_ok(now_ms),
        ensures
            final(self).wf(),
            final(self).time_ok(now_ms),
            final(self).spec_state() == old(self).spec_state(),
            final(self).spec_streams() == old(self).spec_streams(),
            final(self).spec_config() == old(self).spec_config(),
            final(self).spec_monitor_id() == old(self).spec_monitor_id(),
            note_errors(r.2@) == r.0@,
            note_events(r.2@) == r.1@,
    {
        let url = self.streams[stream_index].url.clone();
        let master_result = loader.load(url.as_str());
        let (step, errors, notes) = self.process_master(stream_index, master_result, now_ms);
        match step {
            MasterStep::Skip | MasterStep::Recorded => {
                self.note_poll_errors(&errors, now_ms);
                proof {
                    assert(note_events(notes@) =~= Seq::<MonitorEvent>::empty());
                }
                (errors, Vec::new(), notes)
            },
            MasterStep::FetchVariants(targets) => {
                let mut results: Vec<Result<String, crate::loader::LoadError>> = Vec::new();
                let nt = targets.len();
                let mut i: usize = 0;
                while i < nt
                    invariant
                        i <= nt,
                        nt == targets@.len(),
                        results@.len() == i,
                    decreases nt - i,
                {
                    results.push(loader.load(targets[i].url.as_str()));
                    i = i + 1;
                }
                let outcomes = prepare_outcomes(results);
                let (errs, evs, ns, _changed) = self.process_variants(
                    stream_index,
                    &targets,
                    outcomes,
                    now_ms,
                );
                self.note_poll_errors(&errs, now_ms);
                (errs, evs, ns)
            },
        }
    }

    /// One full poll of every stream, in order, through the given loader.
    pub fn poll_once_with<L: crate::loader::ManifestLoader>(&mut self, loader: &L, now_ms: u64)
        requires
            old(self).wf(),
            old(self).time_ok(now_ms),
        ensures
            final(self).wf(),
            final(self).time_ok(now_ms),
            final(self).spec_state() == old(self).spec_state(),
            final(self).spec_streams() == old(self).spec_streams(),
            final(self).spec_config() == old(self).spec_config(),
            final(self).spec_monitor_id() == old(self).spec_monitor_id(),
    {
        self.begin_poll(now_ms);
        let n = self.streams.len();
        let mut i: usize = 0;
        while i < n
            invariant
                i <= n,
                n == self.spec_streams().len(),
                self.wf(),
                self.time_ok(now_ms),
                self.spec_state() == old(self).spec_state(),
                self.spec_streams() == old(self).spec_streams(),
                self.spec_config() == old(self).spec_config(),
                self.spec_monitor_id() == old(self).spec_monitor_id(),
            decreases n - i,
        {
            let _ = self.poll_stream_with(i, loader, now_ms);
            i = i + 1;
        }
    }
}


/// Whether a variant status reports exactly a variant's state, with its
/// consecutive-failure counter looked up (zero when absent).
pub open spec fn vstat_ok(
    vs: crate::state::VariantStatus,
    key: Seq<char>,
    v: VariantState,
    failures: Seq<(Seq<char>, u32)>,
) -> bool {
    &&& vs.variant_key@ == key
    &&& vs.media_type@ == v.media_type@
    &&& vs.media_sequence == v.media_sequence
    &&& vs.discontinuity_sequence == v.discontinuity_sequence
    &&& vs.segment_count == v.segment_uris@.len()
    &&& vs.playlist_duration_ms == v.duration_ms
    &&& vs.in_cue_out == v.in_cue_out
    &&& vs.cue_out_duration_ms == v.cue_out_duration_ms
    &&& vs.cue_out_count == v.cue_out_count
    &&& vs.cue_in_count == v.cue_in_count
    &&& vs.consecutive_failures == (match crate::assoc::assoc_get(failures, key) {
        Some(c) => c,
        None => 0u32,
    })
}

/// Whether a variant status reports a known variant that is missing from
/// the fresh master: all counters zero but the failure counter kept.
pub open spec fn vstat_missing_ok(
    vs: crate::state::VariantStatus,
    key: Seq<char>,
    media_type: Seq<char>,
    failures: Seq<(Seq<char>, u32)>,
) -> bool {
    &&& vs.variant_key@ == key
    &&& vs.media_type@ == media_type
    &&& vs.media_sequence == 0
    &&& vs.discontinuity_sequence == 0
    &&& vs.segment_count == 0
    &&& vs.playlist_duration_ms == 0
    &&& !vs.in_cue_out
    &&& vs.cue_out_duration_ms is None
    &&& vs.cue_out_count == 0
    &&& vs.cue_in_count == 0
    &&& vs.consecutive_failures == (match crate::assoc::assoc_get(failures, key) {
        Some(c) => c,
        None => 0u32,
    })
}

/// The known variants that are missing from the current variant map, in
/// order.
pub open spec fn missing_known(
    known: Seq<(Seq<char>, String)>,
    vars: Seq<(Seq<char>, VariantState)>,
) -> Seq<(Seq<char>, String)>
    decreases known.len(),
{
    if known.len() == 0 {
        Seq::empty()
    } else {
        missing_known(known.drop_last(), vars) + if crate::assoc::assoc_has(
            vars,
            known.last().0,
        ) {
            Seq::empty()
        } else {
            seq![known.last()]
        }
    }
}

/// Whether a stream status reports a stream's state: identity, timestamps,
/// error count, one entry per current variant, then one zeroed entry per
/// known variant that vanished from the master.
pub open spec fn status_ok(
    st: crate::state::StreamStatus,
    item: StreamItem,
    sd: StreamData,
) -> bool {
    let miss = missing_known(sd.known_variants@, sd.variants@);
    &&& st.stream_id@ == item.id@
    &&& st.stream_url@ == item.url@
    &&& st.last_fetch_ms == sd.last_fetch_ms
    &&& st.last_content_change_ms == sd.last_content_change_ms
    &&& st.error_count == sd.errors@.len()
    &&& st.variants@.len() == sd.variants@.len() + miss.len()
    &&& (forall|i: int|
        0 <= i < sd.variants@.len() ==> vstat_ok(
            #[trigger] st.variants@[i],
            sd.variants@[i].0,
            sd.variants@[i].1,
            sd.variant_failures@,
        ))
    &&& (forall|i: int|
        0 <= i < miss.len() ==> vstat_missing_ok(
            #[trigger] st.variants@[sd.variants@.len() + i],
            miss[i].0,
            miss[i].1@,
            sd.variant_failures@,
        ))
}

/// The monitored streams that have per-stream state, in order.
pub open spec fn streams_with_data(
    streams: Seq<StreamItem>,
    data: Seq<(Seq<char>, StreamData)>,
) -> Seq<StreamItem>
    decreases streams.len(),
{
    if streams.len() == 0 {
        Seq::empty()
    } else {
        streams_with_data(streams.drop_last(), data) + if crate::assoc::assoc_get(
            data,
            base_url_of(streams.last().url@),
        ) is Some {
            seq![streams.last()]
        } else {
            Seq::empty()
        }
    }
}

impl Monitor {
    /// A read-only snapshot of every monitored stream that has state: its
    /// timestamps, error count, and per-variant status, with known variants
    /// that vanished from the master reported as unavailable entries.
    pub fn get_stream_status(&self) -> (r: Vec<crate::state::StreamStatus>)
        requires
            self.wf(),
        ensures
            r@.len() == streams_with_data(self.spec_streams(), self.spec_data()).len(),
            forall|k: int|
                0 <= k < r@.len() ==> status_ok(
                    #[trigger] r@[k],
                    streams_with_data(self.spec_streams(), self.spec_data())[k],
                    self.spec_data_get(
                        base_url_of(
                            streams_with_data(self.spec_streams(), self.spec_data())[k].url@,
                        ),
                    )->Some_0,
                ),
    {
        let ghost swd = streams_with_data(self.spec_streams(), self.spec_data());
        let mut r: Vec<crate::state::StreamStatus> = Vec::new();
        let n = self.streams.len();
        let mut i: usize = 0;
        proof {
            assert(streams_with_data(self.spec_streams().take(0), self.spec_data()) =~= Seq::<
                StreamItem,
            >::empty());
        }
        while i < n
            invariant
                i <= n,
                self.wf(),
                n == self.spec_streams().len(),
                swd == streams_with_data(self.spec_streams(), self.spec_data()),
                r@.len() == streams_with_data(
                    self.spec_streams().take(i as int),
                    self.spec_data(),
                ).len(),
                forall|k: int|
                    0 <= k < r@.len() ==> status_ok(
                        #[trigger] r@[k],
                        streams_with_data(self.spec_streams().take(i as int), self.spec_data())[k],
                        self.spec_data_get(
                            base_url_of(
                                streams_with_data(
                                    self.spec_streams().take(i as int),
                                    self.spec_data(),
                                )[k].url@,
                            ),
                        )->Some_0,
                    ),
            decreases n - i,
        {
            let ghost prefix = streams_with_data(self.spec_streams().take(i as int), self.spec_data());
            let item = &self.streams[i];
            let base = get_base_url(item.url.as_str());
            match self.stream_data.get(base.as_str()) {
                Some(sd) => {
                    proof {
                        crate::assoc::lemma_assoc_get_some(self.spec_data(), base@);
                        let w = choose|w: int|
                            0 <= w < self.spec_data().len() && self.spec_data()[w].0 == base@
                                && Some(#[trigger] self.spec_data()[w].1)
                                == crate::assoc::assoc_get(self.spec_data(), base@);
                        assert(self.spec_data()[w].1.wf());
                        assert(sd.wf());
                    }
                    let mut variants: Vec<crate::state::VariantStatus> = Vec::new();
                    let nv = sd.variants.len();
                    let mut j: usize = 0;
                    while j < nv
                        invariant
                            j <= nv,
                            sd.variants.wf(),
                            sd.variant_failures.wf(),
                            nv == sd.variants@.len(),
                            variants@.len() == j,
                            forall|k: int|
                                0 <= k < j ==> vstat_ok(
                                    #[trigger] variants@[k],
                                    sd.variants@[k].0,
                                    sd.variants@[k].1,
                                    sd.variant_failures@,
                                ),
                        decreases nv - j,
                    {
                        let key = sd.variants.key_at(j);
                        let v = sd.variants.val_at(j);
                        let fails: u32 = match sd.variant_failures.get(key.as_str()) {
                            Some(c) => *c,
                            None => 0,
                        };
                        variants.push(
                            crate::state::VariantStatus {
                                variant_key: key.clone(),
                                media_type: v.media_type.clone(),
                                media_sequence: v.media_sequence,
                                discontinuity_sequence: v.discontinuity_sequence,
                                segment_count: v.segment_uris.len(),
                                playlist_duration_ms: v.duration_ms,
                                in_cue_out: v.in_cue_out,
                                cue_out_duration_ms: v.cue_out_duration_ms,
                                cue_out_count: v.cue_out_count,
                                cue_in_count: v.cue_in_count,
                                consecutive_failures: fails,
                            },
                        );
                        j = j + 1;
                    }
                    let nk = sd.known_variants.len();
                    let mut j: usize = 0;
                    proof {
                        assert(missing_known(sd.known_variants@.take(0), sd.variants@) =~= Seq::<
                            (Seq<char>, String),
                        >::empty());
                    }
                    while j < nk
                        invariant
                            j <= nk,
                            sd.variants.wf(),
                            sd.variant_failures.wf(),
                            sd.known_variants.wf(),
                            nk == sd.known_variants@.len(),
                            nv == sd.variants@.len(),
                            variants@.len() == nv + missing_known(
                                sd.known_variants@.take(j as int),
                                sd.variants@,
                            ).len(),
                            forall|k: int|
                                0 <= k < nv ==> vstat_ok(
                                    #[trigger] variants@[k],
                                    sd.variants@[k].0,
                                    sd.variants@[k].1,
                                    sd.variant_failures@,
                                ),
                            forall|k: int|
                                0 <= k < missing_known(
                                    sd.known_variants@.take(j as int),
                                    sd.variants@,
                                ).len() ==> vstat_missing_ok(
                                    #[trigger] variants@[nv + k],
                                    missing_known(
                                        sd.known_variants@.take(j as int),
                                        sd.variants@,
                                    )[k].0,
                                    missing_known(
                                        sd.known_variants@.take(j as int),
                                        sd.variants@,
                                    )[k].1@,
                                    sd.variant_failures@,
                                ),
                        decreases nk - j,
                    {
                        let key = sd.known_variants.key_at(j);
                        let ghost premiss = missing_known(
                            sd.known_variants@.take(j as int),
                            sd.variants@,
                        );
                        if !sd.variants.contains_key(key.as_str()) {
                            let mt = sd.known_variants.val_at(j);
                            let fails: u32 = match sd.variant_failures.get(key.as_str()) {
                                Some(c) => *c,
                                None => 0,
                            };
                            variants.push(
                                crate::state::VariantStatus {
                                    variant_key: key.clone(),
                                    media_type: mt.clone(),
                                    media_sequence: 0,
                                    discontinuity_sequence: 0,
                                    segment_count: 0,
                                    playlist_duration_ms: 0,
                                    in_cue_out: false,
                                    cue_out_duration_ms: None,
                                    cue_out_count: 0,
                                    cue_in_count: 0,
                                    consecutive_failures: fails,
                                },
                            );
                        }
                        proof {
                            assert(sd.known_variants@.take(j as int + 1).drop_last()
                                =~= sd.known_variants@.take(j as int));
                            assert(sd.known_variants@.take(j as int + 1).last()
                                == sd.known_variants@[j as int]);
                        }
                        j = j + 1;
                    }
                    proof {
                        assert(sd.known_variants@.take(nk as int) =~= sd.known_variants@);
                    }
                    let st = crate::state::StreamStatus {
                        stream_id: item.id.clone(),
                        stream_url: item.url.clone(),
                        last_fetch_ms: sd.last_fetch_ms,
                        last_content_change_ms: sd.last_content_change_ms,
                        error_count: sd.errors.len(),
                        variants,
                    };
                    let ghost prer = r@;
                    r.push(st);
                    proof {
                        assert(self.spec_streams().take(i as int + 1).drop_last()
                            =~= self.spec_streams().take(i as int));
                        assert(self.spec_streams().take(i as int + 1).last()
                            == self.spec_streams()[i as int]);
                        assert(streams_with_data(
                            self.spec_streams().take(i as int + 1),
                            self.spec_data(),
                        ) =~= prefix.push(self.spec_streams()[i as int]));
                    }
                },
                None => {
                    proof {
                        assert(self.spec_streams().take(i as int + 1).drop_last()
                            =~= self.spec_streams().take(i as int));
                        assert(self.spec_streams().take(i as int + 1).last()
                            == self.spec_streams()[i as int]);
                        assert(streams_with_data(
                            self.spec_streams().take(i as int + 1),
                            self.spec_data(),
                        ) =~= prefix);
                    }
                },
            }
            i = i + 1;
        }
        proof {
            assert(self.spec_streams().take(n as int) =~= self.spec_streams());
        }
        r
    }
}

} // verus!
