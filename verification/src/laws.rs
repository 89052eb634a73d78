//! Laws the library keeps across calls, stated and proved here so a reader
//! sees them in one place. The per-function contracts in the other modules
//! supply the pieces.

use vstd::prelude::*;

use crate::checks::{content_scan, gap_scan, sda_scan, td_scan, discontinuity_cores,
    media_sequence_cores, mseq_gap_cores, playlist_content_cores, playlist_size_cores,
    playlist_type_cores, scte35_cores, segment_continuity_cores, variant_check_cores,
    version_cores, target_duration_cores, sda_cores, gap_cores};
use crate::config::MonitorConfig;
use crate::engine::{derived_state_m, latch_next};
use crate::error::ErrorCore;
use crate::playlist::{PlaylistModel, SegmentModel};
use crate::state::{legal_transition, CheckContext, MonitorState, PlaylistSnapshot, VariantState};
use crate::strutil::uris_match;

verus! {

/// The lifecycle graph has exactly four edges: Idle to Active, Active to
/// Stopping, Stopping to Stopped, and Stopped to Active. Every transition
/// the monitor's lifecycle methods make is either a self-loop or one of
/// these, as their contracts state.
pub proof fn lemma_legal_transitions_exactly_four(from: MonitorState, to: MonitorState)
    ensures
        legal_transition(from, to) <==> ((from == MonitorState::Idle && to == MonitorState::Active)
            || (from == MonitorState::Active && to == MonitorState::Stopping) || (from
            == MonitorState::Stopping && to == MonitorState::Stopped) || (from
            == MonitorState::Stopped && to == MonitorState::Active)),
{
}

/// The ad-break latch after a poll follows one rule: a visible CUE-OUT opens
/// it unless a CUE-IN also appears; a CUE-IN alone closes it; otherwise it
/// carries over.
pub proof fn lemma_cue_latch_rule(has_cue_out: bool, has_cue_in: bool, was_in_cue_out: bool)
    ensures
        latch_next(has_cue_out, has_cue_in, was_in_cue_out) == (if has_cue_out {
            !has_cue_in
        } else if has_cue_in {
            false
        } else {
            was_in_cue_out
        }),
{
}

/// Round trip: reducing a parsed playlist to the variant state carried to
/// the next poll preserves its media sequence, its discontinuity sequence,
/// and its ordered segment URIs.
pub proof fn lemma_snapshot_state_round_trip(
    media_type: Seq<char>,
    p: PlaylistModel,
    in_cue_out: bool,
)
    ensures
        derived_state_m(media_type, p, in_cue_out).media_sequence == p.media_sequence,
        derived_state_m(media_type, p, in_cue_out).discontinuity_sequence
            == p.discontinuity_sequence,
        derived_state_m(media_type, p, in_cue_out).segment_uris == p.segments.map(
            |i: int, s: SegmentModel| s.uri,
        ),
{
}

/// Whether a snapshot repeats the previous window: same media sequence, the
/// same number of segments, and every positional URI unchanged once query
/// strings are ignored.
pub open spec fn unchanged_window(prev: VariantState, curr: PlaylistSnapshot) -> bool {
    &&& curr.media_sequence == prev.media_sequence
    &&& curr.segments@.len() == prev.segment_uris@.len()
    &&& (forall|i: int|
        0 <= i < curr.segments@.len() ==> uris_match(
            (#[trigger] prev.segment_uris@[i])@,
            curr.segments@[i].uri@,
        ))
}

/// Whether a snapshot is free of the per-snapshot anomalies that fire on
/// every poll regardless of change: over-long segments, gaps, and short
/// non-final segments.
pub open spec fn snapshot_clean(curr: PlaylistSnapshot, config: MonitorConfig) -> bool {
    &&& (forall|i: int|
        0 <= i < curr.segments@.len() ==> (#[trigger] curr.segments@[i]).duration_ms
            <= curr.target_duration_ms + config.target_duration_tolerance_ms)
    &&& (forall|i: int| 0 <= i < curr.segments@.len() ==> !(#[trigger] curr.segments@[i]).gap)
    &&& (forall|i: int|
        0 <= i < curr.segments@.len() - 1 ==> (#[trigger] curr.segments@[i]).duration_ms
            >= curr.target_duration_ms * config.segment_duration_anomaly_percent / 100)
}

proof fn lemma_td_scan_empty(curr: PlaylistSnapshot, tol: u64, ctx: CheckContext, i: int)
    requires
        forall|k: int|
            0 <= k < curr.segments@.len() ==> (#[trigger] curr.segments@[k]).duration_ms
                <= curr.target_duration_ms + tol,
    ensures
        td_scan(curr, tol, ctx, i) == Seq::<ErrorCore>::empty(),
    decreases curr.segments@.len() - i,
{
    if 0 <= i < curr.segments@.len() {
        lemma_td_scan_empty(curr, tol, ctx, i + 1);
        assert(td_scan(curr, tol, ctx, i) =~= Seq::<ErrorCore>::empty());
    }
}

proof fn lemma_gap_scan_empty(curr: PlaylistSnapshot, ctx: CheckContext, i: int)
    requires
        forall|k: int| 0 <= k < curr.segments@.len() ==> !(#[trigger] curr.segments@[k]).gap,
    ensures
        gap_scan(curr, ctx, i) == Seq::<ErrorCore>::empty(),
    decreases curr.segments@.len() - i,
{
    if 0 <= i < curr.segments@.len() {
        lemma_gap_scan_empty(curr, ctx, i + 1);
        assert(gap_scan(curr, ctx, i) =~= Seq::<ErrorCore>::empty());
    }
}

proof fn lemma_sda_scan_empty(curr: PlaylistSnapshot, percent: u64, ctx: CheckContext, i: int)
    requires
        forall|k: int|
            0 <= k < curr.segments@.len() - 1 ==> (#[trigger] curr.segments@[k]).duration_ms
                >= curr.target_duration_ms * percent / 100,
    ensures
        sda_scan(curr, percent, ctx, i) == Seq::<ErrorCore>::empty(),
    decreases curr.segments@.len() - i,
{
    if 0 <= i < curr.segments@.len() - 1 {
        lemma_sda_scan_empty(curr, percent, ctx, i + 1);
        assert(sda_scan(curr, percent, ctx, i) =~= Seq::<ErrorCore>::empty());
    }
}

proof fn lemma_content_scan_empty(
    prev: VariantState,
    curr: PlaylistSnapshot,
    ctx: CheckContext,
    i: int,
)
    requires
        forall|k: int|
            0 <= k < curr.segments@.len() ==> uris_match(
                (#[trigger] prev.segment_uris@[k])@,
                curr.segments@[k].uri@,
            ),
        prev.segment_uris@.len() == curr.segments@.len(),
    ensures
        content_scan(prev, curr, ctx, i) == Seq::<ErrorCore>::empty(),
    decreases crate::checks::uri_views(prev.segment_uris@).len() - i,
{
    if 0 <= i < crate::checks::uri_views(prev.segment_uris@).len() && i < curr.segments@.len() {
        assert(crate::checks::uri_views(prev.segment_uris@)[i] == prev.segment_uris@[i]@);
        lemma_content_scan_empty(prev, curr, ctx, i + 1);
        assert(content_scan(prev, curr, ctx, i) =~= Seq::<ErrorCore>::empty());
    }
}

/// A quiet poll raises nothing: when a snapshot repeats the previous window
/// (same media sequence, same size, same URIs up to query strings), is free
/// of per-snapshot anomalies, declares no conflicting version, carries no
/// stray CUE-IN or CUE-OUT-CONT against the latch, and the optional
/// program-date-time and date-range checks are off, the whole battery emits
/// no error. A snapshot with, say, a segment marked `EXT-X-GAP` is flagged
/// on every poll even when nothing changed, so such inputs are excluded.
pub proof fn lemma_unchanged_playlist_quiet(
    config: MonitorConfig,
    prev: VariantState,
    curr: PlaylistSnapshot,
    ctx: CheckContext,
)
    requires
        unchanged_window(prev, curr),
        snapshot_clean(curr, config),
        !(prev.version is Some && curr.version is Some
            && prev.version->Some_0 != curr.version->Some_0),
        crate::state::any_cue_in(curr.segments@) ==> (prev.in_cue_out || crate::state::any_cue_out(
            curr.segments@,
        )),
        crate::state::any_cue_out_cont(curr.segments@) ==> (prev.in_cue_out
            || crate::state::any_cue_out(curr.segments@)),
        !config.pdt_checks_enabled,
        !config.daterange_checks_enabled,
    ensures
        variant_check_cores(config, prev, curr, ctx) == Seq::<ErrorCore>::empty(),
{
    assert(media_sequence_cores(prev, curr, ctx) =~= Seq::<ErrorCore>::empty());
    assert(playlist_size_cores(prev, curr, ctx) =~= Seq::<ErrorCore>::empty());
    lemma_content_scan_empty(prev, curr, ctx, 0);
    assert(playlist_content_cores(prev, curr, ctx) =~= Seq::<ErrorCore>::empty());
    assert(segment_continuity_cores(prev, curr, ctx) =~= Seq::<ErrorCore>::empty());
    assert(discontinuity_cores(prev, curr, ctx) =~= Seq::<ErrorCore>::empty());
    assert(scte35_cores(prev, curr, ctx) =~= Seq::<ErrorCore>::empty());
    lemma_td_scan_empty(curr, config.target_duration_tolerance_ms, ctx, 0);
    assert(target_duration_cores(curr, config.target_duration_tolerance_ms, ctx) =~= Seq::<
        ErrorCore,
    >::empty());
    lemma_gap_scan_empty(curr, ctx, 0);
    assert(gap_cores(curr, ctx) =~= Seq::<ErrorCore>::empty());
    assert(mseq_gap_cores(prev, curr, config.mseq_gap_threshold, ctx) =~= Seq::<
        ErrorCore,
    >::empty());
    assert(playlist_type_cores(prev, curr, ctx) =~= Seq::<ErrorCore>::empty());
    lemma_sda_scan_empty(curr, config.segment_duration_anomaly_percent, ctx, 0);
    assert(sda_cores(curr, config.segment_duration_anomaly_percent, ctx) =~= Seq::<
        ErrorCore,
    >::empty());
    assert(version_cores(prev, curr, ctx) =~= Seq::<ErrorCore>::empty());
    assert(variant_check_cores(config, prev, curr, ctx) =~= Seq::<ErrorCore>::empty());
}

} // verus!
