//! The per-variant check battery: pure comparisons of the previous variant
//! state with a freshly parsed playlist snapshot. Each check's contract
//! gives, error by error, the exact kind and detail text it emits.

use vstd::prelude::*;

use crate::error::{ErrorCore, ErrorType, MonitorError};
use crate::messages::{fmt_disc_early, fmt_disc_wrong, fmt_event_playlist, fmt_gap,
    fmt_media_sequence, fmt_mseq_gap, fmt_playlist_content, fmt_playlist_size, fmt_scte_cont,
    fmt_scte_cue_in, fmt_scte_disappeared, fmt_segment_continuity, fmt_short_segment,
    fmt_target_duration, fmt_version, fmt_vod_playlist, fmt_pdt_jump, fmt_dr_end_before_start, fmt_dr_negative_duration, fmt_dr_eon_class, fmt_dr_eon_bounds, fmt_stale, msg_disc_early, msg_disc_wrong,
    msg_event_playlist, msg_gap, msg_media_sequence, msg_mseq_gap, msg_playlist_content,
    msg_playlist_size, msg_scte_cont, msg_scte_cue_in, msg_scte_disappeared,
    msg_segment_continuity, msg_short_segment, msg_target_duration, msg_version, msg_pdt_jump, msg_dr_end_before_start, msg_dr_negative_duration, msg_dr_eon_class, msg_dr_eon_bounds, msg_stale,
    msg_vod_playlist};
use crate::state::{CheckContext, PlaylistSnapshot, PlaylistType, SegmentInfo, VariantState};
use crate::strutil::{strip_query_spec, uris_match};

verus! {

/// The cores of a run of errors, in order.
pub open spec fn cores(s: Seq<MonitorError>) -> Seq<ErrorCore> {
    s.map(|i: int, e: MonitorError| e.core_data())
}

/// The core of an error a per-variant check emits: typed by the check, and
/// addressed with the context's stream and variant identity.
pub open spec fn check_core(ctx: CheckContext, t: ErrorType, details: Seq<char>) -> ErrorCore {
    ErrorCore {
        timestamp_ms: ctx.now_ms,
        error_type: t,
        media_type: ctx.media_type@,
        variant: ctx.variant_key@,
        details,
        stream_url: ctx.stream_url@,
        stream_id: ctx.stream_id@,
        status_code: None,
    }
}

/// Builds the error a per-variant check emits.
fn mk_check_error(ctx: &CheckContext, t: ErrorType, details: String) -> (r: MonitorError)
    ensures
        r.core_data() == check_core(*ctx, t, details@),
{
    MonitorError::new(
        t,
        self_str(&ctx.media_type),
        self_str(&ctx.variant_key),
        details.as_str(),
        self_str(&ctx.stream_url),
        self_str(&ctx.stream_id),
        ctx.now_ms,
    )
}

/// A `String` as a slice with the same characters.
fn self_str(s: &String) -> (r: &str)
    ensures
        r@ == s@,
{
    s.as_str()
}

/// The URI views of a run of remembered segment URIs.
pub open spec fn uri_views(v: Seq<String>) -> Seq<Seq<char>> {
    v.map(|i: int, s: String| s@)
}

/// Detects media-sequence regressions: the media sequence must never move
/// backwards between polls.
pub struct MediaSequenceCheck;

/// The errors `MediaSequenceCheck` emits: exactly one when the snapshot's
/// media sequence is below the previous one, none otherwise.
pub open spec fn media_sequence_cores(
    prev: VariantState,
    curr: PlaylistSnapshot,
    ctx: CheckContext,
) -> Seq<ErrorCore> {
    if curr.media_sequence < prev.media_sequence {
        seq![
            check_core(
                ctx,
                ErrorType::MediaSequence,
                msg_media_sequence(prev.media_sequence as nat, curr.media_sequence as nat),
            ),
        ]
    } else {
        Seq::empty()
    }
}

impl MediaSequenceCheck {
    /// Flags a media sequence that moved backwards.
    pub fn check(&self, prev: &VariantState, curr: &PlaylistSnapshot, ctx: &CheckContext) -> (r:
        Vec<MonitorError>)
        ensures
            cores(r@) == media_sequence_cores(*prev, *curr, *ctx),
    {
        let mut r: Vec<MonitorError> = Vec::new();
        if curr.media_sequence < prev.media_sequence {
            let details = fmt_media_sequence(prev.media_sequence, curr.media_sequence);
            r.push(mk_check_error(ctx, ErrorType::MediaSequence, details));
        }
        proof {
            assert(cores(r@) =~= media_sequence_cores(*prev, *curr, *ctx));
        }
        r
    }
}

/// Detects playlist shrinkage: at an unchanged media sequence, the playlist
/// must not lose segments.
pub struct PlaylistSizeCheck;

/// The errors `PlaylistSizeCheck` emits: exactly one when the media sequence
/// is unchanged, the previous window was non-empty, and the new window is
/// smaller; none otherwise.
pub open spec fn playlist_size_cores(
    prev: VariantState,
    curr: PlaylistSnapshot,
    ctx: CheckContext,
) -> Seq<ErrorCore> {
    if curr.media_sequence == prev.media_sequence && prev.segment_uris@.len() > 0
        && prev.segment_uris@.len() > curr.segments@.len() {
        seq![
            check_core(
                ctx,
                ErrorType::PlaylistSize,
                msg_playlist_size(
                    curr.media_sequence as nat,
                    prev.segment_uris@.len(),
                    curr.segments@.len(),
                ),
            ),
        ]
    } else {
        Seq::empty()
    }
}

impl PlaylistSizeCheck {
    /// Flags a playlist that shrank at an unchanged media sequence.
    pub fn check(&self, prev: &VariantState, curr: &PlaylistSnapshot, ctx: &CheckContext) -> (r:
        Vec<MonitorError>)
        ensures
            cores(r@) == playlist_size_cores(*prev, *curr, *ctx),
    {
        let mut r: Vec<MonitorError> = Vec::new();
        if curr.media_sequence == prev.media_sequence && prev.segment_uris.len() > 0
            && prev.segment_uris.len() > curr.segments.len() {
            let details = fmt_playlist_size(
                curr.media_sequence,
                prev.segment_uris.len(),
                curr.segments.len(),
            );
            r.push(mk_check_error(ctx, ErrorType::PlaylistSize, details));
        }
        proof {
            assert(cores(r@) =~= playlist_size_cores(*prev, *curr, *ctx));
        }
        r
    }
}

/// Detects content swaps: at an unchanged media sequence and size, every
/// positional URI must match, query strings ignored.
pub struct PlaylistContentCheck;

impl PlaylistContentCheck {
    /// A URI with its query string removed.
    pub fn normalize_uri(uri: &str) -> (r: String)
        ensures
            r@ == strip_query_spec(uri@),
    {
        crate::strutil::strip_query(uri)
    }
}

/// The first position at or after `i` whose URIs differ (query strings
/// ignored) yields the single content error; positions that match are
/// passed over.
pub open spec fn content_scan(
    prev: VariantState,
    curr: PlaylistSnapshot,
    ctx: CheckContext,
    i: int,
) -> Seq<ErrorCore>
    decreases uri_views(prev.segment_uris@).len() - i,
{
    let p = uri_views(prev.segment_uris@);
    let c = curr.segments@;
    if i < 0 || i >= p.len() || i >= c.len() {
        Seq::empty()
    } else if !uris_match(p[i], c[i].uri@) {
        seq![
            check_core(
                ctx,
                ErrorType::PlaylistContent,
                msg_playlist_content(curr.media_sequence as nat, i as nat, p[i], c[i].uri@),
            ),
        ]
    } else {
        content_scan(prev, curr, ctx, i + 1)
    }
}

/// The errors `PlaylistContentCheck` emits: when the media sequence is
/// unchanged and both windows have the same non-zero size, one error for the
/// first position whose URIs differ once query strings are ignored; none
/// otherwise.
pub open spec fn playlist_content_cores(
    prev: VariantState,
    curr: PlaylistSnapshot,
    ctx: CheckContext,
) -> Seq<ErrorCore> {
    let p = uri_views(prev.segment_uris@);
    let c = curr.segments@;
    if curr.media_sequence == prev.media_sequence && p.len() == c.len() && p.len() > 0 {
        content_scan(prev, curr, ctx, 0)
    } else {
        Seq::empty()
    }
}

impl PlaylistContentCheck {
    /// Flags the first positional URI change at an unchanged media sequence.
    pub fn check(&self, prev: &VariantState, curr: &PlaylistSnapshot, ctx: &CheckContext) -> (r:
        Vec<MonitorError>)
        ensures
            cores(r@) == playlist_content_cores(*prev, *curr, *ctx),
    {
        let ghost p = uri_views(prev.segment_uris@);
        let ghost c = curr.segments@;
        proof {
            assert(forall|j: int| 0 <= j < p.len() ==> p[j] == prev.segment_uris@[j]@);
        }
        let mut r: Vec<MonitorError> = Vec::new();
        if curr.media_sequence == prev.media_sequence && prev.segment_uris.len()
            == curr.segments.len() && prev.segment_uris.len() > 0 {
            let n = prev.segment_uris.len();
            let mut i: usize = 0;
            while i < n
                invariant
                    i <= n,
                    n == p.len(),
                    n == c.len(),
                    n > 0,
                    curr.media_sequence == prev.media_sequence,
                    p == uri_views(prev.segment_uris@),
                    c == curr.segments@,
                    r@ == Seq::<MonitorError>::empty(),
                    forall|j: int| 0 <= j < p.len() ==> p[j] == prev.segment_uris@[j]@,
                    content_scan(*prev, *curr, *ctx, 0) == content_scan(*prev, *curr, *ctx, i as int),
                decreases n - i,
            {
                if !crate::strutil::uri_eq(
                    prev.segment_uris[i].as_str(),
                    curr.segments[i].uri.as_str(),
                ) {
                    let details = fmt_playlist_content(
                        curr.media_sequence,
                        i,
                        prev.segment_uris[i].as_str(),
                        curr.segments[i].uri.as_str(),
                    );
                    r.push(mk_check_error(ctx, ErrorType::PlaylistContent, details));
                    proof {
                        assert(content_scan(*prev, *curr, *ctx, i as int) =~~= cores(r@));
                        assert(curr.media_sequence == prev.media_sequence && p.len() == c.len()
                            && p.len() > 0);
                        assert(playlist_content_cores(*prev, *curr, *ctx) == content_scan(
                            *prev,
                            *curr,
                            *ctx,
                            0,
                        ));
                        assert(cores(r@) =~~= playlist_content_cores(*prev, *curr, *ctx));
                    }
                    return r;
                }
                i = i + 1;
            }
        }
        proof {
            assert(cores(r@) =~~= playlist_content_cores(*prev, *curr, *ctx));
        }
        r
    }
}

/// Validates segment continuity: when the media sequence advances by less
/// than the previous window, the new first segment must be the one the
/// previous window predicts at that offset.
pub struct SegmentContinuityCheck;

impl SegmentContinuityCheck {
    /// A URI with its query string removed.
    pub fn normalize_uri(uri: &str) -> (r: String)
        ensures
            r@ == strip_query_spec(uri@),
    {
        crate::strutil::strip_query(uri)
    }
}

/// The errors `SegmentContinuityCheck` emits: exactly one when the media
/// sequence advanced by less than the previous window size and the new first
/// URI differs (query strings ignored) from the previous URI at that offset;
/// none otherwise.
pub open spec fn segment_continuity_cores(
    prev: VariantState,
    curr: PlaylistSnapshot,
    ctx: CheckContext,
) -> Seq<ErrorCore> {
    let p = uri_views(prev.segment_uris@);
    if curr.media_sequence > prev.media_sequence && curr.segments@.len() > 0 && p.len() > 0 && (
    curr.media_sequence - prev.media_sequence < p.len()) && !uris_match(
        p[curr.media_sequence - prev.media_sequence],
        curr.segments@[0].uri@,
    ) {
        seq![
            check_core(
                ctx,
                ErrorType::SegmentContinuity,
                msg_segment_continuity(
                    curr.media_sequence as nat,
                    p[curr.media_sequence - prev.media_sequence],
                    curr.segments@[0].uri@,
                ),
            ),
        ]
    } else {
        Seq::empty()
    }
}

impl SegmentContinuityCheck {
    /// Flags a new first segment that breaks continuity with the previous
    /// window.
    pub fn check(&self, prev: &VariantState, curr: &PlaylistSnapshot, ctx: &CheckContext) -> (r:
        Vec<MonitorError>)
        ensures
            cores(r@) == segment_continuity_cores(*prev, *curr, *ctx),
    {
        let mut r: Vec<MonitorError> = Vec::new();
        if curr.media_sequence > prev.media_sequence && curr.segments.len() > 0
            && prev.segment_uris.len() > 0 {
            let diff = curr.media_sequence - prev.media_sequence;
            if diff < prev.segment_uris.len() as u64 {
                let idx = diff as usize;
                let expected = &prev.segment_uris[idx];
                let actual = &curr.segments[0].uri;
                if !crate::strutil::uri_eq(expected.as_str(), actual.as_str()) {
                    let details = fmt_segment_continuity(
                        curr.media_sequence,
                        expected.as_str(),
                        actual.as_str(),
                    );
                    r.push(mk_check_error(ctx, ErrorType::SegmentContinuity, details));
                }
            }
        }
        proof {
            assert(cores(r@) =~= segment_continuity_cores(*prev, *curr, *ctx));
        }
        r
    }
}

/// How many of the first `end` remembered segments carry a discontinuity.
pub open spec fn disc_count(segs: Seq<SegmentInfo>, end: int) -> int
    decreases end,
{
    if end <= 0 {
        0
    } else {
        disc_count(segs, end - 1) + if segs[end - 1].discontinuity {
            1int
        } else {
            0int
        }
    }
}

/// Validates the discontinuity-sequence counter against the discontinuity
/// tags remembered from the previous playlist.
pub struct DiscontinuityCheck;

/// The errors `DiscontinuityCheck` emits. With an advanced media sequence:
/// if the previous poll predicted a discontinuity about to slide out
/// (`next_is_discontinuity`) and the new window does not start on one, a
/// single-step advance must raise the counter by exactly one ("wrong count
/// increment"). Otherwise, when the counter changed and the advance is
/// smaller than the remembered window, the change must equal the number of
/// discontinuity tags crossed ("early count increment"). A media sequence
/// jump past the remembered window is not judged.
pub open spec fn discontinuity_cores(
    prev: VariantState,
    curr: PlaylistSnapshot,
    ctx: CheckContext,
) -> Seq<ErrorCore> {
    if curr.media_sequence <= prev.media_sequence {
        Seq::empty()
    } else {
        let diff = curr.media_sequence - prev.media_sequence;
        let disc_on_top = curr.segments@.len() > 0 && curr.segments@[0].discontinuity;
        if !disc_on_top && prev.next_is_discontinuity {
            if diff == 1 && prev.discontinuity_sequence.saturating_add(1)
                != curr.discontinuity_sequence {
                seq![
                    check_core(
                        ctx,
                        ErrorType::DiscontinuitySequence,
                        msg_disc_wrong(
                            curr.media_sequence as nat,
                            prev.discontinuity_sequence.saturating_add(1) as nat,
                            curr.discontinuity_sequence as nat,
                        ),
                    ),
                ]
            } else {
                Seq::empty()
            }
        } else if prev.discontinuity_sequence != curr.discontinuity_sequence {
            let size = prev.prev_segments@.len() as int;
            if diff < size {
                let end = if diff + 1 < size {
                    diff + 1
                } else {
                    size
                };
                let found = disc_count(prev.prev_segments@, end) - if disc_on_top {
                    1int
                } else {
                    0int
                };
                if curr.discontinuity_sequence - prev.discontinuity_sequence != found {
                    seq![
                        check_core(
                            ctx,
                            ErrorType::DiscontinuitySequence,
                            msg_disc_early(
                                curr.media_sequence as nat,
                                prev.discontinuity_sequence as nat,
                                curr.discontinuity_sequence as nat,
                            ),
                        ),
                    ]
                } else {
                    Seq::empty()
                }
            } else {
                Seq::empty()
            }
        } else {
            Seq::empty()
        }
    }
}

impl DiscontinuityCheck {
    /// Flags discontinuity-sequence counters that do not match the
    /// discontinuity tags crossed since the previous poll.
    pub fn check(&self, prev: &VariantState, curr: &PlaylistSnapshot, ctx: &CheckContext) -> (r:
        Vec<MonitorError>)
        ensures
            cores(r@) == discontinuity_cores(*prev, *curr, *ctx),
    {
        let mut r: Vec<MonitorError> = Vec::new();
        if curr.media_sequence > prev.media_sequence {
            let diff = curr.media_sequence - prev.media_sequence;
            let disc_on_top = curr.segments.len() > 0 && curr.segments[0].discontinuity;
            if !disc_on_top && prev.next_is_discontinuity {
                if diff == 1 && prev.discontinuity_sequence.saturating_add(1)
                    != curr.discontinuity_sequence {
                    let details = fmt_disc_wrong(
                        curr.media_sequence,
                        prev.discontinuity_sequence.saturating_add(1),
                        curr.discontinuity_sequence,
                    );
                    r.push(mk_check_error(ctx, ErrorType::DiscontinuitySequence, details));
                }
            } else if prev.discontinuity_sequence != curr.discontinuity_sequence {
                let size = prev.prev_segments.len();
                if diff < size as u64 {
                    let end = if diff + 1 < size as u64 {
                        (diff + 1) as usize
                    } else {
                        size
                    };
                    let mut count: u64 = 0;
                    let mut i: usize = 0;
                    while i < end
                        invariant
                            i <= end,
                            end <= prev.prev_segments@.len(),
                            count == disc_count(prev.prev_segments@, i as int),
                            count <= i,
                        decreases end - i,
                    {
                        if prev.prev_segments[i].discontinuity {
                            count = count + 1;
                        }
                        i = i + 1;
                    }
                    // dseq delta == tags crossed minus the top-of-window
                    // adjustment, compared without subtraction to stay in
                    // unsigned arithmetic
                    let offset: u64 = if disc_on_top {
                        1
                    } else {
                        0
                    };
                    let lhs: u128 = curr.discontinuity_sequence as u128 + offset as u128;
                    let rhs: u128 = prev.discontinuity_sequence as u128 + count as u128;
                    if lhs != rhs {
                        let details = fmt_disc_early(
                            curr.media_sequence,
                            prev.discontinuity_sequence,
                            curr.discontinuity_sequence,
                        );
                        r.push(mk_check_error(ctx, ErrorType::DiscontinuitySequence, details));
                    }
                }
            }
        }
        proof {
            assert(cores(r@) =~= discontinuity_cores(*prev, *curr, *ctx));
        }
        r
    }
}


/// A segment's own media sequence: the playlist's media sequence plus the
/// segment's index, capped at the largest representable value.
pub open spec fn sat_mseq(mseq: u64, i: int) -> nat {
    if mseq + i > u64::MAX {
        u64::MAX as nat
    } else {
        (mseq + i) as nat
    }
}

/// Computes a segment's own media sequence, capped.
pub fn seg_mseq(mseq: u64, i: usize) -> (r: u64)
    ensures
        r as nat == sat_mseq(mseq, i as int),
{
    if mseq > u64::MAX - (i as u64) {
        u64::MAX
    } else {
        mseq + (i as u64)
    }
}

/// Validates SCTE-35/CUE marker consistency across polls.
pub struct Scte35Check;

/// The errors `Scte35Check` emits, in order: CUE-OUT markers that vanished
/// while an ad break was latched open and the playlist advanced; a CUE-IN
/// with no latched or visible CUE-OUT; a CUE-OUT-CONT with no latched or
/// visible CUE-OUT.
pub open spec fn scte35_cores(
    prev: VariantState,
    curr: PlaylistSnapshot,
    ctx: CheckContext,
) -> Seq<ErrorCore> {
    let segs = curr.segments@;
    let has_out = crate::state::any_cue_out(segs);
    let has_in = crate::state::any_cue_in(segs);
    let has_cont = crate::state::any_cue_out_cont(segs);
    let a: Seq<ErrorCore> = if prev.in_cue_out && !has_out && !has_in && !has_cont
        && curr.media_sequence > prev.media_sequence {
        seq![
            check_core(
                ctx,
                ErrorType::Scte35Violation,
                msg_scte_disappeared(curr.media_sequence as nat),
            ),
        ]
    } else {
        Seq::empty()
    };
    let b: Seq<ErrorCore> = if has_in && !prev.in_cue_out && !has_out {
        seq![
            check_core(ctx, ErrorType::Scte35Violation, msg_scte_cue_in(curr.media_sequence as nat)),
        ]
    } else {
        Seq::empty()
    };
    let c: Seq<ErrorCore> = if has_cont && !prev.in_cue_out && !has_out {
        seq![
            check_core(ctx, ErrorType::Scte35Violation, msg_scte_cont(curr.media_sequence as nat)),
        ]
    } else {
        Seq::empty()
    };
    a + b + c
}

impl Scte35Check {
    /// Flags inconsistent CUE marker sequences.
    pub fn check(&self, prev: &VariantState, curr: &PlaylistSnapshot, ctx: &CheckContext) -> (r:
        Vec<MonitorError>)
        ensures
            cores(r@) == scte35_cores(*prev, *curr, *ctx),
    {
        let has_out = crate::state::has_any_cue_out(&curr.segments);
        let has_in = crate::state::has_any_cue_in(&curr.segments);
        let has_cont = crate::state::has_any_cue_out_cont(&curr.segments);
        let mut r: Vec<MonitorError> = Vec::new();
        if prev.in_cue_out && !has_out && !has_in && !has_cont && curr.media_sequence
            > prev.media_sequence {
            let details = fmt_scte_disappeared(curr.media_sequence);
            r.push(mk_check_error(ctx, ErrorType::Scte35Violation, details));
        }
        if has_in && !prev.in_cue_out && !has_out {
            let details = fmt_scte_cue_in(curr.media_sequence);
            r.push(mk_check_error(ctx, ErrorType::Scte35Violation, details));
        }
        if has_cont && !prev.in_cue_out && !has_out {
            let details = fmt_scte_cont(curr.media_sequence);
            r.push(mk_check_error(ctx, ErrorType::Scte35Violation, details));
        }
        proof {
            assert(cores(r@) =~~= scte35_cores(*prev, *curr, *ctx));
        }
        r
    }
}

/// Validates segment durations against `EXT-X-TARGETDURATION`.
pub struct TargetDurationCheck {
    pub tolerance_ms: u64,
}

/// The target-duration errors for the segments at and after index `i`: one
/// for each segment strictly longer than the target plus the tolerance.
pub open spec fn td_scan(
    curr: PlaylistSnapshot,
    tolerance_ms: u64,
    ctx: CheckContext,
    i: int,
) -> Seq<ErrorCore>
    decreases curr.segments@.len() - i,
{
    let segs = curr.segments@;
    if i < 0 || i >= segs.len() {
        Seq::empty()
    } else {
        (if segs[i].duration_ms > curr.target_duration_ms + tolerance_ms {
            seq![
                check_core(
                    ctx,
                    ErrorType::TargetDurationExceeded,
                    msg_target_duration(
                        segs[i].duration_ms as nat,
                        curr.target_duration_ms as nat,
                        tolerance_ms as nat,
                        i as nat,
                        sat_mseq(curr.media_sequence, i),
                    ),
                ),
            ]
        } else {
            Seq::empty()
        }) + td_scan(curr, tolerance_ms, ctx, i + 1)
    }
}

/// The errors `TargetDurationCheck` emits: one per segment whose duration
/// strictly exceeds the declared target duration plus the tolerance.
pub open spec fn target_duration_cores(
    curr: PlaylistSnapshot,
    tolerance_ms: u64,
    ctx: CheckContext,
) -> Seq<ErrorCore> {
    td_scan(curr, tolerance_ms, ctx, 0)
}

impl TargetDurationCheck {
    /// A check with the given tolerance in ms.
    pub fn new(tolerance_ms: u64) -> (r: Self)
        ensures
            r.tolerance_ms == tolerance_ms,
    {
        TargetDurationCheck { tolerance_ms }
    }

    /// Flags every segment that exceeds the target duration.
    pub fn check(&self, _prev: &VariantState, curr: &PlaylistSnapshot, ctx: &CheckContext) -> (r:
        Vec<MonitorError>)
        ensures
            cores(r@) == target_duration_cores(*curr, self.tolerance_ms, *ctx),
    {
        let mut r: Vec<MonitorError> = Vec::new();
        let n = curr.segments.len();
        let mut i: usize = 0;
        while i < n
            invariant
                i <= n,
                n == curr.segments@.len(),
                td_scan(*curr, self.tolerance_ms, *ctx, 0) =~~= cores(r@) + td_scan(
                    *curr,
                    self.tolerance_ms,
                    *ctx,
                    i as int,
                ),
            decreases n - i,
        {
            let ghost pre = r@;
            let limit = curr.target_duration_ms.saturating_add(self.tolerance_ms);
            if curr.segments[i].duration_ms > limit {
                let details = fmt_target_duration(
                    curr.segments[i].duration_ms,
                    curr.target_duration_ms,
                    self.tolerance_ms,
                    i,
                    seg_mseq(curr.media_sequence, i),
                );
                r.push(mk_check_error(ctx, ErrorType::TargetDurationExceeded, details));
            }
            proof {
                assert(cores(r@) + td_scan(*curr, self.tolerance_ms, *ctx, i + 1) =~~= cores(pre)
                    + td_scan(*curr, self.tolerance_ms, *ctx, i as int));
            }
            i = i + 1;
        }
        proof {
            assert(cores(r@) =~~= target_duration_cores(*curr, self.tolerance_ms, *ctx));
        }
        r
    }
}

/// Flags segments marked with `EXT-X-GAP`.
pub struct GapCheck;

/// The gap errors for the segments at and after index `i`.
pub open spec fn gap_scan(curr: PlaylistSnapshot, ctx: CheckContext, i: int) -> Seq<ErrorCore>
    decreases curr.segments@.len() - i,
{
    let segs = curr.segments@;
    if i < 0 || i >= segs.len() {
        Seq::empty()
    } else {
        (if segs[i].gap {
            seq![
                check_core(
                    ctx,
                    ErrorType::GapDetected,
                    msg_gap(i as nat, sat_mseq(curr.media_sequence, i), segs[i].uri@),
                ),
            ]
        } else {
            Seq::empty()
        }) + gap_scan(curr, ctx, i + 1)
    }
}

/// The errors `GapCheck` emits: one per segment carrying `EXT-X-GAP`.
pub open spec fn gap_cores(curr: PlaylistSnapshot, ctx: CheckContext) -> Seq<ErrorCore> {
    gap_scan(curr, ctx, 0)
}

impl GapCheck {
    /// Flags every segment that carries `EXT-X-GAP`.
    pub fn check(&self, _prev: &VariantState, curr: &PlaylistSnapshot, ctx: &CheckContext) -> (r:
        Vec<MonitorError>)
        ensures
            cores(r@) == gap_cores(*curr, *ctx),
    {
        let mut r: Vec<MonitorError> = Vec::new();
        let n = curr.segments.len();
        let mut i: usize = 0;
        while i < n
            invariant
                i <= n,
                n == curr.segments@.len(),
                gap_scan(*curr, *ctx, 0) =~~= cores(r@) + gap_scan(*curr, *ctx, i as int),
            decreases n - i,
        {
            let ghost pre = r@;
            if curr.segments[i].gap {
                let details = fmt_gap(
                    i,
                    seg_mseq(curr.media_sequence, i),
                    curr.segments[i].uri.as_str(),
                );
                r.push(mk_check_error(ctx, ErrorType::GapDetected, details));
            }
            proof {
                assert(cores(r@) + gap_scan(*curr, *ctx, i + 1) =~~= cores(pre) + gap_scan(
                    *curr,
                    *ctx,
                    i as int,
                ));
            }
            i = i + 1;
        }
        proof {
            assert(cores(r@) =~~= gap_cores(*curr, *ctx));
        }
        r
    }
}

/// Detects media-sequence jumps past the previous playlist window.
pub struct MseqGapCheck {
    pub threshold: u64,
}

/// The errors `MseqGapCheck` emits: exactly one when the media sequence
/// advanced by more than the previous window size and by at least the
/// threshold; none otherwise.
pub open spec fn mseq_gap_cores(
    prev: VariantState,
    curr: PlaylistSnapshot,
    threshold: u64,
    ctx: CheckContext,
) -> Seq<ErrorCore> {
    if curr.media_sequence > prev.media_sequence && (curr.media_sequence - prev.media_sequence
        > prev.segment_uris@.len()) && curr.media_sequence - prev.media_sequence >= threshold {
        seq![
            check_core(
                ctx,
                ErrorType::MediaSequenceGap,
                msg_mseq_gap(
                    (curr.media_sequence - prev.media_sequence) as nat,
                    prev.media_sequence as nat,
                    curr.media_sequence as nat,
                    prev.segment_uris@.len(),
                ),
            ),
        ]
    } else {
        Seq::empty()
    }
}

impl MseqGapCheck {
    /// A check with the given jump threshold.
    pub fn new(threshold: u64) -> (r: Self)
        ensures
            r.threshold == threshold,
    {
        MseqGapCheck { threshold }
    }

    /// Flags a media-sequence jump past the previous window.
    pub fn check(&self, prev: &VariantState, curr: &PlaylistSnapshot, ctx: &CheckContext) -> (r:
        Vec<MonitorError>)
        ensures
            cores(r@) == mseq_gap_cores(*prev, *curr, self.threshold, *ctx),
    {
        let mut r: Vec<MonitorError> = Vec::new();
        if curr.media_sequence > prev.media_sequence {
            let diff = curr.media_sequence - prev.media_sequence;
            let window = prev.segment_uris.len() as u64;
            if diff > window && diff >= self.threshold {
                let details = fmt_mseq_gap(diff, prev.media_sequence, curr.media_sequence, window);
                r.push(mk_check_error(ctx, ErrorType::MediaSequenceGap, details));
            }
        }
        proof {
            assert(cores(r@) =~~= mseq_gap_cores(*prev, *curr, self.threshold, *ctx));
        }
        r
    }
}

/// Enforces what EVENT and VOD playlists may change between polls.
pub struct PlaylistTypeCheck;

/// The errors `PlaylistTypeCheck` emits: for an EVENT playlist, one when the
/// media sequence advanced (segments were removed); for a VOD playlist, one
/// when the media sequence or the segment count changed; none otherwise.
pub open spec fn playlist_type_cores(
    prev: VariantState,
    curr: PlaylistSnapshot,
    ctx: CheckContext,
) -> Seq<ErrorCore> {
    match curr.playlist_type {
        None => Seq::empty(),
        Some(PlaylistType::Event) => if curr.media_sequence > prev.media_sequence {
            seq![
                check_core(
                    ctx,
                    ErrorType::PlaylistTypeViolation,
                    msg_event_playlist(prev.media_sequence as nat, curr.media_sequence as nat),
                ),
            ]
        } else {
            Seq::empty()
        },
        Some(PlaylistType::Vod) => if curr.media_sequence != prev.media_sequence
            || curr.segments@.len() != prev.segment_uris@.len() {
            seq![
                check_core(
                    ctx,
                    ErrorType::PlaylistTypeViolation,
                    msg_vod_playlist(
                        prev.media_sequence as nat,
                        curr.media_sequence as nat,
                        prev.segment_uris@.len(),
                        curr.segments@.len(),
                    ),
                ),
            ]
        } else {
            Seq::empty()
        },
    }
}

impl PlaylistTypeCheck {
    /// Flags changes an EVENT or VOD playlist must not make.
    pub fn check(&self, prev: &VariantState, curr: &PlaylistSnapshot, ctx: &CheckContext) -> (r:
        Vec<MonitorError>)
        ensures
            cores(r@) == playlist_type_cores(*prev, *curr, *ctx),
    {
        let mut r: Vec<MonitorError> = Vec::new();
        match curr.playlist_type {
            None => {},
            Some(PlaylistType::Event) => {
                if curr.media_sequence > prev.media_sequence {
                    let details = fmt_event_playlist(prev.media_sequence, curr.media_sequence);
                    r.push(mk_check_error(ctx, ErrorType::PlaylistTypeViolation, details));
                }
            },
            Some(PlaylistType::Vod) => {
                if curr.media_sequence != prev.media_sequence || curr.segments.len()
                    != prev.segment_uris.len() {
                    let details = fmt_vod_playlist(
                        prev.media_sequence,
                        curr.media_sequence,
                        prev.segment_uris.len(),
                        curr.segments.len(),
                    );
                    r.push(mk_check_error(ctx, ErrorType::PlaylistTypeViolation, details));
                }
            },
        }
        proof {
            assert(cores(r@) =~~= playlist_type_cores(*prev, *curr, *ctx));
        }
        r
    }
}

/// Detects abnormally short non-final segments.
pub struct SegmentDurationAnomalyCheck {
    pub ratio_percent: u64,
}

/// The short-segment errors for non-final segments at and after index `i`:
/// one for each whose duration falls below the given percentage of the
/// target duration.
pub open spec fn sda_scan(
    curr: PlaylistSnapshot,
    percent: u64,
    ctx: CheckContext,
    i: int,
) -> Seq<ErrorCore>
    decreases curr.segments@.len() - i,
{
    let segs = curr.segments@;
    let threshold = curr.target_duration_ms * percent / 100;
    if i < 0 || i >= segs.len() - 1 {
        Seq::empty()
    } else {
        (if segs[i].duration_ms < threshold {
            seq![
                check_core(
                    ctx,
                    ErrorType::SegmentDurationAnomaly,
                    msg_short_segment(
                        segs[i].duration_ms as nat,
                        curr.target_duration_ms as nat,
                        (if threshold > u64::MAX { u64::MAX as nat } else { threshold as nat }),
                        i as nat,
                        sat_mseq(curr.media_sequence, i),
                    ),
                ),
            ]
        } else {
            Seq::empty()
        }) + sda_scan(curr, percent, ctx, i + 1)
    }
}

/// The errors `SegmentDurationAnomalyCheck` emits: for playlists of at least
/// two segments, one per non-final segment shorter than the threshold.
pub open spec fn sda_cores(curr: PlaylistSnapshot, percent: u64, ctx: CheckContext) -> Seq<
    ErrorCore,
> {
    if curr.segments@.len() < 2 {
        Seq::empty()
    } else {
        sda_scan(curr, percent, ctx, 0)
    }
}

impl SegmentDurationAnomalyCheck {
    /// A check with the given percentage of the target duration.
    pub fn new(ratio_percent: u64) -> (r: Self)
        ensures
            r.ratio_percent == ratio_percent,
    {
        SegmentDurationAnomalyCheck { ratio_percent }
    }

    /// Flags every non-final segment that is abnormally short.
    pub fn check(&self, _prev: &VariantState, curr: &PlaylistSnapshot, ctx: &CheckContext) -> (r:
        Vec<MonitorError>)
        ensures
            cores(r@) == sda_cores(*curr, self.ratio_percent, *ctx),
    {
        let mut r: Vec<MonitorError> = Vec::new();
        if curr.segments.len() < 2 {
            proof {
                assert(cores(r@) =~~= sda_cores(*curr, self.ratio_percent, *ctx));
            }
            return r;
        }
        proof {
            let a = curr.target_duration_ms as int;
            let b = self.ratio_percent as int;
            assert(a * b <= 0xffff_ffff_ffff_ffff * 0xffff_ffff_ffff_ffff) by (nonlinear_arith)
                requires
                    0 <= a <= 0xffff_ffff_ffff_ffff,
                    0 <= b <= 0xffff_ffff_ffff_ffff,
            ;
        }
        let th128: u128 = (curr.target_duration_ms as u128) * (self.ratio_percent as u128) / 100;
        let th_capped: u64 = if th128 > u64::MAX as u128 {
            u64::MAX
        } else {
            th128 as u64
        };
        let n = curr.segments.len() - 1;
        let mut i: usize = 0;
        while i < n
            invariant
                i <= n,
                n == curr.segments@.len() - 1,
                curr.segments@.len() >= 2,
                th128 == curr.target_duration_ms * self.ratio_percent / 100,
                th_capped as nat == (if th128 > u64::MAX {
                    u64::MAX as nat
                } else {
                    th128 as nat
                }),
                sda_scan(*curr, self.ratio_percent, *ctx, 0) =~~= cores(r@) + sda_scan(
                    *curr,
                    self.ratio_percent,
                    *ctx,
                    i as int,
                ),
            decreases n - i,
        {
            let ghost pre = r@;
            if (curr.segments[i].duration_ms as u128) < th128 {
                let details = fmt_short_segment(
                    curr.segments[i].duration_ms,
                    curr.target_duration_ms,
                    th_capped,
                    i,
                    seg_mseq(curr.media_sequence, i),
                );
                r.push(mk_check_error(ctx, ErrorType::SegmentDurationAnomaly, details));
            }
            proof {
                assert(cores(r@) + sda_scan(*curr, self.ratio_percent, *ctx, i + 1) =~~= cores(pre)
                    + sda_scan(*curr, self.ratio_percent, *ctx, i as int));
            }
            i = i + 1;
        }
        proof {
            assert(cores(r@) =~~= sda_cores(*curr, self.ratio_percent, *ctx));
        }
        r
    }
}

/// Detects `EXT-X-VERSION` changes between polls.
pub struct VersionCheck;

/// The errors `VersionCheck` emits: exactly one when both polls declare a
/// version and they differ; none otherwise.
pub open spec fn version_cores(
    prev: VariantState,
    curr: PlaylistSnapshot,
    ctx: CheckContext,
) -> Seq<ErrorCore> {
    match (prev.version, curr.version) {
        (Some(p), Some(c)) => if p != c {
            seq![
                check_core(
                    ctx,
                    ErrorType::VersionViolation,
                    msg_version(p as nat, c as nat, curr.media_sequence as nat),
                ),
            ]
        } else {
            Seq::empty()
        },
        _ => Seq::empty(),
    }
}

impl VersionCheck {
    /// Flags a changed `EXT-X-VERSION`.
    pub fn check(&self, prev: &VariantState, curr: &PlaylistSnapshot, ctx: &CheckContext) -> (r:
        Vec<MonitorError>)
        ensures
            cores(r@) == version_cores(*prev, *curr, *ctx),
    {
        let mut r: Vec<MonitorError> = Vec::new();
        match (prev.version, curr.version) {
            (Some(p), Some(c)) => {
                if p != c {
                    let details = fmt_version(p, c, curr.media_sequence);
                    r.push(mk_check_error(ctx, ErrorType::VersionViolation, details));
                }
            },
            _ => {},
        }
        proof {
            assert(cores(r@) =~~= version_cores(*prev, *curr, *ctx));
        }
        r
    }
}


/// Validates program-date-time continuity between adjacent segments.
pub struct ProgramDateTimeCheck;

/// The program-date-time jump for the pair of segments at `i` and `i + 1`,
/// if both carry timestamps, the later one is not a declared discontinuity,
/// and the actual step drifts from the earlier segment's duration by more
/// than a second.
pub open spec fn pdt_item(curr: PlaylistSnapshot, ctx: CheckContext, i: int) -> Seq<ErrorCore> {
    let segs = curr.segments@;
    if segs[i + 1].discontinuity {
        Seq::empty()
    } else {
        match (segs[i].program_date_time_ms, segs[i + 1].program_date_time_ms) {
            (Some(p), Some(n)) => {
                let expected = segs[i].duration_ms as int;
                let actual = n - p;
                let drift = if actual - expected < 0 {
                    expected - actual
                } else {
                    actual - expected
                };
                if drift > 1000 {
                    seq![
                        check_core(
                            ctx,
                            ErrorType::ProgramDateTimeJump,
                            msg_pdt_jump(
                                (i + 1) as nat,
                                sat_mseq(curr.media_sequence, i + 1),
                                segs[i].duration_ms as nat,
                                actual,
                                drift as nat,
                            ),
                        ),
                    ]
                } else {
                    Seq::empty()
                }
            },
            _ => Seq::empty(),
        }
    }
}

/// The program-date-time errors for the pairs starting at and after `i`.
pub open spec fn pdt_scan(curr: PlaylistSnapshot, ctx: CheckContext, i: int) -> Seq<ErrorCore>
    decreases curr.segments@.len() - i,
{
    if i < 0 || i >= curr.segments@.len() - 1 {
        Seq::empty()
    } else {
        pdt_item(curr, ctx, i) + pdt_scan(curr, ctx, i + 1)
    }
}

/// The errors `ProgramDateTimeCheck` emits: one per adjacent pair of
/// timestamped segments whose step drifts from the declared duration by more
/// than a second, discontinuities excepted.
pub open spec fn pdt_cores(curr: PlaylistSnapshot, ctx: CheckContext) -> Seq<ErrorCore> {
    pdt_scan(curr, ctx, 0)
}

impl ProgramDateTimeCheck {
    /// Flags program-date-time jumps between adjacent segments.
    pub fn check(&self, _prev: &VariantState, curr: &PlaylistSnapshot, ctx: &CheckContext) -> (r:
        Vec<MonitorError>)
        ensures
            cores(r@) == pdt_cores(*curr, *ctx),
    {
        let mut r: Vec<MonitorError> = Vec::new();
        let n = curr.segments.len();
        if n == 0 {
            proof {
                assert(cores(r@) =~~= pdt_cores(*curr, *ctx));
            }
            return r;
        }
        let mut i: usize = 0;
        while i < n - 1
            invariant
                n >= 1,
                i <= n - 1,
                n == curr.segments@.len(),
                pdt_scan(*curr, *ctx, 0) =~~= cores(r@) + pdt_scan(*curr, *ctx, i as int),
            decreases n - i,
        {
            let ghost pre = r@;
            if !curr.segments[i + 1].discontinuity {
                match (
                    curr.segments[i].program_date_time_ms,
                    curr.segments[i + 1].program_date_time_ms,
                ) {
                    (Some(p), Some(next)) => {
                        let expected: i128 = curr.segments[i].duration_ms as i128;
                        let actual: i128 = (next as i128) - (p as i128);
                        let drift: i128 = if actual - expected < 0 {
                            expected - actual
                        } else {
                            actual - expected
                        };
                        if drift > 1000 {
                            let details = fmt_pdt_jump(
                                i + 1,
                                seg_mseq(curr.media_sequence, i + 1),
                                curr.segments[i].duration_ms,
                                actual,
                                drift as u128,
                            );
                            r.push(mk_check_error(ctx, ErrorType::ProgramDateTimeJump, details));
                        }
                    },
                    _ => {},
                }
            }
            proof {
                assert(cores(r@) + pdt_scan(*curr, *ctx, i + 1) =~~= cores(pre) + pdt_scan(
                    *curr,
                    *ctx,
                    i as int,
                ));
            }
            i = i + 1;
        }
        proof {
            assert(cores(r@) =~~= pdt_cores(*curr, *ctx));
        }
        r
    }
}

/// Validates `EXT-X-DATERANGE` attributes.
pub struct DateRangeCheck;

/// The date-range errors of the segment at index `i`, in order: an end date
/// before the start date; a negative duration; END-ON-NEXT without a CLASS;
/// END-ON-NEXT together with DURATION or END-DATE.
pub open spec fn dr_item(curr: PlaylistSnapshot, ctx: CheckContext, i: int) -> Seq<ErrorCore> {
    let segs = curr.segments@;
    match segs[i].daterange {
        None => Seq::empty(),
        Some(dr) => {
            let a: Seq<ErrorCore> = match dr.end_date_ms {
                Some(e) => if e < dr.start_date_ms {
                    seq![
                        check_core(
                            ctx,
                            ErrorType::DateRangeViolation,
                            msg_dr_end_before_start(
                                dr.id@,
                                e as int,
                                dr.start_date_ms as int,
                                i as nat,
                                sat_mseq(curr.media_sequence, i),
                            ),
                        ),
                    ]
                } else {
                    Seq::empty()
                },
                None => Seq::empty(),
            };
            let b: Seq<ErrorCore> = match dr.duration_ms {
                Some(d) => if d < 0 {
                    seq![
                        check_core(
                            ctx,
                            ErrorType::DateRangeViolation,
                            msg_dr_negative_duration(
                                dr.id@,
                                d as int,
                                i as nat,
                                sat_mseq(curr.media_sequence, i),
                            ),
                        ),
                    ]
                } else {
                    Seq::empty()
                },
                None => Seq::empty(),
            };
            let c: Seq<ErrorCore> = if dr.end_on_next && dr.class is None {
                seq![
                    check_core(
                        ctx,
                        ErrorType::DateRangeViolation,
                        msg_dr_eon_class(dr.id@, i as nat, sat_mseq(curr.media_sequence, i)),
                    ),
                ]
            } else {
                Seq::empty()
            };
            let d: Seq<ErrorCore> = if dr.end_on_next && (dr.duration_ms is Some
                || dr.end_date_ms is Some) {
                seq![
                    check_core(
                        ctx,
                        ErrorType::DateRangeViolation,
                        msg_dr_eon_bounds(dr.id@, i as nat, sat_mseq(curr.media_sequence, i)),
                    ),
                ]
            } else {
                Seq::empty()
            };
            a + b + c + d
        },
    }
}

/// The date-range errors for the segments at and after index `i`.
pub open spec fn dr_scan(curr: PlaylistSnapshot, ctx: CheckContext, i: int) -> Seq<ErrorCore>
    decreases curr.segments@.len() - i,
{
    if i < 0 || i >= curr.segments@.len() {
        Seq::empty()
    } else {
        dr_item(curr, ctx, i) + dr_scan(curr, ctx, i + 1)
    }
}

/// The errors `DateRangeCheck` emits: segment by segment, the date-range
/// violations `dr_item` lists.
pub open spec fn daterange_cores(curr: PlaylistSnapshot, ctx: CheckContext) -> Seq<ErrorCore> {
    dr_scan(curr, ctx, 0)
}

impl DateRangeCheck {
    /// Flags malformed `EXT-X-DATERANGE` tags.
    pub fn check(&self, _prev: &VariantState, curr: &PlaylistSnapshot, ctx: &CheckContext) -> (r:
        Vec<MonitorError>)
        ensures
            cores(r@) == daterange_cores(*curr, *ctx),
    {
        let mut r: Vec<MonitorError> = Vec::new();
        let n = curr.segments.len();
        let mut i: usize = 0;
        while i < n
            invariant
                i <= n,
                n == curr.segments@.len(),
                dr_scan(*curr, *ctx, 0) =~~= cores(r@) + dr_scan(*curr, *ctx, i as int),
            decreases n - i,
        {
            let ghost pre = r@;
            match &curr.segments[i].daterange {
                None => {},
                Some(dr) => {
                    let m = seg_mseq(curr.media_sequence, i);
                    match dr.end_date_ms {
                        Some(e) => {
                            if e < dr.start_date_ms {
                                let details = fmt_dr_end_before_start(
                                    dr.id.as_str(),
                                    e,
                                    dr.start_date_ms,
                                    i,
                                    m,
                                );
                                r.push(mk_check_error(ctx, ErrorType::DateRangeViolation, details));
                            }
                        },
                        None => {},
                    }
                    match dr.duration_ms {
                        Some(d) => {
                            if d < 0 {
                                let details = fmt_dr_negative_duration(dr.id.as_str(), d, i, m);
                                r.push(mk_check_error(ctx, ErrorType::DateRangeViolation, details));
                            }
                        },
                        None => {},
                    }
                    if dr.end_on_next && dr.class.is_none() {
                        let details = fmt_dr_eon_class(dr.id.as_str(), i, m);
                        r.push(mk_check_error(ctx, ErrorType::DateRangeViolation, details));
                    }
                    if dr.end_on_next && (dr.duration_ms.is_some() || dr.end_date_ms.is_some()) {
                        let details = fmt_dr_eon_bounds(dr.id.as_str(), i, m);
                        r.push(mk_check_error(ctx, ErrorType::DateRangeViolation, details));
                    }
                },
            }
            proof {
                assert(cores(r@) =~~= cores(pre) + dr_item(*curr, *ctx, i as int));
                assert(cores(r@) + dr_scan(*curr, *ctx, i + 1) =~~= cores(pre) + dr_scan(
                    *curr,
                    *ctx,
                    i as int,
                ));
            }
            i = i + 1;
        }
        proof {
            assert(cores(r@) =~~= daterange_cores(*curr, *ctx));
        }
        r
    }
}

/// Carries the stale limit for the engine's staleness evaluation. Staleness
/// is judged by the engine from the time since the last content change, not
/// from a playlist pair, so the decision itself lives in `check_stale`.
pub struct StaleManifestCheck {
    pub stale_limit_ms: u64,
}

impl StaleManifestCheck {
    /// A check with the given stale limit in ms.
    pub fn new(stale_limit_ms: u64) -> (r: Self)
        ensures
            r.stale_limit_ms == stale_limit_ms,
    {
        StaleManifestCheck { stale_limit_ms }
    }
}

/// The core of the error `check_stale` raises.
pub open spec fn stale_core(
    limit_ms: u64,
    elapsed_ms: u64,
    stream_url: Seq<char>,
    stream_id: Seq<char>,
    now_ms: u64,
) -> ErrorCore {
    ErrorCore {
        timestamp_ms: now_ms,
        error_type: ErrorType::StaleManifest,
        media_type: "ALL"@,
        variant: "ALL"@,
        details: msg_stale(limit_ms as nat, elapsed_ms as nat),
        stream_url,
        stream_id,
        status_code: None,
    }
}

/// Raises a stale-manifest error exactly when the time since the last
/// content change strictly exceeds the stale limit; at the limit itself no
/// error is raised.
pub fn check_stale(
    time_since_change_ms: u64,
    stale_limit_ms: u64,
    stream_url: &str,
    stream_id: &str,
    now_ms: u64,
) -> (r: Option<MonitorError>)
    ensures
        match r {
            Some(e) => time_since_change_ms > stale_limit_ms && e.core_data() == stale_core(
                stale_limit_ms,
                time_since_change_ms,
                stream_url@,
                stream_id@,
                now_ms,
            ),
            None => time_since_change_ms <= stale_limit_ms,
        },
{
    if time_since_change_ms > stale_limit_ms {
        let details = fmt_stale(stale_limit_ms, time_since_change_ms);
        Some(
            MonitorError::new(
                ErrorType::StaleManifest,
                "ALL",
                "ALL",
                details.as_str(),
                stream_url,
                stream_id,
                now_ms,
            ),
        )
    } else {
        None
    }
}

/// Everything the per-variant battery emits for one variant, in battery
/// order: media sequence, playlist size, playlist content, segment
/// continuity, discontinuity, SCTE-35 when enabled, target duration, gaps,
/// media-sequence gap, playlist type, segment duration anomaly, version, and
/// the optional program-date-time and date-range checks.
pub open spec fn variant_check_cores(
    config: crate::config::MonitorConfig,
    prev: VariantState,
    curr: PlaylistSnapshot,
    ctx: CheckContext,
) -> Seq<ErrorCore> {
    media_sequence_cores(prev, curr, ctx) + playlist_size_cores(prev, curr, ctx)
        + playlist_content_cores(prev, curr, ctx) + segment_continuity_cores(prev, curr, ctx)
        + discontinuity_cores(prev, curr, ctx) + (if config.scte35_enabled {
        scte35_cores(prev, curr, ctx)
    } else {
        Seq::empty()
    }) + target_duration_cores(curr, config.target_duration_tolerance_ms, ctx) + gap_cores(
        curr,
        ctx,
    ) + mseq_gap_cores(prev, curr, config.mseq_gap_threshold, ctx) + playlist_type_cores(
        prev,
        curr,
        ctx,
    ) + sda_cores(curr, config.segment_duration_anomaly_percent, ctx) + version_cores(
        prev,
        curr,
        ctx,
    ) + (if config.pdt_checks_enabled {
        pdt_cores(curr, ctx)
    } else {
        Seq::empty()
    }) + (if config.daterange_checks_enabled {
        daterange_cores(curr, ctx)
    } else {
        Seq::empty()
    })
}

/// Runs the whole per-variant battery in order.
pub fn run_variant_checks(
    config: &crate::config::MonitorConfig,
    prev: &VariantState,
    curr: &PlaylistSnapshot,
    ctx: &CheckContext,
) -> (r: Vec<MonitorError>)
    ensures
        cores(r@) == variant_check_cores(*config, *prev, *curr, *ctx),
{
    let mut r = MediaSequenceCheck.check(prev, curr, ctx);
    let mut v = PlaylistSizeCheck.check(prev, curr, ctx);
    let ghost c0 = cores(r@) + cores(v@);
    r.append(&mut v);
    proof {
        assert(cores(r@) =~~= c0);
    }
    let mut v = PlaylistContentCheck.check(prev, curr, ctx);
    let ghost c1 = cores(r@) + cores(v@);
    r.append(&mut v);
    proof {
        assert(cores(r@) =~~= c1);
    }
    let mut v = SegmentContinuityCheck.check(prev, curr, ctx);
    let ghost c2 = cores(r@) + cores(v@);
    r.append(&mut v);
    proof {
        assert(cores(r@) =~~= c2);
    }
    let mut v = DiscontinuityCheck.check(prev, curr, ctx);
    let ghost c3 = cores(r@) + cores(v@);
    r.append(&mut v);
    proof {
        assert(cores(r@) =~~= c3);
    }
    if config.scte35_enabled {
        let mut v = Scte35Check.check(prev, curr, ctx);
        let ghost c4 = cores(r@) + cores(v@);
        r.append(&mut v);
        proof {
            assert(cores(r@) =~~= c4);
        }
    }
    let mut v = TargetDurationCheck::new(config.target_duration_tolerance_ms).check(
        prev,
        curr,
        ctx,
    );
    let ghost c5 = cores(r@) + cores(v@);
    r.append(&mut v);
    proof {
        assert(cores(r@) =~~= c5);
    }
    let mut v = GapCheck.check(prev, curr, ctx);
    let ghost c6 = cores(r@) + cores(v@);
    r.append(&mut v);
    proof {
        assert(cores(r@) =~~= c6);
    }
    let mut v = MseqGapCheck::new(config.mseq_gap_threshold).check(prev, curr, ctx);
    let ghost c7 = cores(r@) + cores(v@);
    r.append(&mut v);
    proof {
        assert(cores(r@) =~~= c7);
    }
    let mut v = PlaylistTypeCheck.check(prev, curr, ctx);
    let ghost c8 = cores(r@) + cores(v@);
    r.append(&mut v);
    proof {
        assert(cores(r@) =~~= c8);
    }
    let mut v = SegmentDurationAnomalyCheck::new(config.segment_duration_anomaly_percent).check(
        prev,
        curr,
        ctx,
    );
    let ghost c9 = cores(r@) + cores(v@);
    r.append(&mut v);
    proof {
        assert(cores(r@) =~~= c9);
    }
    let mut v = VersionCheck.check(prev, curr, ctx);
    let ghost c10 = cores(r@) + cores(v@);
    r.append(&mut v);
    proof {
        assert(cores(r@) =~~= c10);
    }
    if config.pdt_checks_enabled {
        let mut v = ProgramDateTimeCheck.check(prev, curr, ctx);
        let ghost c11 = cores(r@) + cores(v@);
        r.append(&mut v);
        proof {
            assert(cores(r@) =~~= c11);
        }
    }
    if config.daterange_checks_enabled {
        let mut v = DateRangeCheck.check(prev, curr, ctx);
        let ghost c12 = cores(r@) + cores(v@);
        r.append(&mut v);
        proof {
            assert(cores(r@) =~~= c12);
        }
    }
    proof {
        assert(cores(r@) =~~= variant_check_cores(*config, *prev, *curr, *ctx));
    }
    r
}

} // verus!
