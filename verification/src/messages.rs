//! Exact texts of the detail messages that checks and the engine emit. Each
//! message has a spec function giving its characters and an executable
//! builder proved to produce exactly those characters.

use vstd::prelude::*;

use crate::strutil::{dec_digit_char, dec_rep, int_rep, i128_to_string, u64_to_string};

verus! {

/// A millisecond count rendered as seconds with three decimals ("10.600").
pub open spec fn secs3_rep(ms: nat) -> Seq<char> {
    dec_rep(ms / 1000) + "."@ + seq![
        dec_digit_char((ms % 1000) / 100),
        dec_digit_char((ms % 1000) / 10 % 10),
        dec_digit_char(ms % 10),
    ]
}

/// Renders a millisecond count as seconds with three decimals.
pub fn fmt_secs3(ms: u64) -> (r: String)
    ensures
        r@ == secs3_rep(ms as nat),
{
    let mut s = u64_to_string(ms / 1000);
    s.append(".");
    let h = crate::strutil::u64_to_string((ms % 1000) / 100);
    let t = crate::strutil::u64_to_string((ms % 1000) / 10 % 10);
    let o = crate::strutil::u64_to_string(ms % 10);
    s.append(h.as_str());
    s.append(t.as_str());
    s.append(o.as_str());
    proof {
        assert(s@ =~= secs3_rep(ms as nat));
    }
    s
}

/// A millisecond count rendered as seconds with one decimal ("0.5").
pub open spec fn secs1_rep(ms: nat) -> Seq<char> {
    dec_rep(ms / 1000) + "."@ + seq![dec_digit_char((ms % 1000) / 100)]
}

/// Renders a millisecond count as seconds with one decimal.
pub fn fmt_secs1(ms: u64) -> (r: String)
    ensures
        r@ == secs1_rep(ms as nat),
{
    let mut s = u64_to_string(ms / 1000);
    s.append(".");
    let h = u64_to_string((ms % 1000) / 100);
    s.append(h.as_str());
    proof {
        assert(s@ =~= secs1_rep(ms as nat));
    }
    s
}

/// Detail text for a media-sequence regression.
pub open spec fn msg_media_sequence(prev: nat, curr: nat) -> Seq<char> {
    "Expected mediaSequence >= "@ + dec_rep(prev) + ". Got: "@ + dec_rep(curr)
}

/// Builds the media-sequence regression message.
pub fn fmt_media_sequence(prev: u64, curr: u64) -> (r: String)
    ensures
        r@ == msg_media_sequence(prev as nat, curr as nat),
{
    let mut s = "Expected mediaSequence >= ".to_owned();
    let p = u64_to_string(prev);
    let c = u64_to_string(curr);
    s.append(p.as_str());
    s.append(". Got: ");
    s.append(c.as_str());
    proof {
        assert(s@ =~= msg_media_sequence(prev as nat, curr as nat));
    }
    s
}

/// Detail text for a playlist that shrank at an unchanged media sequence.
pub open spec fn msg_playlist_size(mseq: nat, prev_len: nat, curr_len: nat) -> Seq<char> {
    "Expected playlist size in mseq("@ + dec_rep(mseq) + ") to be: "@ + dec_rep(prev_len)
        + ". Got: "@ + dec_rep(curr_len)
}

/// Builds the playlist-size message.
pub fn fmt_playlist_size(mseq: u64, prev_len: usize, curr_len: usize) -> (r: String)
    ensures
        r@ == msg_playlist_size(mseq as nat, prev_len as nat, curr_len as nat),
{
    let mut s = "Expected playlist size in mseq(".to_owned();
    let m = u64_to_string(mseq);
    let p = crate::strutil::usize_to_string(prev_len);
    let c = crate::strutil::usize_to_string(curr_len);
    s.append(m.as_str());
    s.append(") to be: ");
    s.append(p.as_str());
    s.append(". Got: ");
    s.append(c.as_str());
    proof {
        assert(s@ =~= msg_playlist_size(mseq as nat, prev_len as nat, curr_len as nat));
    }
    s
}

/// Detail text for a positional URI change at an unchanged media sequence.
pub open spec fn msg_playlist_content(
    mseq: nat,
    index: nat,
    expected: Seq<char>,
    got: Seq<char>,
) -> Seq<char> {
    "Expected playlist item-uri in mseq("@ + dec_rep(mseq) + ") at index("@ + dec_rep(index)
        + ") to be: '"@ + expected + "'. Got: '"@ + got + "'"@
}

/// Builds the playlist-content message.
pub fn fmt_playlist_content(mseq: u64, index: usize, expected: &str, got: &str) -> (r: String)
    ensures
        r@ == msg_playlist_content(mseq as nat, index as nat, expected@, got@),
{
    let mut s = "Expected playlist item-uri in mseq(".to_owned();
    let m = u64_to_string(mseq);
    let i = crate::strutil::usize_to_string(index);
    s.append(m.as_str());
    s.append(") at index(");
    s.append(i.as_str());
    s.append(") to be: '");
    s.append(expected);
    s.append("'. Got: '");
    s.append(got);
    s.append("'");
    proof {
        assert(s@ =~= msg_playlist_content(mseq as nat, index as nat, expected@, got@));
    }
    s
}

/// Detail text for a broken segment continuity at an advanced media sequence.
pub open spec fn msg_segment_continuity(mseq: nat, expected: Seq<char>, got: Seq<char>) -> Seq<
    char,
> {
    "Faulty Segment Continuity! Expected first item-uri in mseq("@ + dec_rep(mseq)
        + ") to be: '"@ + expected + "'. Got: '"@ + got + "'"@
}

/// Builds the segment-continuity message.
pub fn fmt_segment_continuity(mseq: u64, expected: &str, got: &str) -> (r: String)
    ensures
        r@ == msg_segment_continuity(mseq as nat, expected@, got@),
{
    let mut s = "Faulty Segment Continuity! Expected first item-uri in mseq(".to_owned();
    let m = u64_to_string(mseq);
    s.append(m.as_str());
    s.append(") to be: '");
    s.append(expected);
    s.append("'. Got: '");
    s.append(got);
    s.append("'");
    proof {
        assert(s@ =~= msg_segment_continuity(mseq as nat, expected@, got@));
    }
    s
}

/// Detail text for a wrong discontinuity-sequence increment.
pub open spec fn msg_disc_wrong(mseq: nat, expected: nat, got: nat) -> Seq<char> {
    "Wrong count increment in mseq("@ + dec_rep(mseq) + ") - Expected: "@ + dec_rep(expected)
        + ". Got: "@ + dec_rep(got)
}

/// Builds the wrong-increment discontinuity message.
pub fn fmt_disc_wrong(mseq: u64, expected: u64, got: u64) -> (r: String)
    ensures
        r@ == msg_disc_wrong(mseq as nat, expected as nat, got as nat),
{
    let mut s = "Wrong count increment in mseq(".to_owned();
    let m = u64_to_string(mseq);
    let e = u64_to_string(expected);
    let g = u64_to_string(got);
    s.append(m.as_str());
    s.append(") - Expected: ");
    s.append(e.as_str());
    s.append(". Got: ");
    s.append(g.as_str());
    proof {
        assert(s@ =~= msg_disc_wrong(mseq as nat, expected as nat, got as nat));
    }
    s
}

/// Detail text for an early discontinuity-sequence increment.
pub open spec fn msg_disc_early(mseq: nat, expected: nat, got: nat) -> Seq<char> {
    "Early count increment in mseq("@ + dec_rep(mseq) + ") - Expected: "@ + dec_rep(expected)
        + ". Got: "@ + dec_rep(got)
}

/// Builds the early-increment discontinuity message.
pub fn fmt_disc_early(mseq: u64, expected: u64, got: u64) -> (r: String)
    ensures
        r@ == msg_disc_early(mseq as nat, expected as nat, got as nat),
{
    let mut s = "Early count increment in mseq(".to_owned();
    let m = u64_to_string(mseq);
    let e = u64_to_string(expected);
    let g = u64_to_string(got);
    s.append(m.as_str());
    s.append(") - Expected: ");
    s.append(e.as_str());
    s.append(". Got: ");
    s.append(g.as_str());
    proof {
        assert(s@ =~= msg_disc_early(mseq as nat, expected as nat, got as nat));
    }
    s
}

/// Detail text for a stale manifest: the configured limit and the elapsed
/// time since the last content change.
pub open spec fn msg_stale(limit_ms: nat, elapsed_ms: nat) -> Seq<char> {
    "Expected: "@ + dec_rep(limit_ms) + "ms. Got: "@ + dec_rep(elapsed_ms) + "ms"@
}

/// Builds the stale-manifest message.
pub fn fmt_stale(limit_ms: u64, elapsed_ms: u64) -> (r: String)
    ensures
        r@ == msg_stale(limit_ms as nat, elapsed_ms as nat),
{
    let mut s = "Expected: ".to_owned();
    let l = u64_to_string(limit_ms);
    let e = u64_to_string(elapsed_ms);
    s.append(l.as_str());
    s.append("ms. Got: ");
    s.append(e.as_str());
    s.append("ms");
    proof {
        assert(s@ =~= msg_stale(limit_ms as nat, elapsed_ms as nat));
    }
    s
}

/// Detail text for a segment that exceeds the target duration.
pub open spec fn msg_target_duration(
    duration_ms: nat,
    target_ms: nat,
    tolerance_ms: nat,
    index: nat,
    mseq: nat,
) -> Seq<char> {
    "Segment duration "@ + secs3_rep(duration_ms) + "s exceeds EXT-X-TARGETDURATION "@ + dec_rep(
        target_ms / 1000,
    ) + "s (tolerance "@ + secs1_rep(tolerance_ms) + "s) at index("@ + dec_rep(index) + ") in mseq("@
        + dec_rep(mseq) + ")"@
}

/// Builds the target-duration message.
pub fn fmt_target_duration(
    duration_ms: u64,
    target_ms: u64,
    tolerance_ms: u64,
    index: usize,
    mseq: u64,
) -> (r: String)
    ensures
        r@ == msg_target_duration(
            duration_ms as nat,
            target_ms as nat,
            tolerance_ms as nat,
            index as nat,
            mseq as nat,
        ),
{
    let mut s = "Segment duration ".to_owned();
    let d = fmt_secs3(duration_ms);
    let t = u64_to_string(target_ms / 1000);
    let tol = fmt_secs1(tolerance_ms);
    let i = crate::strutil::usize_to_string(index);
    let m = u64_to_string(mseq);
    s.append(d.as_str());
    s.append("s exceeds EXT-X-TARGETDURATION ");
    s.append(t.as_str());
    s.append("s (tolerance ");
    s.append(tol.as_str());
    s.append("s) at index(");
    s.append(i.as_str());
    s.append(") in mseq(");
    s.append(m.as_str());
    s.append(")");
    proof {
        assert(s@ =~= msg_target_duration(
            duration_ms as nat,
            target_ms as nat,
            tolerance_ms as nat,
            index as nat,
            mseq as nat,
        ));
    }
    s
}

/// Detail text for a segment marked with `EXT-X-GAP`.
pub open spec fn msg_gap(index: nat, mseq: nat, uri: Seq<char>) -> Seq<char> {
    "EXT-X-GAP at index("@ + dec_rep(index) + ") in mseq("@ + dec_rep(mseq) + ") - segment: '"@
        + uri + "'"@
}

/// Builds the gap message.
pub fn fmt_gap(index: usize, mseq: u64, uri: &str) -> (r: String)
    ensures
        r@ == msg_gap(index as nat, mseq as nat, uri@),
{
    let mut s = "EXT-X-GAP at index(".to_owned();
    let i = crate::strutil::usize_to_string(index);
    let m = u64_to_string(mseq);
    s.append(i.as_str());
    s.append(") in mseq(");
    s.append(m.as_str());
    s.append(") - segment: '");
    s.append(uri);
    s.append("'");
    proof {
        assert(s@ =~= msg_gap(index as nat, mseq as nat, uri@));
    }
    s
}

/// Detail text for a media-sequence jump past the playlist window.
pub open spec fn msg_mseq_gap(diff: nat, prev: nat, curr: nat, window: nat) -> Seq<char> {
    "Media sequence jumped forward by "@ + dec_rep(diff) + " (from "@ + dec_rep(prev) + " to "@
        + dec_rep(curr) + "), exceeding playlist window of "@ + dec_rep(window) + " segments"@
}

/// Builds the media-sequence gap message.
pub fn fmt_mseq_gap(diff: u64, prev: u64, curr: u64, window: u64) -> (r: String)
    ensures
        r@ == msg_mseq_gap(diff as nat, prev as nat, curr as nat, window as nat),
{
    let mut s = "Media sequence jumped forward by ".to_owned();
    let d = u64_to_string(diff);
    let p = u64_to_string(prev);
    let c = u64_to_string(curr);
    let w = u64_to_string(window);
    s.append(d.as_str());
    s.append(" (from ");
    s.append(p.as_str());
    s.append(" to ");
    s.append(c.as_str());
    s.append("), exceeding playlist window of ");
    s.append(w.as_str());
    s.append(" segments");
    proof {
        assert(s@ =~= msg_mseq_gap(diff as nat, prev as nat, curr as nat, window as nat));
    }
    s
}

/// Detail text for an EVENT playlist that removed segments.
pub open spec fn msg_event_playlist(prev: nat, curr: nat) -> Seq<char> {
    "EVENT playlist removed segments - mseq advanced from "@ + dec_rep(prev) + " to "@ + dec_rep(
        curr,
    )
}

/// Builds the EVENT playlist violation message.
pub fn fmt_event_playlist(prev: u64, curr: u64) -> (r: String)
    ensures
        r@ == msg_event_playlist(prev as nat, curr as nat),
{
    let mut s = "EVENT playlist removed segments - mseq advanced from ".to_owned();
    let p = u64_to_string(prev);
    let c = u64_to_string(curr);
    s.append(p.as_str());
    s.append(" to ");
    s.append(c.as_str());
    proof {
        assert(s@ =~= msg_event_playlist(prev as nat, curr as nat));
    }
    s
}

/// Detail text for a VOD playlist that changed.
pub open spec fn msg_vod_playlist(
    prev_mseq: nat,
    curr_mseq: nat,
    prev_len: nat,
    curr_len: nat,
) -> Seq<char> {
    "VOD playlist changed - mseq: "@ + dec_rep(prev_mseq) + " -> "@ + dec_rep(curr_mseq)
        + ", segments: "@ + dec_rep(prev_len) + " -> "@ + dec_rep(curr_len)
}

/// Builds the VOD playlist violation message.
pub fn fmt_vod_playlist(prev_mseq: u64, curr_mseq: u64, prev_len: usize, curr_len: usize) -> (r:
    String)
    ensures
        r@ == msg_vod_playlist(prev_mseq as nat, curr_mseq as nat, prev_len as nat, curr_len as nat),
{
    let mut s = "VOD playlist changed - mseq: ".to_owned();
    let pm = u64_to_string(prev_mseq);
    let cm = u64_to_string(curr_mseq);
    let pl = crate::strutil::usize_to_string(prev_len);
    let cl = crate::strutil::usize_to_string(curr_len);
    s.append(pm.as_str());
    s.append(" -> ");
    s.append(cm.as_str());
    s.append(", segments: ");
    s.append(pl.as_str());
    s.append(" -> ");
    s.append(cl.as_str());
    proof {
        assert(s@ =~= msg_vod_playlist(
            prev_mseq as nat,
            curr_mseq as nat,
            prev_len as nat,
            curr_len as nat,
        ));
    }
    s
}

/// Detail text for an abnormally short non-final segment.
pub open spec fn msg_short_segment(
    duration_ms: nat,
    target_ms: nat,
    threshold_ms: nat,
    index: nat,
    mseq: nat,
) -> Seq<char> {
    "Abnormally short segment "@ + secs3_rep(duration_ms) + "s (target: "@ + dec_rep(
        target_ms / 1000,
    ) + "s, threshold: "@ + secs1_rep(threshold_ms) + "s) at index("@ + dec_rep(index)
        + ") in mseq("@ + dec_rep(mseq) + ")"@
}

/// Builds the short-segment message.
pub fn fmt_short_segment(
    duration_ms: u64,
    target_ms: u64,
    threshold_ms: u64,
    index: usize,
    mseq: u64,
) -> (r: String)
    ensures
        r@ == msg_short_segment(
            duration_ms as nat,
            target_ms as nat,
            threshold_ms as nat,
            index as nat,
            mseq as nat,
        ),
{
    let mut s = "Abnormally short segment ".to_owned();
    let d = fmt_secs3(duration_ms);
    let t = u64_to_string(target_ms / 1000);
    let th = fmt_secs1(threshold_ms);
    let i = crate::strutil::usize_to_string(index);
    let m = u64_to_string(mseq);
    s.append(d.as_str());
    s.append("s (target: ");
    s.append(t.as_str());
    s.append("s, threshold: ");
    s.append(th.as_str());
    s.append("s) at index(");
    s.append(i.as_str());
    s.append(") in mseq(");
    s.append(m.as_str());
    s.append(")");
    proof {
        assert(s@ =~= msg_short_segment(
            duration_ms as nat,
            target_ms as nat,
            threshold_ms as nat,
            index as nat,
            mseq as nat,
        ));
    }
    s
}

/// Detail text for an `EXT-X-VERSION` change.
pub open spec fn msg_version(prev: nat, curr: nat, mseq: nat) -> Seq<char> {
    "EXT-X-VERSION changed from "@ + dec_rep(prev) + " to "@ + dec_rep(curr) + " in mseq("@
        + dec_rep(mseq) + ")"@
}

/// Builds the version-change message.
pub fn fmt_version(prev: u16, curr: u16, mseq: u64) -> (r: String)
    ensures
        r@ == msg_version(prev as nat, curr as nat, mseq as nat),
{
    let mut s = "EXT-X-VERSION changed from ".to_owned();
    let p = u64_to_string(prev as u64);
    let c = u64_to_string(curr as u64);
    let m = u64_to_string(mseq);
    s.append(p.as_str());
    s.append(" to ");
    s.append(c.as_str());
    s.append(" in mseq(");
    s.append(m.as_str());
    s.append(")");
    proof {
        assert(s@ =~= msg_version(prev as nat, curr as nat, mseq as nat));
    }
    s
}

/// Detail text for CUE-OUT markers that vanished without a CUE-IN.
pub open spec fn msg_scte_disappeared(mseq: nat) -> Seq<char> {
    "CUE-OUT markers disappeared without CUE-IN in mseq("@ + dec_rep(mseq) + ")"@
}

/// Builds the vanished-CUE-OUT message.
pub fn fmt_scte_disappeared(mseq: u64) -> (r: String)
    ensures
        r@ == msg_scte_disappeared(mseq as nat),
{
    let mut s = "CUE-OUT markers disappeared without CUE-IN in mseq(".to_owned();
    let m = u64_to_string(mseq);
    s.append(m.as_str());
    s.append(")");
    proof {
        assert(s@ =~= msg_scte_disappeared(mseq as nat));
    }
    s
}

/// Detail text for a CUE-IN without a preceding CUE-OUT.
pub open spec fn msg_scte_cue_in(mseq: nat) -> Seq<char> {
    "CUE-IN found without preceding CUE-OUT state in mseq("@ + dec_rep(mseq) + ")"@
}

/// Builds the stray-CUE-IN message.
pub fn fmt_scte_cue_in(mseq: u64) -> (r: String)
    ensures
        r@ == msg_scte_cue_in(mseq as nat),
{
    let mut s = "CUE-IN found without preceding CUE-OUT state in mseq(".to_owned();
    let m = u64_to_string(mseq);
    s.append(m.as_str());
    s.append(")");
    proof {
        assert(s@ =~= msg_scte_cue_in(mseq as nat));
    }
    s
}

/// Detail text for a CUE-OUT-CONT without an active CUE-OUT.
pub open spec fn msg_scte_cont(mseq: nat) -> Seq<char> {
    "CUE-OUT-CONT found without active CUE-OUT in mseq("@ + dec_rep(mseq) + ")"@
}

/// Builds the stray-CUE-OUT-CONT message.
pub fn fmt_scte_cont(mseq: u64) -> (r: String)
    ensures
        r@ == msg_scte_cont(mseq as nat),
{
    let mut s = "CUE-OUT-CONT found without active CUE-OUT in mseq(".to_owned();
    let m = u64_to_string(mseq);
    s.append(m.as_str());
    s.append(")");
    proof {
        assert(s@ =~= msg_scte_cont(mseq as nat));
    }
    s
}

/// Detail text for variant media-sequence drift.
pub open spec fn msg_sync_drift(
    max_key: Seq<char>,
    max_mseq: nat,
    drift: nat,
    min_key: Seq<char>,
    min_mseq: nat,
) -> Seq<char> {
    "Variant sync drift: '"@ + max_key + "' at mseq("@ + dec_rep(max_mseq) + ") is "@ + dec_rep(
        drift,
    ) + " segments ahead of '"@ + min_key + "' at mseq("@ + dec_rep(min_mseq) + ")"@
}

/// Builds the variant sync drift message.
pub fn fmt_sync_drift(
    max_key: &str,
    max_mseq: u64,
    drift: u64,
    min_key: &str,
    min_mseq: u64,
) -> (r: String)
    ensures
        r@ == msg_sync_drift(max_key@, max_mseq as nat, drift as nat, min_key@, min_mseq as nat),
{
    let mut s = "Variant sync drift: '".to_owned();
    let mx = u64_to_string(max_mseq);
    let d = u64_to_string(drift);
    let mn = u64_to_string(min_mseq);
    s.append(max_key);
    s.append("' at mseq(");
    s.append(mx.as_str());
    s.append(") is ");
    s.append(d.as_str());
    s.append(" segments ahead of '");
    s.append(min_key);
    s.append("' at mseq(");
    s.append(mn.as_str());
    s.append(")");
    proof {
        assert(s@ =~= msg_sync_drift(
            max_key@,
            max_mseq as nat,
            drift as nat,
            min_key@,
            min_mseq as nat,
        ));
    }
    s
}

/// Detail text for a variant that keeps failing while others are healthy.
pub open spec fn msg_variant_unavailable(key: Seq<char>, failures: nat) -> Seq<char> {
    "Variant '"@ + key + "' unavailable for "@ + dec_rep(failures)
        + " consecutive polls while other variants are active"@
}

/// Builds the variant-unavailable message.
pub fn fmt_variant_unavailable(key: &str, failures: u32) -> (r: String)
    ensures
        r@ == msg_variant_unavailable(key@, failures as nat),
{
    let mut s = "Variant '".to_owned();
    let f = u64_to_string(failures as u64);
    s.append(key);
    s.append("' unavailable for ");
    s.append(f.as_str());
    s.append(" consecutive polls while other variants are active");
    proof {
        assert(s@ =~= msg_variant_unavailable(key@, failures as nat));
    }
    s
}


/// A signed millisecond count rendered as seconds with three decimals.
pub open spec fn signed_secs3_rep(ms: int) -> Seq<char> {
    if ms < 0 {
        "-"@ + secs3_rep((-ms) as nat)
    } else {
        secs3_rep(ms as nat)
    }
}

/// Renders a signed millisecond count as seconds with three decimals.
pub fn fmt_signed_secs3(ms: i64) -> (r: String)
    ensures
        r@ == signed_secs3_rep(ms as int),
{
    if ms >= 0 {
        fmt_secs3(ms as u64)
    } else {
        let abs: u64 = if ms == i64::MIN {
            9223372036854775808u64
        } else {
            (-ms) as u64
        };
        let mut s = "-".to_owned();
        let d = fmt_secs3(abs);
        s.append(d.as_str());
        proof {
            assert(s@ =~= signed_secs3_rep(ms as int));
        }
        s
    }
}

/// Detail text for a program-date-time discontinuity between two segments.
pub open spec fn msg_pdt_jump(
    index: nat,
    mseq: nat,
    expected_ms: nat,
    actual_ms: int,
    drift_ms: nat,
) -> Seq<char> {
    "PDT discontinuity at index("@ + dec_rep(index) + ") in mseq("@ + dec_rep(mseq)
        + "): expected +"@ + dec_rep(expected_ms) + "ms, actual diff "@ + int_rep(actual_ms)
        + "ms (drift "@ + dec_rep(drift_ms) + "ms)"@
}

/// Builds the program-date-time jump message.
pub fn fmt_pdt_jump(index: usize, mseq: u64, expected_ms: u64, actual_ms: i128, drift_ms: u128) -> (r:
    String)
    ensures
        r@ == msg_pdt_jump(
            index as nat,
            mseq as nat,
            expected_ms as nat,
            actual_ms as int,
            drift_ms as nat,
        ),
{
    let mut s = "PDT discontinuity at index(".to_owned();
    let i = crate::strutil::usize_to_string(index);
    let m = u64_to_string(mseq);
    let e = u64_to_string(expected_ms);
    let a = i128_to_string(actual_ms);
    let d = crate::strutil::u128_to_string(drift_ms);
    s.append(i.as_str());
    s.append(") in mseq(");
    s.append(m.as_str());
    s.append("): expected +");
    s.append(e.as_str());
    s.append("ms, actual diff ");
    s.append(a.as_str());
    s.append("ms (drift ");
    s.append(d.as_str());
    s.append("ms)");
    proof {
        assert(s@ =~= msg_pdt_jump(
            index as nat,
            mseq as nat,
            expected_ms as nat,
            actual_ms as int,
            drift_ms as nat,
        ));
    }
    s
}

/// Detail text for a date range whose end precedes its start.
pub open spec fn msg_dr_end_before_start(
    id: Seq<char>,
    end_ms: int,
    start_ms: int,
    index: nat,
    mseq: nat,
) -> Seq<char> {
    "EXT-X-DATERANGE '"@ + id + "': END-DATE "@ + int_rep(end_ms) + "ms is before START-DATE "@
        + int_rep(start_ms) + "ms at index("@ + dec_rep(index) + ") in mseq("@ + dec_rep(mseq)
        + ")"@
}

/// Builds the end-before-start date range message.
pub fn fmt_dr_end_before_start(id: &str, end_ms: i64, start_ms: i64, index: usize, mseq: u64) -> (r:
    String)
    ensures
        r@ == msg_dr_end_before_start(id@, end_ms as int, start_ms as int, index as nat, mseq as nat),
{
    let mut s = "EXT-X-DATERANGE '".to_owned();
    let e = i128_to_string(end_ms as i128);
    let st = i128_to_string(start_ms as i128);
    let i = crate::strutil::usize_to_string(index);
    let m = u64_to_string(mseq);
    s.append(id);
    s.append("': END-DATE ");
    s.append(e.as_str());
    s.append("ms is before START-DATE ");
    s.append(st.as_str());
    s.append("ms at index(");
    s.append(i.as_str());
    s.append(") in mseq(");
    s.append(m.as_str());
    s.append(")");
    proof {
        assert(s@ =~= msg_dr_end_before_start(
            id@,
            end_ms as int,
            start_ms as int,
            index as nat,
            mseq as nat,
        ));
    }
    s
}

/// Detail text for a date range with a negative duration.
pub open spec fn msg_dr_negative_duration(
    id: Seq<char>,
    duration_ms: int,
    index: nat,
    mseq: nat,
) -> Seq<char> {
    "EXT-X-DATERANGE '"@ + id + "': negative DURATION "@ + signed_secs3_rep(duration_ms)
        + "s at index("@ + dec_rep(index) + ") in mseq("@ + dec_rep(mseq) + ")"@
}

/// Builds the negative-duration date range message.
pub fn fmt_dr_negative_duration(id: &str, duration_ms: i64, index: usize, mseq: u64) -> (r: String)
    ensures
        r@ == msg_dr_negative_duration(id@, duration_ms as int, index as nat, mseq as nat),
{
    let mut s = "EXT-X-DATERANGE '".to_owned();
    let d = fmt_signed_secs3(duration_ms);
    let i = crate::strutil::usize_to_string(index);
    let m = u64_to_string(mseq);
    s.append(id);
    s.append("': negative DURATION ");
    s.append(d.as_str());
    s.append("s at index(");
    s.append(i.as_str());
    s.append(") in mseq(");
    s.append(m.as_str());
    s.append(")");
    proof {
        assert(s@ =~= msg_dr_negative_duration(id@, duration_ms as int, index as nat, mseq as nat));
    }
    s
}

/// Detail text for END-ON-NEXT without a CLASS attribute.
pub open spec fn msg_dr_eon_class(id: Seq<char>, index: nat, mseq: nat) -> Seq<char> {
    "EXT-X-DATERANGE '"@ + id + "': END-ON-NEXT requires CLASS attribute at index("@ + dec_rep(
        index,
    ) + ") in mseq("@ + dec_rep(mseq) + ")"@
}

/// Builds the END-ON-NEXT-without-CLASS message.
pub fn fmt_dr_eon_class(id: &str, index: usize, mseq: u64) -> (r: String)
    ensures
        r@ == msg_dr_eon_class(id@, index as nat, mseq as nat),
{
    let mut s = "EXT-X-DATERANGE '".to_owned();
    let i = crate::strutil::usize_to_string(index);
    let m = u64_to_string(mseq);
    s.append(id);
    s.append("': END-ON-NEXT requires CLASS attribute at index(");
    s.append(i.as_str());
    s.append(") in mseq(");
    s.append(m.as_str());
    s.append(")");
    proof {
        assert(s@ =~= msg_dr_eon_class(id@, index as nat, mseq as nat));
    }
    s
}

/// Detail text for END-ON-NEXT combined with DURATION or END-DATE.
pub open spec fn msg_dr_eon_bounds(id: Seq<char>, index: nat, mseq: nat) -> Seq<char> {
    "EXT-X-DATERANGE '"@ + id + "': END-ON-NEXT must not have DURATION or END-DATE at index("@
        + dec_rep(index) + ") in mseq("@ + dec_rep(mseq) + ")"@
}

/// Builds the END-ON-NEXT-with-bounds message.
pub fn fmt_dr_eon_bounds(id: &str, index: usize, mseq: u64) -> (r: String)
    ensures
        r@ == msg_dr_eon_bounds(id@, index as nat, mseq as nat),
{
    let mut s = "EXT-X-DATERANGE '".to_owned();
    let i = crate::strutil::usize_to_string(index);
    let m = u64_to_string(mseq);
    s.append(id);
    s.append("': END-ON-NEXT must not have DURATION or END-DATE at index(");
    s.append(i.as_str());
    s.append(") in mseq(");
    s.append(m.as_str());
    s.append(")");
    proof {
        assert(s@ =~= msg_dr_eon_bounds(id@, index as nat, mseq as nat));
    }
    s
}

/// Detail text of a `ManifestUpdated` event.
pub open spec fn msg_manifest_updated(
    prev_mseq: nat,
    curr_mseq: nat,
    nsegs: nat,
    duration_ms: nat,
) -> Seq<char> {
    "mseq "@ + dec_rep(prev_mseq) + " -> "@ + dec_rep(curr_mseq) + ", "@ + dec_rep(nsegs)
        + " segments, "@ + secs1_rep(duration_ms) + "s"@
}

/// Builds the `ManifestUpdated` event detail.
pub fn fmt_manifest_updated(prev_mseq: u64, curr_mseq: u64, nsegs: usize, duration_ms: u64) -> (r:
    String)
    ensures
        r@ == msg_manifest_updated(
            prev_mseq as nat,
            curr_mseq as nat,
            nsegs as nat,
            duration_ms as nat,
        ),
{
    let mut s = "mseq ".to_owned();
    let p = u64_to_string(prev_mseq);
    let c = u64_to_string(curr_mseq);
    let n = crate::strutil::usize_to_string(nsegs);
    let d = fmt_secs1(duration_ms);
    s.append(p.as_str());
    s.append(" -> ");
    s.append(c.as_str());
    s.append(", ");
    s.append(n.as_str());
    s.append(" segments, ");
    s.append(d.as_str());
    s.append("s");
    proof {
        assert(s@ =~= msg_manifest_updated(
            prev_mseq as nat,
            curr_mseq as nat,
            nsegs as nat,
            duration_ms as nat,
        ));
    }
    s
}

/// Detail text of a `CueOutStarted` event.
pub open spec fn msg_cue_out_started(mseq: nat, duration_ms: Option<u64>) -> Seq<char> {
    "Ad break started at mseq "@ + dec_rep(mseq) + match duration_ms {
        Some(d) => " duration="@ + secs1_rep(d as nat) + "s"@,
        None => Seq::empty(),
    }
}

/// Builds the `CueOutStarted` event detail.
pub fn fmt_cue_out_started(mseq: u64, duration_ms: Option<u64>) -> (r: String)
    ensures
        r@ == msg_cue_out_started(mseq as nat, duration_ms),
{
    let mut s = "Ad break started at mseq ".to_owned();
    let m = u64_to_string(mseq);
    s.append(m.as_str());
    match duration_ms {
        Some(d) => {
            let ds = fmt_secs1(d);
            s.append(" duration=");
            s.append(ds.as_str());
            s.append("s");
        },
        None => {},
    }
    proof {
        assert(s@ =~= msg_cue_out_started(mseq as nat, duration_ms));
    }
    s
}

/// Detail text of a `CueInReturned` event.
pub open spec fn msg_cue_in_returned(mseq: nat) -> Seq<char> {
    "Ad break ended at mseq "@ + dec_rep(mseq)
}

/// Builds the `CueInReturned` event detail.
pub fn fmt_cue_in_returned(mseq: u64) -> (r: String)
    ensures
        r@ == msg_cue_in_returned(mseq as nat),
{
    let mut s = "Ad break ended at mseq ".to_owned();
    let m = u64_to_string(mseq);
    s.append(m.as_str());
    proof {
        assert(s@ =~= msg_cue_in_returned(mseq as nat));
    }
    s
}

/// Detail text of a `CueOutCont` event.
pub open spec fn msg_cue_out_cont(value: Seq<char>) -> Seq<char> {
    "CUE-OUT-CONT: "@ + value
}

/// Builds the `CueOutCont` event detail.
pub fn fmt_cue_out_cont(value: &str) -> (r: String)
    ensures
        r@ == msg_cue_out_cont(value@),
{
    let mut s = "CUE-OUT-CONT: ".to_owned();
    s.append(value);
    proof {
        assert(s@ =~= msg_cue_out_cont(value@));
    }
    s
}

/// Detail text of a `DiscontinuityChanged` event.
pub open spec fn msg_dseq_changed(prev: nat, curr: nat) -> Seq<char> {
    "dseq "@ + dec_rep(prev) + " -> "@ + dec_rep(curr)
}

/// Builds the `DiscontinuityChanged` event detail.
pub fn fmt_dseq_changed(prev: u64, curr: u64) -> (r: String)
    ensures
        r@ == msg_dseq_changed(prev as nat, curr as nat),
{
    let mut s = "dseq ".to_owned();
    let p = u64_to_string(prev);
    let c = u64_to_string(curr);
    s.append(p.as_str());
    s.append(" -> ");
    s.append(c.as_str());
    proof {
        assert(s@ =~= msg_dseq_changed(prev as nat, curr as nat));
    }
    s
}

/// Detail text of a `StaleRecovered` event.
pub open spec fn msg_stale_recovered(now_ms: nat) -> Seq<char> {
    "Stream recovered after stale period at "@ + dec_rep(now_ms) + "ms"@
}

/// Builds the `StaleRecovered` event detail.
pub fn fmt_stale_recovered(now_ms: u64) -> (r: String)
    ensures
        r@ == msg_stale_recovered(now_ms as nat),
{
    let mut s = "Stream recovered after stale period at ".to_owned();
    let n = u64_to_string(now_ms);
    s.append(n.as_str());
    s.append("ms");
    proof {
        assert(s@ =~= msg_stale_recovered(now_ms as nat));
    }
    s
}

/// Detail text for a master manifest that could not be fetched.
pub open spec fn msg_fetch_master(reason: Seq<char>) -> Seq<char> {
    "Failed to fetch master manifest: "@ + reason
}

/// Builds the master fetch failure detail.
pub fn fmt_fetch_master(reason: &str) -> (r: String)
    ensures
        r@ == msg_fetch_master(reason@),
{
    let mut s = "Failed to fetch master manifest: ".to_owned();
    s.append(reason);
    proof {
        assert(s@ =~= msg_fetch_master(reason@));
    }
    s
}

/// Detail text for a master manifest that could not be parsed.
pub open spec fn msg_parse_master(reason: Seq<char>) -> Seq<char> {
    "Failed to parse master manifest: "@ + reason
}

/// Builds the master parse failure detail.
pub fn fmt_parse_master(reason: &str) -> (r: String)
    ensures
        r@ == msg_parse_master(reason@),
{
    let mut s = "Failed to parse master manifest: ".to_owned();
    s.append(reason);
    proof {
        assert(s@ =~= msg_parse_master(reason@));
    }
    s
}

/// Detail text for a variant manifest that could not be fetched.
pub open spec fn msg_fetch_variant(reason: Seq<char>) -> Seq<char> {
    "Failed to fetch variant manifest: "@ + reason
}

/// Builds the variant fetch failure detail.
pub fn fmt_fetch_variant(reason: &str) -> (r: String)
    ensures
        r@ == msg_fetch_variant(reason@),
{
    let mut s = "Failed to fetch variant manifest: ".to_owned();
    s.append(reason);
    proof {
        assert(s@ =~= msg_fetch_variant(reason@));
    }
    s
}

/// Detail text for a variant manifest that could not be parsed.
pub open spec fn msg_parse_variant(url: Seq<char>, reason: Seq<char>) -> Seq<char> {
    "Failed to parse variant manifest "@ + url + ": "@ + reason
}

/// Builds the variant parse failure detail.
pub fn fmt_parse_variant(url: &str, reason: &str) -> (r: String)
    ensures
        r@ == msg_parse_variant(url@, reason@),
{
    let mut s = "Failed to parse variant manifest ".to_owned();
    s.append(url);
    s.append(": ");
    s.append(reason);
    proof {
        assert(s@ =~= msg_parse_variant(url@, reason@));
    }
    s
}

} // verus!
