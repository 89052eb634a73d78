//! The playlist parser: turns master and media playlist text into typed
//! values. The grammar is line-based; each parse function's contract states
//! the result as a fold of the line semantics over the split lines.

use vstd::prelude::*;

use crate::state::{PlaylistSnapshot, PlaylistType, SegmentSnapshot, DateRangeSnapshot};
use crate::strutil::{has_prefix, is_digit, digit_val, parse_u64, parse_u64_spec, starts_with,
    str_after, eq_str};

verus! {

/// The position of the first `c` in `s`, or the length of `s` if none.
pub open spec fn find_first(s: Seq<char>, c: char) -> int {
    if exists|i: int| 0 <= i < s.len() && s[i] == c {
        choose|i: int| 0 <= i < s.len() && s[i] == c && (forall|j: int| 0 <= j < i ==> s[j] != c)
    } else {
        s.len() as int
    }
}

/// `find_first` stays within the string, lands on `c` when `c` occurs, and
/// nothing before it is `c`.
pub proof fn lemma_find_first(s: Seq<char>, c: char)
    ensures
        0 <= find_first(s, c) <= s.len(),
        find_first(s, c) < s.len() ==> s[find_first(s, c)] == c,
        forall|j: int| 0 <= j < find_first(s, c) ==> s[j] != c,
{
    if exists|i: int| 0 <= i < s.len() && s[i] == c {
        let w = choose|i: int| 0 <= i < s.len() && s[i] == c;
        let first = choose|i: int|
            0 <= i < s.len() && s[i] == c && (forall|j: int| 0 <= j < i ==> s[j] != c);
        if !(0 <= first < s.len() && s[first] == c && (forall|j: int|
            0 <= j < first ==> s[j] != c)) {
            // a minimal witness exists: walk down from any witness
            assert(exists|i: int|
                0 <= i < s.len() && s[i] == c && (forall|j: int| 0 <= j < i ==> s[j] != c)) by {
                lemma_minimal_witness(s, c, w);
            }
        }
    }
}

/// Below any occurrence of `c` there is a first occurrence.
proof fn lemma_minimal_witness(s: Seq<char>, c: char, w: int)
    requires
        0 <= w < s.len(),
        s[w] == c,
    ensures
        exists|i: int| 0 <= i < s.len() && s[i] == c && (forall|j: int| 0 <= j < i ==> s[j] != c),
    decreases w,
{
    if forall|j: int| 0 <= j < w ==> s[j] != c {
        assert(0 <= w < s.len() && s[w] == c && (forall|j: int| 0 <= j < w ==> s[j] != c));
    } else {
        let w2 = choose|j: int| 0 <= j < w && s[j] == c;
        lemma_minimal_witness(s, c, w2);
    }
}

/// Finds the position of the first `c` in `s`, or the length of `s`.
pub fn find_char(s: &str, c: char) -> (r: usize)
    ensures
        r as int == find_first(s@, c),
{
    let len = s.unicode_len();
    let mut i: usize = 0;
    while i < len
        invariant
            i <= len,
            len == s@.len(),
            forall|j: int| 0 <= j < i ==> s@[j] != c,
        decreases len - i,
    {
        if s.get_char(i) == c {
            proof {
                lemma_find_first(s@, c);
                let f = find_first(s@, c);
                assert(f == i as int) by {
                    if f < i as int {
                    } else if f > i as int {
                        assert(s@[i as int] != c);
                    }
                }
            }
            return i;
        }
        i = i + 1;
    }
    proof {
        lemma_find_first(s@, c);
        assert(find_first(s@, c) == len as int) by {
            if find_first(s@, c) < len as int {
                assert(s@[find_first(s@, c)] != c);
            }
        }
    }
    len
}

/// The prefix of `s` before the first `c` (all of `s` if `c` is absent).
pub open spec fn before_char(s: Seq<char>, c: char) -> Seq<char> {
    s.subrange(0, find_first(s, c))
}

/// Takes the prefix of `s` before the first `c`.
pub fn take_before(s: &str, c: char) -> (r: String)
    ensures
        r@ == before_char(s@, c),
{
    proof {
        lemma_find_first(s@, c);
    }
    let i = find_char(s, c);
    s.substring_char(0, i).to_owned()
}

/// Whether every character of `s` is a decimal digit.
pub open spec fn all_digits(s: Seq<char>) -> bool {
    forall|i: int| 0 <= i < s.len() ==> is_digit(#[trigger] s[i])
}

/// The value in milliseconds of a fractional-second part: the first three
/// digits, padded with zeros; `None` if any character is not a digit.
pub open spec fn frac3_val(f: Seq<char>) -> Option<int> {
    if !all_digits(f) {
        None
    } else {
        Some(
            (if f.len() >= 1 {
                digit_val(f[0]) * 100
            } else {
                0
            }) + (if f.len() >= 2 {
                digit_val(f[1]) * 10
            } else {
                0
            }) + (if f.len() >= 3 {
                digit_val(f[2])
            } else {
                0
            }),
        )
    }
}

/// A capped value: what fits in a `u64`, else its maximum.
pub open spec fn sat_u64(n: int) -> u64 {
    if n > u64::MAX {
        u64::MAX
    } else if n < 0 {
        0
    } else {
        n as u64
    }
}

/// The duration of an `EXTINF` value in milliseconds: the decimal seconds
/// before the first comma, fractional digits beyond the third dropped,
/// capped at the largest representable value. `None` when the text before
/// the comma is not a decimal number.
pub open spec fn extinf_ms(rest: Seq<char>) -> Option<u64> {
    let d = before_char(rest, ',');
    let ip = before_char(d, '.');
    let has_dot = find_first(d, '.') < d.len();
    let frac = if has_dot {
        d.subrange(ip.len() as int + 1, d.len() as int)
    } else {
        Seq::empty()
    };
    match (parse_u64_spec(ip), frac3_val(frac)) {
        (Some(v), Some(f)) => Some(sat_u64(v * 1000 + f)),
        _ => None,
    }
}

/// Reads an `EXTINF` value as milliseconds, exactly as `extinf_ms` describes.
#[verifier::rlimit(100)]
pub fn parse_extinf_ms(rest: &str) -> (r: Option<u64>)
    ensures
        r == extinf_ms(rest@),
{
    let d = take_before(rest, ',');
    let ip = take_before(d.as_str(), '.');
    proof {
        lemma_find_first(d@, '.');
    }
    let dot = find_char(d.as_str(), '.');
    let iv = match parse_u64(ip.as_str()) {
        Some(v) => v,
        None => {
            return None;
        },
    };
    let mut f: u64 = 0;
    let dlen = d.unicode_len();
    if dot < dlen {
        let ghost frac = d@.subrange(ip@.len() as int + 1, d@.len() as int);
        let fstart = dot + 1;
        let mut i: usize = fstart;
        while i < dlen
            invariant
                fstart <= i <= dlen,
                dlen == d@.len(),
                fstart == ip@.len() + 1,
                fstart <= dlen,
                d@ == before_char(rest@, ','),
                ip@ == before_char(d@, '.'),
                find_first(d@, '.') < dlen,
                frac == d@.subrange(ip@.len() as int + 1, d@.len() as int),
                forall|j: int| 0 <= j < i - fstart ==> is_digit(#[trigger] frac[j]),
                f == (if i - fstart >= 1 {
                    digit_val(frac[0]) * 100
                } else {
                    0
                }) + (if i - fstart >= 2 {
                    digit_val(frac[1]) * 10
                } else {
                    0
                }) + (if i - fstart >= 3 {
                    digit_val(frac[2])
                } else {
                    0
                }),
            decreases dlen - i,
        {
            let c = d.get_char(i);
            proof {
                assert(frac[i - fstart] == d@[i as int]);
            }
            if c < '0' || c > '9' {
                proof {
                    assert(!is_digit(frac[i - fstart]));
                    assert(!all_digits(frac));
                }
                return None;
            }
            let dv: u64 = (c as u32 - 48) as u64;
            if i == fstart {
                f = f + dv * 100;
            } else if i == fstart + 1 {
                f = f + dv * 10;
            } else if i == fstart + 2 {
                f = f + dv;
            }
            i = i + 1;
        }
        proof {
            assert(all_digits(frac));
        }
    } else {
        proof {
            assert(frac3_val(Seq::empty()) == Some(0int));
        }
    }
    let ms: u64 = if iv > (u64::MAX - f) / 1000 {
        u64::MAX
    } else {
        iv * 1000 + f
    };
    proof {
        assert(f <= 999);
        if iv > (u64::MAX - f) / 1000 {
            assert(iv * 1000 + f > u64::MAX) by (nonlinear_arith)
                requires
                    iv > (u64::MAX - f) / 1000,
                    0 <= f <= 999,
            ;
        } else {
            assert(iv * 1000 + f <= u64::MAX) by (nonlinear_arith)
                requires
                    iv <= (u64::MAX - f) / 1000,
                    0 <= f <= 999,
                    0 <= iv,
            ;
        }
        assert(ms == sat_u64(iv * 1000 + f));
    }
    Some(ms)
}


/// The key/value pairs of an attribute list: `KEY=VALUE` pairs separated by
/// commas, where a value is either a quoted string (commas inside the quotes
/// kept) or the raw text up to the next comma. Text without `=` ends the
/// list.
pub open spec fn parse_attrs(s: Seq<char>) -> Seq<(Seq<char>, Seq<char>)>
    decreases s.len(),
    via parse_attrs_dec
{
    if s.len() == 0 {
        Seq::empty()
    } else {
        let e = find_first(s, '=');
        if e >= s.len() {
            Seq::empty()
        } else {
            let key = s.subrange(0, e);
            let rest = s.subrange(e + 1, s.len() as int);
            if rest.len() > 0 && rest[0] == '"' {
                let body = rest.subrange(1, rest.len() as int);
                let q = find_first(body, '"');
                let value = body.subrange(0, q);
                let after = if q >= body.len() {
                    Seq::<char>::empty()
                } else {
                    body.subrange(q + 1, body.len() as int)
                };
                let after2 = if after.len() > 0 && after[0] == ',' {
                    after.drop_first()
                } else {
                    after
                };
                seq![(key, value)] + parse_attrs(after2)
            } else {
                let ci = find_first(rest, ',');
                let value = rest.subrange(0, ci);
                let after = if ci >= rest.len() {
                    Seq::<char>::empty()
                } else {
                    rest.subrange(ci + 1, rest.len() as int)
                };
                seq![(key, value)] + parse_attrs(after)
            }
        }
    }
}

#[via_fn]
proof fn parse_attrs_dec(s: Seq<char>) {
    if s.len() != 0 {
        lemma_find_first(s, '=');
        let e = find_first(s, '=');
        if e < s.len() {
            let rest = s.subrange(e + 1, s.len() as int);
            if rest.len() > 0 && rest[0] == '"' {
                let body = rest.subrange(1, rest.len() as int);
                lemma_find_first(body, '"');
            } else {
                lemma_find_first(rest, ',');
            }
        }
    }
}

/// The pair views of an attribute vector.
pub open spec fn pairs_view(v: Seq<(String, String)>) -> Seq<(Seq<char>, Seq<char>)> {
    v.map(|i: int, p: (String, String)| (p.0@, p.1@))
}

/// Splits an attribute list into key/value pairs, exactly as `parse_attrs`
/// describes.
#[verifier::rlimit(100)]
pub fn parse_attrs_exec(s: &str) -> (r: Vec<(String, String)>)
    ensures
        pairs_view(r@) == parse_attrs(s@),
    decreases s@.len(),
{
    let mut r: Vec<(String, String)> = Vec::new();
    let len = s.unicode_len();
    if len == 0 {
        proof {
            assert(pairs_view(r@) =~= parse_attrs(s@));
        }
        return r;
    }
    proof {
        lemma_find_first(s@, '=');
    }
    let e = find_char(s, '=');
    if e == len {
        proof {
            assert(pairs_view(r@) =~= parse_attrs(s@));
        }
        return r;
    }
    let key = s.substring_char(0, e).to_owned();
    let rest = str_after(s, e + 1);
    let restlen = rest.unicode_len();
    let value: String;
    let after: String;
    proof {
        assert(key@ =~= s@.subrange(0, e as int));
    }
    if restlen > 0 && rest.as_str().get_char(0) == '"' {
        let body = str_after(rest.as_str(), 1);
        proof {
            lemma_find_first(body@, '"');
        }
        let q = find_char(body.as_str(), '"');
        value = body.as_str().substring_char(0, q).to_owned();
        let a = if q >= body.unicode_len() {
            String::new()
        } else {
            str_after(body.as_str(), q + 1)
        };
        if a.unicode_len() > 0 && a.as_str().get_char(0) == ',' {
            after = str_after(a.as_str(), 1);
            proof {
                assert(after@ =~= a@.drop_first());
            }
        } else {
            after = a;
        }
        proof {
            assert(parse_attrs(s@) == seq![(key@, value@)] + parse_attrs(after@));
        }
    } else {
        proof {
            lemma_find_first(rest@, ',');
        }
        let ci = find_char(rest.as_str(), ',');
        value = rest.as_str().substring_char(0, ci).to_owned();
        if ci >= restlen {
            after = String::new();
        } else {
            after = str_after(rest.as_str(), ci + 1);
        }
        proof {
            assert(parse_attrs(s@) == seq![(key@, value@)] + parse_attrs(after@));
        }
    }
    let mut tail = parse_attrs_exec(after.as_str());
    let ghost tailview = pairs_view(tail@);
    r.push((key, value));
    r.append(&mut tail);
    proof {
        assert(pairs_view(r@) =~= seq![(r@[0].0@, r@[0].1@)] + tailview);
        assert(pairs_view(r@) =~= parse_attrs(s@));
    }
    r
}

/// The first value bound to `key` in an attribute vector, if any.
pub fn lookup_attr<'a>(attrs: &'a Vec<(String, String)>, key: &str) -> (r: Option<&'a String>)
    ensures
        match r {
            Some(v) => crate::assoc::assoc_get(pairs_view(attrs@), key@) == Some(v@),
            None => crate::assoc::assoc_get(pairs_view(attrs@), key@) is None,
        },
{
    let ghost p = pairs_view(attrs@);
    let n = attrs.len();
    let mut i: usize = 0;
    while i < n
        invariant
            i <= n,
            n == p.len(),
            p == pairs_view(attrs@),
            forall|j: int| 0 <= j < i ==> p[j].0 != key@,
        decreases n - i,
    {
        if eq_str(attrs[i].0.as_str(), key) {
            proof {
                crate::assoc::lemma_assoc_get_skip(p, key@, i as int);
                assert(p.skip(i as int)[0] == p[i as int]);
            }
            return Some(&attrs[i].1);
        }
        i = i + 1;
    }
    proof {
        crate::assoc::lemma_assoc_get_skip(p, key@, n as int);
        assert(p.skip(n as int) =~= Seq::<(Seq<char>, Seq<char>)>::empty());
    }
    None
}

/// A line with a trailing carriage return removed.
pub open spec fn trim_cr(l: Seq<char>) -> Seq<char> {
    if l.len() > 0 && l.last() == '\r' {
        l.drop_last()
    } else {
        l
    }
}

/// The lines of `s` accumulated onto the partial line `cur`: lines are
/// separated by `\n`, a trailing `\r` of each line is dropped, and a final
/// unterminated line counts only if non-empty.
pub open spec fn split_lines_acc(s: Seq<char>, cur: Seq<char>) -> Seq<Seq<char>>
    decreases s.len(),
{
    if s.len() == 0 {
        if cur.len() == 0 {
            Seq::empty()
        } else {
            seq![trim_cr(cur)]
        }
    } else if s[0] == '\n' {
        seq![trim_cr(cur)] + split_lines_acc(s.drop_first(), Seq::empty())
    } else {
        split_lines_acc(s.drop_first(), cur.push(s[0]))
    }
}

/// The lines of `s`.
pub open spec fn split_lines(s: Seq<char>) -> Seq<Seq<char>> {
    split_lines_acc(s, Seq::empty())
}

/// The line views of a vector of lines.
pub open spec fn line_views(v: Seq<String>) -> Seq<Seq<char>> {
    v.map(|i: int, l: String| l@)
}

/// Splits playlist text into lines, exactly as `split_lines` describes.
pub fn split_into_lines(s: &str) -> (r: Vec<String>)
    ensures
        line_views(r@) == split_lines(s@),
{
    let mut r: Vec<String> = Vec::new();
    let len = s.unicode_len();
    let mut start: usize = 0;
    let mut i: usize = 0;
    proof {
        assert(s@.skip(0) =~= s@);
        assert(s@.subrange(0, 0) =~= Seq::<char>::empty());
        assert(line_views(r@) =~= Seq::<Seq<char>>::empty());
    }
    while i < len
        invariant
            start <= i <= len,
            len == s@.len(),
            split_lines(s@) =~= line_views(r@) + split_lines_acc(
                s@.skip(i as int),
                s@.subrange(start as int, i as int),
            ),
        decreases len - i,
    {
        let ghost pre = r@;
        let ghost cur = s@.subrange(start as int, i as int);
        let c = s.get_char(i);
        if c == '\n' {
            let end = if i > start && s.get_char(i - 1) == '\r' {
                i - 1
            } else {
                i
            };
            let line = s.substring_char(start, end).to_owned();
            proof {
                assert(line@ =~= trim_cr(cur));
            }
            r.push(line);
            start = i + 1;
            proof {
                assert(s@.skip(i as int)[0] == '\n');
                assert(s@.skip(i as int).drop_first() =~= s@.skip(i as int + 1));
                assert(line_views(r@) =~= line_views(pre).push(trim_cr(cur)));
                assert(s@.subrange(start as int, i as int + 1) =~= Seq::<char>::empty());
            }
        } else {
            proof {
                assert(s@.skip(i as int)[0] == s@[i as int]);
                assert(s@.skip(i as int).drop_first() =~= s@.skip(i as int + 1));
                assert(cur.push(s@[i as int]) =~= s@.subrange(start as int, i as int + 1));
            }
        }
        i = i + 1;
    }
    let ghost cur = s@.subrange(start as int, len as int);
    proof {
        assert(s@.skip(len as int) =~= Seq::<char>::empty());
    }
    if start < len {
        let end = if s.get_char(len - 1) == '\r' {
            len - 1
        } else {
            len
        };
        let line = s.substring_char(start, end).to_owned();
        proof {
            assert(cur.last() == s@[len - 1]);
            assert(line@ =~= trim_cr(cur));
        }
        let ghost pre = r@;
        r.push(line);
        proof {
            assert(line_views(r@) =~= line_views(pre).push(trim_cr(cur)));
        }
    }
    proof {
        assert(line_views(r@) =~= split_lines(s@));
    }
    r
}


/// Relies on `chrono::DateTime::parse_from_rfc3339` and
/// `timestamp_millis`: an RFC 3339 timestamp read to milliseconds since the
/// Unix epoch, `None` when the text is not such a timestamp. The result
/// depends on the characters alone.
#[verifier::external_body]
fn parse_rfc3339_ms(s: &str) -> (r: Option<i64>)
    ensures
        r == rfc3339_ms_of(s@),
{
    chrono::DateTime::parse_from_rfc3339(s).ok().map(|d| d.timestamp_millis())
}

pub uninterp spec fn rfc3339_ms_of(s: Seq<char>) -> Option<i64>;

/// An `EXT-X-DATERANGE` tag as plain values.
#[verifier::ext_equal]
pub struct DateRangeModel {
    pub id: Seq<char>,
    pub class: Option<Seq<char>>,
    pub start_date_ms: i64,
    pub end_date_ms: Option<i64>,
    pub duration_ms: Option<i64>,
    pub end_on_next: bool,
}

/// A parsed media segment as plain values.
#[verifier::ext_equal]
pub struct SegmentModel {
    pub uri: Seq<char>,
    pub duration_ms: u64,
    pub discontinuity: bool,
    pub cue_out: bool,
    pub cue_in: bool,
    pub cue_out_cont: Option<Seq<char>>,
    pub gap: bool,
    pub program_date_time_ms: Option<i64>,
    pub daterange: Option<DateRangeModel>,
}

/// A parsed media playlist as plain values.
#[verifier::ext_equal]
pub struct PlaylistModel {
    pub media_sequence: u64,
    pub discontinuity_sequence: u64,
    pub segments: Seq<SegmentModel>,
    pub duration_ms: u64,
    pub cue_out_count: int,
    pub cue_in_count: int,
    pub has_cue_out: bool,
    pub cue_out_duration_ms: Option<u64>,
    pub target_duration_ms: u64,
    pub playlist_type: Option<PlaylistType>,
    pub version: Option<u16>,
    pub has_gaps: bool,
}

/// The characters of an optional string.
pub open spec fn opt_view(o: Option<String>) -> Option<Seq<char>> {
    match o {
        Some(s) => Some(s@),
        None => None,
    }
}

/// The plain values of a date-range snapshot.
pub open spec fn dr_model(d: DateRangeSnapshot) -> DateRangeModel {
    DateRangeModel {
        id: d.id@,
        class: opt_view(d.class),
        start_date_ms: d.start_date_ms,
        end_date_ms: d.end_date_ms,
        duration_ms: d.duration_ms,
        end_on_next: d.end_on_next,
    }
}

/// The plain values of an optional date-range snapshot.
pub open spec fn opt_dr_model(o: Option<DateRangeSnapshot>) -> Option<DateRangeModel> {
    match o {
        Some(d) => Some(dr_model(d)),
        None => None,
    }
}

/// The plain values of a segment snapshot.
pub open spec fn seg_model(s: SegmentSnapshot) -> SegmentModel {
    SegmentModel {
        uri: s.uri@,
        duration_ms: s.duration_ms,
        discontinuity: s.discontinuity,
        cue_out: s.cue_out,
        cue_in: s.cue_in,
        cue_out_cont: opt_view(s.cue_out_cont),
        gap: s.gap,
        program_date_time_ms: s.program_date_time_ms,
        daterange: opt_dr_model(s.daterange),
    }
}

/// The plain values of a run of segment snapshots.
pub open spec fn segs_model(v: Seq<SegmentSnapshot>) -> Seq<SegmentModel> {
    v.map(|i: int, s: SegmentSnapshot| seg_model(s))
}

/// The plain values of a playlist snapshot.
pub open spec fn playlist_model(p: PlaylistSnapshot) -> PlaylistModel {
    PlaylistModel {
        media_sequence: p.media_sequence,
        discontinuity_sequence: p.discontinuity_sequence,
        segments: segs_model(p.segments@),
        duration_ms: p.duration_ms,
        cue_out_count: p.cue_out_count as int,
        cue_in_count: p.cue_in_count as int,
        has_cue_out: p.has_cue_out,
        cue_out_duration_ms: p.cue_out_duration_ms,
        target_duration_ms: p.target_duration_ms,
        playlist_type: p.playlist_type,
        version: p.version,
        has_gaps: p.has_gaps,
    }
}

/// Per-segment tag state pending until the segment's URI line arrives.
#[verifier::ext_equal]
pub struct PendModel {
    pub duration_ms: u64,
    pub discontinuity: bool,
    pub cue_out: bool,
    pub cue_in: bool,
    pub cue_out_cont: Option<Seq<char>>,
    pub gap: bool,
    pub program_date_time_ms: Option<i64>,
    pub daterange: Option<DateRangeModel>,
}

/// Fresh pending state: nothing declared yet for the next segment.
pub open spec fn empty_pend() -> PendModel {
    PendModel {
        duration_ms: 0,
        discontinuity: false,
        cue_out: false,
        cue_in: false,
        cue_out_cont: None,
        gap: false,
        program_date_time_ms: None,
        daterange: None,
    }
}

/// The parser's accumulated state after some lines of a media playlist.
#[verifier::ext_equal]
pub struct MediaAccModel {
    pub media_sequence: u64,
    pub discontinuity_sequence: u64,
    pub target_duration_ms: u64,
    pub playlist_type: Option<PlaylistType>,
    pub version: Option<u16>,
    pub segments: Seq<SegmentModel>,
    pub pend: PendModel,
}

/// The accumulator before any line is read.
pub open spec fn init_acc() -> MediaAccModel {
    MediaAccModel {
        media_sequence: 0,
        discontinuity_sequence: 0,
        target_duration_ms: 0,
        playlist_type: None,
        version: None,
        segments: Seq::empty(),
        pend: empty_pend(),
    }
}

/// The date range an attribute list declares: present when it has an `ID`
/// and a readable `START-DATE`; `END-DATE` and `DURATION` (signed decimal
/// seconds) are optional, and `END-ON-NEXT` is the flag value `YES`.
pub open spec fn daterange_of_attrs(attrs: Seq<(Seq<char>, Seq<char>)>) -> Option<DateRangeModel> {
    match crate::assoc::assoc_get(attrs, "ID"@) {
        None => None,
        Some(id) => match crate::assoc::assoc_get(attrs, "START-DATE"@) {
            None => None,
            Some(sd) => match rfc3339_ms_of(sd) {
                None => None,
                Some(start) => Some(
                    DateRangeModel {
                        id,
                        class: crate::assoc::assoc_get(attrs, "CLASS"@),
                        start_date_ms: start,
                        end_date_ms: match crate::assoc::assoc_get(attrs, "END-DATE"@) {
                            Some(e) => rfc3339_ms_of(e),
                            None => None,
                        },
                        duration_ms: match crate::assoc::assoc_get(attrs, "DURATION"@) {
                            Some(d) => signed_secs_ms(d),
                            None => None,
                        },
                        end_on_next: crate::assoc::assoc_get(attrs, "END-ON-NEXT"@) == Some("YES"@),
                    },
                ),
            },
        },
    }
}

/// A signed decimal number of seconds read as milliseconds, capped at the
/// `i64` range.
pub open spec fn signed_secs_ms(s: Seq<char>) -> Option<i64> {
    if s.len() > 0 && s[0] == '-' {
        match extinf_ms(s.drop_first()) {
            Some(v) => Some((if v > i64::MAX { (i64::MIN + 1) as int } else { -(v as int) }) as i64),
            None => None,
        }
    } else {
        match extinf_ms(s) {
            Some(v) => Some((if v > i64::MAX { i64::MAX as int } else { v as int }) as i64),
            None => None,
        }
    }
}

/// Reads a signed decimal number of seconds as milliseconds.
pub fn parse_signed_secs_ms(s: &str) -> (r: Option<i64>)
    ensures
        r == signed_secs_ms(s@),
{
    let len = s.unicode_len();
    if len > 0 && s.get_char(0) == '-' {
        let rest = str_after(s, 1);
        proof {
            assert(rest@ =~= s@.drop_first());
        }
        match parse_extinf_ms(rest.as_str()) {
            Some(v) => {
                if v > i64::MAX as u64 {
                    Some(i64::MIN + 1)
                } else {
                    Some(-(v as i64))
                }
            },
            None => None,
        }
    } else {
        match parse_extinf_ms(s) {
            Some(v) => {
                if v > i64::MAX as u64 {
                    Some(i64::MAX)
                } else {
                    Some(v as i64)
                }
            },
            None => None,
        }
    }
}

/// What one line of a media playlist does to the accumulated state: `None`
/// when the line is recognized but malformed. Tags not listed are ignored.
pub open spec fn media_line_step(m: MediaAccModel, line: Seq<char>) -> Option<MediaAccModel> {
    if line.len() == 0 {
        Some(m)
    } else if line[0] != '#' {
        Some(
            MediaAccModel {
                segments: m.segments.push(
                    SegmentModel {
                        uri: line,
                        duration_ms: m.pend.duration_ms,
                        discontinuity: m.pend.discontinuity,
                        cue_out: m.pend.cue_out,
                        cue_in: m.pend.cue_in,
                        cue_out_cont: m.pend.cue_out_cont,
                        gap: m.pend.gap,
                        program_date_time_ms: m.pend.program_date_time_ms,
                        daterange: m.pend.daterange,
                    },
                ),
                pend: empty_pend(),
                ..m
            },
        )
    } else if has_prefix(line, "#EXT-X-VERSION:"@) {
        match parse_u64_spec(line.skip("#EXT-X-VERSION:"@.len() as int)) {
            Some(v) => Some(
                MediaAccModel {
                    version: if v <= u16::MAX {
                        Some(v as u16)
                    } else {
                        None
                    },
                    ..m
                },
            ),
            None => None,
        }
    } else if has_prefix(line, "#EXT-X-TARGETDURATION:"@) {
        match parse_u64_spec(line.skip("#EXT-X-TARGETDURATION:"@.len() as int)) {
            Some(v) => Some(MediaAccModel { target_duration_ms: sat_u64(v * 1000), ..m }),
            None => None,
        }
    } else if has_prefix(line, "#EXT-X-MEDIA-SEQUENCE:"@) {
        match parse_u64_spec(line.skip("#EXT-X-MEDIA-SEQUENCE:"@.len() as int)) {
            Some(v) => Some(MediaAccModel { media_sequence: v, ..m }),
            None => None,
        }
    } else if has_prefix(line, "#EXT-X-DISCONTINUITY-SEQUENCE:"@) {
        match parse_u64_spec(line.skip("#EXT-X-DISCONTINUITY-SEQUENCE:"@.len() as int)) {
            Some(v) => Some(MediaAccModel { discontinuity_sequence: v, ..m }),
            None => None,
        }
    } else if line == "#EXT-X-DISCONTINUITY"@ {
        Some(MediaAccModel { pend: PendModel { discontinuity: true, ..m.pend }, ..m })
    } else if line == "#EXT-X-GAP"@ {
        Some(MediaAccModel { pend: PendModel { gap: true, ..m.pend }, ..m })
    } else if has_prefix(line, "#EXT-X-PLAYLIST-TYPE:"@) {
        let rest = line.skip("#EXT-X-PLAYLIST-TYPE:"@.len() as int);
        Some(
            MediaAccModel {
                playlist_type: if rest == "EVENT"@ {
                    Some(PlaylistType::Event)
                } else if rest == "VOD"@ {
                    Some(PlaylistType::Vod)
                } else {
                    None
                },
                ..m
            },
        )
    } else if has_prefix(line, "#EXTINF:"@) {
        match extinf_ms(line.skip("#EXTINF:"@.len() as int)) {
            Some(d) => Some(MediaAccModel { pend: PendModel { duration_ms: d, ..m.pend }, ..m }),
            None => None,
        }
    } else if has_prefix(line, "#EXT-X-CUE-OUT-CONT"@) {
        if has_prefix(line, "#EXT-X-CUE-OUT-CONT:"@) {
            Some(
                MediaAccModel {
                    pend: PendModel {
                        cue_out_cont: Some(line.skip("#EXT-X-CUE-OUT-CONT:"@.len() as int)),
                        ..m.pend
                    },
                    ..m
                },
            )
        } else {
            Some(m)
        }
    } else if has_prefix(line, "#EXT-X-CUE-OUT"@) {
        Some(MediaAccModel { pend: PendModel { cue_out: true, ..m.pend }, ..m })
    } else if has_prefix(line, "#EXT-X-CUE-IN"@) {
        Some(MediaAccModel { pend: PendModel { cue_in: true, ..m.pend }, ..m })
    } else if has_prefix(line, "#EXT-X-PROGRAM-DATE-TIME:"@) {
        Some(
            MediaAccModel {
                pend: PendModel {
                    program_date_time_ms: rfc3339_ms_of(
                        line.skip("#EXT-X-PROGRAM-DATE-TIME:"@.len() as int),
                    ),
                    ..m.pend
                },
                ..m
            },
        )
    } else if has_prefix(line, "#EXT-X-DATERANGE:"@) {
        Some(
            MediaAccModel {
                pend: PendModel {
                    daterange: daterange_of_attrs(
                        parse_attrs(line.skip("#EXT-X-DATERANGE:"@.len() as int)),
                    ),
                    ..m.pend
                },
                ..m
            },
        )
    } else {
        Some(m)
    }
}

/// The accumulated state after folding the lines from `i` on, starting from
/// `m`; `None` once any line is malformed.
pub open spec fn media_fold(lines: Seq<Seq<char>>, i: int, m: MediaAccModel) -> Option<
    MediaAccModel,
>
    decreases lines.len() - i,
{
    if i < 0 || i >= lines.len() {
        Some(m)
    } else {
        match media_line_step(m, lines[i]) {
            None => None,
            Some(m2) => media_fold(lines, i + 1, m2),
        }
    }
}

/// How many segments of a run carry `EXT-X-CUE-OUT`.
pub open spec fn count_cue_out(segs: Seq<SegmentModel>) -> int
    decreases segs.len(),
{
    if segs.len() == 0 {
        0
    } else {
        count_cue_out(segs.drop_last()) + if segs.last().cue_out {
            1int
        } else {
            0int
        }
    }
}

/// How many segments of a run carry `EXT-X-CUE-IN`.
pub open spec fn count_cue_in(segs: Seq<SegmentModel>) -> int
    decreases segs.len(),
{
    if segs.len() == 0 {
        0
    } else {
        count_cue_in(segs.drop_last()) + if segs.last().cue_in {
            1int
        } else {
            0int
        }
    }
}

/// Whether any segment of a run carries `EXT-X-GAP`.
pub open spec fn any_gap_model(segs: Seq<SegmentModel>) -> bool {
    exists|i: int| 0 <= i < segs.len() && segs[i].gap
}

/// The total duration of a run of segments, capped.
pub open spec fn dur_sum(segs: Seq<SegmentModel>) -> u64
    decreases segs.len(),
{
    if segs.len() == 0 {
        0
    } else {
        sat_u64(dur_sum(segs.drop_last()) + segs.last().duration_ms)
    }
}

/// The finished playlist an accumulator describes: segments plus the
/// aggregates over them.
pub open spec fn finish_media(m: MediaAccModel) -> PlaylistModel {
    PlaylistModel {
        media_sequence: m.media_sequence,
        discontinuity_sequence: m.discontinuity_sequence,
        segments: m.segments,
        duration_ms: dur_sum(m.segments),
        cue_out_count: count_cue_out(m.segments),
        cue_in_count: count_cue_in(m.segments),
        has_cue_out: count_cue_out(m.segments) > 0,
        cue_out_duration_ms: None,
        target_duration_ms: m.target_duration_ms,
        playlist_type: m.playlist_type,
        version: m.version,
        has_gaps: any_gap_model(m.segments),
    }
}

/// What parsing a media playlist yields: `None` unless the first line is
/// `#EXTM3U` and every recognized tag is well-formed; otherwise the fold of
/// the line semantics, finished with the aggregates.
pub open spec fn parse_media_spec(s: Seq<char>) -> Option<PlaylistModel> {
    let lines = split_lines(s);
    if lines.len() == 0 || lines[0] != "#EXTM3U"@ {
        None
    } else {
        match media_fold(lines, 0, init_acc()) {
            None => None,
            Some(m) => Some(finish_media(m)),
        }
    }
}


/// Builds the date range an attribute vector declares, if any.
fn build_daterange(attrs: &Vec<(String, String)>) -> (r: Option<DateRangeSnapshot>)
    ensures
        opt_dr_model(r) == daterange_of_attrs(pairs_view(attrs@)),
{
    let id = match lookup_attr(attrs, "ID") {
        Some(v) => v,
        None => {
            return None;
        },
    };
    let sd = match lookup_attr(attrs, "START-DATE") {
        Some(v) => v,
        None => {
            return None;
        },
    };
    let start = match parse_rfc3339_ms(sd.as_str()) {
        Some(v) => v,
        None => {
            return None;
        },
    };
    let class = match lookup_attr(attrs, "CLASS") {
        Some(v) => Some(v.clone()),
        None => None,
    };
    let end_date_ms = match lookup_attr(attrs, "END-DATE") {
        Some(e) => parse_rfc3339_ms(e.as_str()),
        None => None,
    };
    let duration_ms = match lookup_attr(attrs, "DURATION") {
        Some(d) => parse_signed_secs_ms(d.as_str()),
        None => None,
    };
    let end_on_next = match lookup_attr(attrs, "END-ON-NEXT") {
        Some(v) => eq_str(v.as_str(), "YES"),
        None => false,
    };
    Some(
        DateRangeSnapshot {
            id: id.clone(),
            class,
            start_date_ms: start,
            end_date_ms,
            duration_ms,
            end_on_next,
        },
    )
}

/// Parses the text of a media playlist into a snapshot: the first line must
/// be `#EXTM3U`, and every recognized tag must be well-formed. The result is
/// exactly what `parse_media_spec` describes.
#[verifier::rlimit(100)]
pub fn parse_media_playlist(text: &str) -> (r: Result<PlaylistSnapshot, ()>)
    ensures
        match r {
            Ok(p) => parse_media_spec(text@) == Some(playlist_model(p)),
            Err(e) => parse_media_spec(text@) is None,
        },
{
    let lines = split_into_lines(text);
    let ghost lv = line_views(lines@);
    if lines.len() == 0 {
        return Err(());
    }
    if !eq_str(lines[0].as_str(), "#EXTM3U") {
        proof {
            assert(lv[0] != "#EXTM3U"@);
        }
        return Err(());
    }
    let mut mseq: u64 = 0;
    let mut dseq: u64 = 0;
    let mut target_ms: u64 = 0;
    let mut ptype: Option<PlaylistType> = None;
    let mut version: Option<u16> = None;
    let mut segments: Vec<SegmentSnapshot> = Vec::new();
    let mut p_dur: u64 = 0;
    let mut p_disc: bool = false;
    let mut p_out: bool = false;
    let mut p_in: bool = false;
    let mut p_cont: Option<String> = None;
    let mut p_gap: bool = false;
    let mut p_pdt: Option<i64> = None;
    let mut p_dr: Option<DateRangeSnapshot> = None;
    let n = lines.len();
    let mut i: usize = 0;
    proof {
        assert(segs_model(segments@) =~= Seq::<SegmentModel>::empty());
    }
    while i < n
        invariant
            i <= n,
            n == lines@.len(),
            lv == line_views(lines@),
            lv == split_lines(text@),
            lv.len() > 0,
            lv[0] == "#EXTM3U"@,
            media_fold(lv, 0, init_acc()) == media_fold(
                lv,
                i as int,
                MediaAccModel {
                    media_sequence: mseq,
                    discontinuity_sequence: dseq,
                    target_duration_ms: target_ms,
                    playlist_type: ptype,
                    version: version,
                    segments: segs_model(segments@),
                    pend: PendModel {
                        duration_ms: p_dur,
                        discontinuity: p_disc,
                        cue_out: p_out,
                        cue_in: p_in,
                        cue_out_cont: opt_view(p_cont),
                        gap: p_gap,
                        program_date_time_ms: p_pdt,
                        daterange: opt_dr_model(p_dr),
                    },
                },
            ),
        decreases n - i,
    {
        let ghost cur = MediaAccModel {
            media_sequence: mseq,
            discontinuity_sequence: dseq,
            target_duration_ms: target_ms,
            playlist_type: ptype,
            version: version,
            segments: segs_model(segments@),
            pend: PendModel {
                duration_ms: p_dur,
                discontinuity: p_disc,
                cue_out: p_out,
                cue_in: p_in,
                cue_out_cont: opt_view(p_cont),
                gap: p_gap,
                program_date_time_ms: p_pdt,
                daterange: opt_dr_model(p_dr),
            },
        };
        let line = &lines[i];
        let llen = line.unicode_len();
        proof {
            assert(lv[i as int] == line@);
        }
        if llen == 0 {
            proof {
                assert(media_line_step(cur, lv[i as int]) == Some(cur));
            }
        } else if line.as_str().get_char(0) != '#' {
            let ghost presegs = segs_model(segments@);
            let seg = SegmentSnapshot {
                uri: line.clone(),
                duration_ms: p_dur,
                discontinuity: p_disc,
                cue_out: p_out,
                cue_in: p_in,
                cue_out_cont: p_cont,
                gap: p_gap,
                program_date_time_ms: p_pdt,
                daterange: p_dr,
            };
            let ghost segm = seg_model(seg);
            segments.push(seg);
            p_dur = 0;
            p_disc = false;
            p_out = false;
            p_in = false;
            p_cont = None;
            p_gap = false;
            p_pdt = None;
            p_dr = None;
            proof {
                assert(segs_model(segments@) =~= presegs.push(segm));
                assert(media_line_step(cur, lv[i as int]) is Some);
            }
        } else if starts_with(line.as_str(), "#EXT-X-VERSION:") {
            let tag = "#EXT-X-VERSION:";
            let rest = str_after(line.as_str(), tag.unicode_len());
            proof {
                assert(rest@ =~= line@.skip(tag@.len() as int));
            }
            match crate::strutil::parse_u64(rest.as_str()) {
                Some(v) => {
                    version = if v <= 65535 {
                        Some(v as u16)
                    } else {
                        None
                    };
                },
                None => {
                    proof {
                        assert(media_line_step(cur, lv[i as int]) is None);
                        assert(media_fold(lv, i as int, cur) is None);
                        assert(parse_media_spec(text@) is None);
                    }
                    return Err(());
                },
            }
        } else if starts_with(line.as_str(), "#EXT-X-TARGETDURATION:") {
            let tag = "#EXT-X-TARGETDURATION:";
            let rest = str_after(line.as_str(), tag.unicode_len());
            proof {
                assert(rest@ =~= line@.skip(tag@.len() as int));
            }
            match crate::strutil::parse_u64(rest.as_str()) {
                Some(v) => {
                    target_ms = if v > u64::MAX / 1000 {
                        u64::MAX
                    } else {
                        v * 1000
                    };
                    proof {
                        assert(target_ms == sat_u64(v * 1000)) by (nonlinear_arith)
                            requires
                                target_ms == (if v > u64::MAX / 1000 {
                                    u64::MAX
                                } else {
                                    (v * 1000) as u64
                                }),
                                v <= u64::MAX,
                        ;
                    }
                },
                None => {
                    proof {
                        assert(media_line_step(cur, lv[i as int]) is None);
                        assert(media_fold(lv, i as int, cur) is None);
                        assert(parse_media_spec(text@) is None);
                    }
                    return Err(());
                },
            }
        } else if starts_with(line.as_str(), "#EXT-X-MEDIA-SEQUENCE:") {
            let tag = "#EXT-X-MEDIA-SEQUENCE:";
            let rest = str_after(line.as_str(), tag.unicode_len());
            proof {
                assert(rest@ =~= line@.skip(tag@.len() as int));
            }
            match crate::strutil::parse_u64(rest.as_str()) {
                Some(v) => {
                    mseq = v;
                },
                None => {
                    proof {
                        assert(media_line_step(cur, lv[i as int]) is None);
                        assert(media_fold(lv, i as int, cur) is None);
                        assert(parse_media_spec(text@) is None);
                    }
                    return Err(());
                },
            }
        } else if starts_with(line.as_str(), "#EXT-X-DISCONTINUITY-SEQUENCE:") {
            let tag = "#EXT-X-DISCONTINUITY-SEQUENCE:";
            let rest = str_after(line.as_str(), tag.unicode_len());
            proof {
                assert(rest@ =~= line@.skip(tag@.len() as int));
            }
            match crate::strutil::parse_u64(rest.as_str()) {
                Some(v) => {
                    dseq = v;
                },
                None => {
                    proof {
                        assert(media_line_step(cur, lv[i as int]) is None);
                        assert(media_fold(lv, i as int, cur) is None);
                        assert(parse_media_spec(text@) is None);
                    }
                    return Err(());
                },
            }
        } else if eq_str(line.as_str(), "#EXT-X-DISCONTINUITY") {
            p_disc = true;
        } else if eq_str(line.as_str(), "#EXT-X-GAP") {
            p_gap = true;
        } else if starts_with(line.as_str(), "#EXT-X-PLAYLIST-TYPE:") {
            let tag = "#EXT-X-PLAYLIST-TYPE:";
            let rest = str_after(line.as_str(), tag.unicode_len());
            proof {
                assert(rest@ =~= line@.skip(tag@.len() as int));
            }
            ptype = if eq_str(rest.as_str(), "EVENT") {
                Some(PlaylistType::Event)
            } else if eq_str(rest.as_str(), "VOD") {
                Some(PlaylistType::Vod)
            } else {
                None
            };
        } else if starts_with(line.as_str(), "#EXTINF:") {
            let tag = "#EXTINF:";
            let rest = str_after(line.as_str(), tag.unicode_len());
            proof {
                assert(rest@ =~= line@.skip(tag@.len() as int));
            }
            match parse_extinf_ms(rest.as_str()) {
                Some(d) => {
                    p_dur = d;
                },
                None => {
                    proof {
                        assert(media_line_step(cur, lv[i as int]) is None);
                        assert(media_fold(lv, i as int, cur) is None);
                        assert(parse_media_spec(text@) is None);
                    }
                    return Err(());
                },
            }
        } else if starts_with(line.as_str(), "#EXT-X-CUE-OUT-CONT") {
            if starts_with(line.as_str(), "#EXT-X-CUE-OUT-CONT:") {
                let tag = "#EXT-X-CUE-OUT-CONT:";
                let rest = str_after(line.as_str(), tag.unicode_len());
                proof {
                    assert(rest@ =~= line@.skip(tag@.len() as int));
                }
                p_cont = Some(rest);
            }
        } else if starts_with(line.as_str(), "#EXT-X-CUE-OUT") {
            p_out = true;
        } else if starts_with(line.as_str(), "#EXT-X-CUE-IN") {
            p_in = true;
        } else if starts_with(line.as_str(), "#EXT-X-PROGRAM-DATE-TIME:") {
            let tag = "#EXT-X-PROGRAM-DATE-TIME:";
            let rest = str_after(line.as_str(), tag.unicode_len());
            proof {
                assert(rest@ =~= line@.skip(tag@.len() as int));
            }
            p_pdt = parse_rfc3339_ms(rest.as_str());
        } else if starts_with(line.as_str(), "#EXT-X-DATERANGE:") {
            let tag = "#EXT-X-DATERANGE:";
            let rest = str_after(line.as_str(), tag.unicode_len());
            proof {
                assert(rest@ =~= line@.skip(tag@.len() as int));
            }
            let attrs = parse_attrs_exec(rest.as_str());
            p_dr = build_daterange(&attrs);
        } else {
            proof {
                assert(media_line_step(cur, lv[i as int]) == Some(cur));
            }
        }
        proof {
            let m2 = MediaAccModel {
                media_sequence: mseq,
                discontinuity_sequence: dseq,
                target_duration_ms: target_ms,
                playlist_type: ptype,
                version: version,
                segments: segs_model(segments@),
                pend: PendModel {
                    duration_ms: p_dur,
                    discontinuity: p_disc,
                    cue_out: p_out,
                    cue_in: p_in,
                    cue_out_cont: opt_view(p_cont),
                    gap: p_gap,
                    program_date_time_ms: p_pdt,
                    daterange: opt_dr_model(p_dr),
                },
            };
            assert(media_line_step(cur, lv[i as int]) =~~= Some(m2));
            assert(media_fold(lv, i as int, cur) == media_fold(lv, i as int + 1, m2));
        }
        i = i + 1;
    }
    let ghost fin = MediaAccModel {
        media_sequence: mseq,
        discontinuity_sequence: dseq,
        target_duration_ms: target_ms,
        playlist_type: ptype,
        version: version,
        segments: segs_model(segments@),
        pend: PendModel {
            duration_ms: p_dur,
            discontinuity: p_disc,
            cue_out: p_out,
            cue_in: p_in,
            cue_out_cont: opt_view(p_cont),
            gap: p_gap,
            program_date_time_ms: p_pdt,
            daterange: opt_dr_model(p_dr),
        },
    };
    proof {
        assert(media_fold(lv, n as int, fin) == Some(fin));
    }
    let ghost sm = segs_model(segments@);
    let nsegs = segments.len();
    let mut co: usize = 0;
    let mut ci: usize = 0;
    let mut gaps: bool = false;
    let mut dur: u64 = 0;
    let mut j: usize = 0;
    proof {
        assert(sm.take(0) =~= Seq::<SegmentModel>::empty());
    }
    while j < nsegs
        invariant
            j <= nsegs,
            nsegs == segments@.len(),
            sm == segs_model(segments@),
            co as int == count_cue_out(sm.take(j as int)),
            ci as int == count_cue_in(sm.take(j as int)),
            gaps == any_gap_model(sm.take(j as int)),
            dur == dur_sum(sm.take(j as int)),
            co <= j,
            ci <= j,
        decreases nsegs - j,
    {
        proof {
            assert(sm.take(j as int + 1).drop_last() =~= sm.take(j as int));
            assert(sm.take(j as int + 1).last() == sm[j as int]);
        }
        if segments[j].cue_out {
            co = co + 1;
        }
        if segments[j].cue_in {
            ci = ci + 1;
        }
        if segments[j].gap {
            gaps = true;
        }
        let d = segments[j].duration_ms;
        dur = dur.saturating_add(d);
        proof {
            assert(any_gap_model(sm.take(j as int + 1)) == (any_gap_model(sm.take(j as int))
                || sm[j as int].gap)) by {
                if any_gap_model(sm.take(j as int)) {
                    let w = choose|k: int|
                        0 <= k < sm.take(j as int).len() && #[trigger] sm.take(j as int)[k].gap;
                    assert(sm.take(j as int + 1)[w].gap);
                } else if sm[j as int].gap {
                    assert(sm.take(j as int + 1)[j as int].gap);
                } else if any_gap_model(sm.take(j as int + 1)) {
                    let w = choose|k: int|
                        0 <= k < sm.take(j as int + 1).len() && #[trigger] sm.take(
                            j as int + 1,
                        )[k].gap;
                    if w < j as int {
                        assert(sm.take(j as int)[w].gap);
                    }
                }
            }
        }
        j = j + 1;
    }
    proof {
        assert(sm.take(nsegs as int) =~= sm);
    }
    let snapshot = PlaylistSnapshot {
        media_sequence: mseq,
        discontinuity_sequence: dseq,
        segments,
        duration_ms: dur,
        cue_out_count: co,
        cue_in_count: ci,
        has_cue_out: co > 0,
        cue_out_duration_ms: None,
        target_duration_ms: target_ms,
        playlist_type: ptype,
        version,
        has_gaps: gaps,
    };
    proof {
        assert(playlist_model(snapshot) =~~= finish_media(fin));
    }
    Ok(snapshot)
}


/// One bandwidth variant of a master playlist as plain values.
#[verifier::ext_equal]
pub struct VariantModel {
    pub uri: Seq<char>,
    pub bandwidth: u64,
    pub is_i_frame: bool,
}

/// One alternative rendition of a master playlist as plain values.
#[verifier::ext_equal]
pub struct AltModel {
    pub uri: Option<Seq<char>>,
    pub group_id: Seq<char>,
    pub language: Option<Seq<char>>,
    pub name: Seq<char>,
    pub media_type: Seq<char>,
}

/// A parsed master playlist as plain values.
#[verifier::ext_equal]
pub struct MasterModel {
    pub variants: Seq<VariantModel>,
    pub alternatives: Seq<AltModel>,
}

/// One bandwidth variant of a master playlist.
pub struct VariantStreamInfo {
    pub uri: String,
    pub bandwidth: u64,
    pub is_i_frame: bool,
}

/// One alternative rendition (audio, subtitles) of a master playlist.
pub struct AlternativeMediaInfo {
    pub uri: Option<String>,
    pub group_id: String,
    pub language: Option<String>,
    pub name: String,
    pub media_type: String,
}

/// A parsed master playlist: bandwidth variants and alternative renditions.
pub struct MasterPlaylist {
    pub variants: Vec<VariantStreamInfo>,
    pub alternatives: Vec<AlternativeMediaInfo>,
}

/// The plain values of a variant entry.
pub open spec fn variant_model(v: VariantStreamInfo) -> VariantModel {
    VariantModel { uri: v.uri@, bandwidth: v.bandwidth, is_i_frame: v.is_i_frame }
}

/// The plain values of an alternative entry.
pub open spec fn alt_model(a: AlternativeMediaInfo) -> AltModel {
    AltModel {
        uri: opt_view(a.uri),
        group_id: a.group_id@,
        language: opt_view(a.language),
        name: a.name@,
        media_type: a.media_type@,
    }
}

/// The plain values of a master playlist.
pub open spec fn master_model(m: MasterPlaylist) -> MasterModel {
    MasterModel {
        variants: m.variants@.map(|i: int, v: VariantStreamInfo| variant_model(v)),
        alternatives: m.alternatives@.map(|i: int, a: AlternativeMediaInfo| alt_model(a)),
    }
}

/// The master parser's accumulated state: the entries so far and, between an
/// `EXT-X-STREAM-INF` tag and its URI line, the pending bandwidth.
#[verifier::ext_equal]
pub struct MasterAccModel {
    pub variants: Seq<VariantModel>,
    pub alternatives: Seq<AltModel>,
    pub pending_bandwidth: Option<u64>,
}

/// What one line of a master playlist does to the accumulated state: `None`
/// when a recognized tag is malformed.
pub open spec fn master_line_step(m: MasterAccModel, line: Seq<char>) -> Option<MasterAccModel> {
    if line.len() == 0 {
        Some(m)
    } else if line[0] != '#' {
        match m.pending_bandwidth {
            Some(bw) => Some(
                MasterAccModel {
                    variants: m.variants.push(
                        VariantModel { uri: line, bandwidth: bw, is_i_frame: false },
                    ),
                    pending_bandwidth: None,
                    ..m
                },
            ),
            None => Some(m),
        }
    } else if has_prefix(line, "#EXT-X-STREAM-INF:"@) {
        let attrs = parse_attrs(line.skip("#EXT-X-STREAM-INF:"@.len() as int));
        match crate::assoc::assoc_get(attrs, "BANDWIDTH"@) {
            None => None,
            Some(b) => match parse_u64_spec(b) {
                None => None,
                Some(bw) => Some(MasterAccModel { pending_bandwidth: Some(bw), ..m }),
            },
        }
    } else if has_prefix(line, "#EXT-X-I-FRAME-STREAM-INF:"@) {
        let attrs = parse_attrs(line.skip("#EXT-X-I-FRAME-STREAM-INF:"@.len() as int));
        match crate::assoc::assoc_get(attrs, "BANDWIDTH"@) {
            None => None,
            Some(b) => match parse_u64_spec(b) {
                None => None,
                Some(bw) => match crate::assoc::assoc_get(attrs, "URI"@) {
                    None => Some(m),
                    Some(uri) => Some(
                        MasterAccModel {
                            variants: m.variants.push(
                                VariantModel { uri, bandwidth: bw, is_i_frame: true },
                            ),
                            ..m
                        },
                    ),
                },
            },
        }
    } else if has_prefix(line, "#EXT-X-MEDIA:"@) {
        let attrs = parse_attrs(line.skip("#EXT-X-MEDIA:"@.len() as int));
        match (
            crate::assoc::assoc_get(attrs, "TYPE"@),
            crate::assoc::assoc_get(attrs, "GROUP-ID"@),
            crate::assoc::assoc_get(attrs, "NAME"@),
        ) {
            (Some(t), Some(g), Some(nm)) => Some(
                MasterAccModel {
                    alternatives: m.alternatives.push(
                        AltModel {
                            uri: crate::assoc::assoc_get(attrs, "URI"@),
                            group_id: g,
                            language: crate::assoc::assoc_get(attrs, "LANGUAGE"@),
                            name: nm,
                            media_type: t,
                        },
                    ),
                    ..m
                },
            ),
            _ => Some(m),
        }
    } else {
        Some(m)
    }
}

/// The accumulated master state after folding the lines from `i` on.
pub open spec fn master_fold(lines: Seq<Seq<char>>, i: int, m: MasterAccModel) -> Option<
    MasterAccModel,
>
    decreases lines.len() - i,
{
    if i < 0 || i >= lines.len() {
        Some(m)
    } else {
        match master_line_step(m, lines[i]) {
            None => None,
            Some(m2) => master_fold(lines, i + 1, m2),
        }
    }
}

/// What parsing a master playlist yields: `None` unless the first line is
/// `#EXTM3U` and every `EXT-X-STREAM-INF` carries a readable bandwidth.
pub open spec fn parse_master_spec(s: Seq<char>) -> Option<MasterModel> {
    let lines = split_lines(s);
    if lines.len() == 0 || lines[0] != "#EXTM3U"@ {
        None
    } else {
        match master_fold(
            lines,
            0,
            MasterAccModel {
                variants: Seq::empty(),
                alternatives: Seq::empty(),
                pending_bandwidth: None,
            },
        ) {
            None => None,
            Some(m) => Some(MasterModel { variants: m.variants, alternatives: m.alternatives }),
        }
    }
}

/// Whether playlist text is a master playlist: some line carries
/// `EXT-X-STREAM-INF`.
pub open spec fn is_master_spec(s: Seq<char>) -> bool {
    exists|i: int|
        0 <= i < split_lines(s).len() && has_prefix(split_lines(s)[i], "#EXT-X-STREAM-INF:"@)
}

/// Decides whether playlist text is a master playlist.
pub fn is_master_playlist(text: &str) -> (r: bool)
    ensures
        r == is_master_spec(text@),
{
    let lines = split_into_lines(text);
    let ghost lv = line_views(lines@);
    let n = lines.len();
    let mut i: usize = 0;
    while i < n
        invariant
            i <= n,
            n == lines@.len(),
            lv == line_views(lines@),
            lv == split_lines(text@),
            forall|j: int| 0 <= j < i ==> !has_prefix(lv[j], "#EXT-X-STREAM-INF:"@),
        decreases n - i,
    {
        proof {
            assert(lv[i as int] == lines@[i as int]@);
        }
        if starts_with(lines[i].as_str(), "#EXT-X-STREAM-INF:") {
            proof {
                assert(has_prefix(split_lines(text@)[i as int], "#EXT-X-STREAM-INF:"@));
            }
            return true;
        }
        i = i + 1;
    }
    false
}

/// Parses the text of a master playlist, exactly as `parse_master_spec`
/// describes.
#[verifier::rlimit(100)]
pub fn parse_master_playlist(text: &str) -> (r: Result<MasterPlaylist, ()>)
    ensures
        match r {
            Ok(m) => parse_master_spec(text@) == Some(master_model(m)),
            Err(e) => parse_master_spec(text@) is None,
        },
{
    let lines = split_into_lines(text);
    let ghost lv = line_views(lines@);
    if lines.len() == 0 {
        return Err(());
    }
    if !eq_str(lines[0].as_str(), "#EXTM3U") {
        proof {
            assert(lv[0] != "#EXTM3U"@);
        }
        return Err(());
    }
    let mut variants: Vec<VariantStreamInfo> = Vec::new();
    let mut alternatives: Vec<AlternativeMediaInfo> = Vec::new();
    let mut pending: Option<u64> = None;
    let n = lines.len();
    let mut i: usize = 0;
    proof {
        assert(variants@.map(|k: int, v: VariantStreamInfo| variant_model(v)) =~= Seq::<
            VariantModel,
        >::empty());
        assert(alternatives@.map(|k: int, a: AlternativeMediaInfo| alt_model(a)) =~= Seq::<
            AltModel,
        >::empty());
    }
    while i < n
        invariant
            i <= n,
            n == lines@.len(),
            lv == line_views(lines@),
            lv == split_lines(text@),
            lv.len() > 0,
            lv[0] == "#EXTM3U"@,
            master_fold(
                lv,
                0,
                MasterAccModel {
                    variants: Seq::empty(),
                    alternatives: Seq::empty(),
                    pending_bandwidth: None,
                },
            ) == master_fold(
                lv,
                i as int,
                MasterAccModel {
                    variants: variants@.map(|k: int, v: VariantStreamInfo| variant_model(v)),
                    alternatives: alternatives@.map(
                        |k: int, a: AlternativeMediaInfo| alt_model(a),
                    ),
                    pending_bandwidth: pending,
                },
            ),
        decreases n - i,
    {
        let ghost cur = MasterAccModel {
            variants: variants@.map(|k: int, v: VariantStreamInfo| variant_model(v)),
            alternatives: alternatives@.map(|k: int, a: AlternativeMediaInfo| alt_model(a)),
            pending_bandwidth: pending,
        };
        let line = &lines[i];
        let llen = line.unicode_len();
        proof {
            assert(lv[i as int] == line@);
        }
        if llen == 0 {
        } else if line.as_str().get_char(0) != '#' {
            match pending {
                Some(bw) => {
                    let ghost prevars = cur.variants;
                    variants.push(
                        VariantStreamInfo { uri: line.clone(), bandwidth: bw, is_i_frame: false },
                    );
                    pending = None;
                    proof {
                        assert(variants@.map(|k: int, v: VariantStreamInfo| variant_model(v))
                            =~= prevars.push(
                            VariantModel { uri: line@, bandwidth: bw, is_i_frame: false },
                        ));
                    }
                },
                None => {},
            }
        } else if starts_with(line.as_str(), "#EXT-X-STREAM-INF:") {
            let tag = "#EXT-X-STREAM-INF:";
            let rest = str_after(line.as_str(), tag.unicode_len());
            proof {
                assert(rest@ =~= line@.skip(tag@.len() as int));
            }
            let attrs = parse_attrs_exec(rest.as_str());
            let bw = match lookup_attr(&attrs, "BANDWIDTH") {
                Some(b) => match crate::strutil::parse_u64(b.as_str()) {
                    Some(v) => v,
                    None => {
                        proof {
                            assert(master_line_step(cur, lv[i as int]) is None);
                            assert(master_fold(lv, i as int, cur) is None);
                            assert(parse_master_spec(text@) is None);
                        }
                        return Err(());
                    },
                },
                None => {
                    proof {
                        assert(master_line_step(cur, lv[i as int]) is None);
                        assert(master_fold(lv, i as int, cur) is None);
                        assert(parse_master_spec(text@) is None);
                    }
                    return Err(());
                },
            };
            pending = Some(bw);
        } else if starts_with(line.as_str(), "#EXT-X-I-FRAME-STREAM-INF:") {
            let tag = "#EXT-X-I-FRAME-STREAM-INF:";
            let rest = str_after(line.as_str(), tag.unicode_len());
            proof {
                assert(rest@ =~= line@.skip(tag@.len() as int));
            }
            let attrs = parse_attrs_exec(rest.as_str());
            let bw = match lookup_attr(&attrs, "BANDWIDTH") {
                Some(b) => match crate::strutil::parse_u64(b.as_str()) {
                    Some(v) => v,
                    None => {
                        proof {
                            assert(master_line_step(cur, lv[i as int]) is None);
                            assert(master_fold(lv, i as int, cur) is None);
                            assert(parse_master_spec(text@) is None);
                        }
                        return Err(());
                    },
                },
                None => {
                    proof {
                        assert(master_line_step(cur, lv[i as int]) is None);
                        assert(master_fold(lv, i as int, cur) is None);
                        assert(parse_master_spec(text@) is None);
                    }
                    return Err(());
                },
            };
            match lookup_attr(&attrs, "URI") {
                Some(uri) => {
                    let ghost prevars = cur.variants;
                    variants.push(
                        VariantStreamInfo { uri: uri.clone(), bandwidth: bw, is_i_frame: true },
                    );
                    proof {
                        assert(variants@.map(|k: int, v: VariantStreamInfo| variant_model(v))
                            =~= prevars.push(
                            VariantModel { uri: uri@, bandwidth: bw, is_i_frame: true },
                        ));
                    }
                },
                None => {},
            }
        } else if starts_with(line.as_str(), "#EXT-X-MEDIA:") {
            let tag = "#EXT-X-MEDIA:";
            let rest = str_after(line.as_str(), tag.unicode_len());
            proof {
                assert(rest@ =~= line@.skip(tag@.len() as int));
            }
            let attrs = parse_attrs_exec(rest.as_str());
            let t = lookup_attr(&attrs, "TYPE");
            let g = lookup_attr(&attrs, "GROUP-ID");
            let nm = lookup_attr(&attrs, "NAME");
            match (t, g, nm) {
                (Some(tv), Some(gv), Some(nv)) => {
                    let uri = match lookup_attr(&attrs, "URI") {
                        Some(u) => Some(u.clone()),
                        None => None,
                    };
                    let language = match lookup_attr(&attrs, "LANGUAGE") {
                        Some(l) => Some(l.clone()),
                        None => None,
                    };
                    let ghost prealts = cur.alternatives;
                    let alt = AlternativeMediaInfo {
                        uri,
                        group_id: gv.clone(),
                        language,
                        name: nv.clone(),
                        media_type: tv.clone(),
                    };
                    let ghost altm = alt_model(alt);
                    alternatives.push(alt);
                    proof {
                        assert(alternatives@.map(|k: int, a: AlternativeMediaInfo| alt_model(a))
                            =~= prealts.push(altm));
                    }
                },
                _ => {},
            }
        } else {
        }
        proof {
            let m2 = MasterAccModel {
                variants: variants@.map(|k: int, v: VariantStreamInfo| variant_model(v)),
                alternatives: alternatives@.map(|k: int, a: AlternativeMediaInfo| alt_model(a)),
                pending_bandwidth: pending,
            };
            assert(master_line_step(cur, lv[i as int]) =~~= Some(m2));
            assert(master_fold(lv, i as int, cur) == master_fold(lv, i as int + 1, m2));
        }
        i = i + 1;
    }
    let master = MasterPlaylist { variants, alternatives };
    proof {
        assert(parse_master_spec(text@) =~~= Some(master_model(master)));
    }
    Ok(master)
}

} // verus!
