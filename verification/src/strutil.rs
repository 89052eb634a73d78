//! Verified text helpers: decimal rendering of integers, character access,
//! query-string stripping, and digit parsing. Contracts are stated over
//! `Seq<char>` views so that callers can pin down message texts exactly.

use vstd::prelude::*;

verus! {

/// The character for a single decimal digit.
pub open spec fn dec_digit_char(d: nat) -> char {
    if d == 0 {
        '0'
    } else if d == 1 {
        '1'
    } else if d == 2 {
        '2'
    } else if d == 3 {
        '3'
    } else if d == 4 {
        '4'
    } else if d == 5 {
        '5'
    } else if d == 6 {
        '6'
    } else if d == 7 {
        '7'
    } else if d == 8 {
        '8'
    } else {
        '9'
    }
}

/// Decimal representation of a natural number, most significant digit first.
pub open spec fn dec_rep(n: nat) -> Seq<char>
    decreases n,
{
    if n < 10 {
        seq![dec_digit_char(n)]
    } else {
        dec_rep(n / 10) + seq![dec_digit_char(n % 10)]
    }
}

/// One-character string slice for a decimal digit.
fn digit_str(d: u64) -> (r: &'static str)
    requires
        d < 10,
    ensures
        r@ == seq![dec_digit_char(d as nat)],
{
    proof {
        reveal_strlit("0");
        reveal_strlit("1");
        reveal_strlit("2");
        reveal_strlit("3");
        reveal_strlit("4");
        reveal_strlit("5");
        reveal_strlit("6");
        reveal_strlit("7");
        reveal_strlit("8");
        reveal_strlit("9");
    }
    let r = if d == 0 {
        "0"
    } else if d == 1 {
        "1"
    } else if d == 2 {
        "2"
    } else if d == 3 {
        "3"
    } else if d == 4 {
        "4"
    } else if d == 5 {
        "5"
    } else if d == 6 {
        "6"
    } else if d == 7 {
        "7"
    } else if d == 8 {
        "8"
    } else {
        "9"
    };
    proof {
        assert(r@ =~= seq![dec_digit_char(d as nat)]);
    }
    r
}

/// Renders a `u64` in decimal, exactly as `dec_rep` describes.
pub fn u64_to_string(n: u64) -> (r: String)
    ensures
        r@ == dec_rep(n as nat),
    decreases n,
{
    if n < 10 {
        digit_str(n).to_owned()
    } else {
        let mut s = u64_to_string(n / 10);
        s.append(digit_str(n % 10));
        s
    }
}

/// Renders a `u128` in decimal, exactly as `dec_rep` describes.
pub fn u128_to_string(n: u128) -> (r: String)
    ensures
        r@ == dec_rep(n as nat),
    decreases n,
{
    if n < 10 {
        digit_str(n as u64).to_owned()
    } else {
        let mut s = u128_to_string(n / 10);
        s.append(digit_str((n % 10) as u64));
        s
    }
}

/// A signed number in decimal: a minus sign for negatives, then the digits.
pub open spec fn int_rep(n: int) -> Seq<char> {
    if n < 0 {
        "-"@ + dec_rep((-n) as nat)
    } else {
        dec_rep(n as nat)
    }
}

/// Renders an `i128` in decimal, exactly as `int_rep` describes.
pub fn i128_to_string(n: i128) -> (r: String)
    ensures
        r@ == int_rep(n as int),
{
    if n >= 0 {
        u128_to_string(n as u128)
    } else {
        let abs: u128 = if n == i128::MIN {
            170141183460469231731687303715884105728u128
        } else {
            (-n) as u128
        };
        let mut s = "-".to_owned();
        let d = u128_to_string(abs);
        s.append(d.as_str());
        proof {
            assert(s@ =~= int_rep(n as int));
        }
        s
    }
}

/// Renders a `usize` in decimal.
pub fn usize_to_string(n: usize) -> (r: String)
    ensures
        r@ == dec_rep(n as nat),
{
    u64_to_string(n as u64)
}

/// Equality of two string slices, decided character by character.
pub fn eq_str(a: &str, b: &str) -> (r: bool)
    ensures
        r == (a@ == b@),
{
    let alen = a.unicode_len();
    let blen = b.unicode_len();
    if alen != blen {
        proof {
            assert(a@ != b@) by {
                assert(a@.len() != b@.len());
            }
        }
        return false;
    }
    let mut i: usize = 0;
    while i < alen
        invariant
            i <= alen,
            alen == a@.len(),
            alen == b@.len(),
            forall|j: int| 0 <= j < i ==> a@[j] == b@[j],
        decreases alen - i,
    {
        if a.get_char(i) != b.get_char(i) {
            return false;
        }
        i = i + 1;
    }
    proof {
        assert(a@ =~= b@);
    }
    true
}

/// A URI with any query string removed: the prefix before the first `?`.
pub open spec fn strip_query_spec(s: Seq<char>) -> Seq<char> {
    if exists|i: int| 0 <= i < s.len() && s[i] == '?' {
        let first = choose|i: int|
            0 <= i < s.len() && s[i] == '?' && (forall|j: int| 0 <= j < i ==> s[j] != '?');
        s.subrange(0, first)
    } else {
        s
    }
}

/// Strips the query string from a URI, if any.
pub fn strip_query(s: &str) -> (r: String)
    ensures
        r@ == strip_query_spec(s@),
{
    let len = s.unicode_len();
    let mut i: usize = 0;
    let mut found: bool = false;
    while i < len && !found
        invariant
            i <= len,
            len == s@.len(),
            forall|j: int| 0 <= j < i ==> s@[j] != '?',
            found ==> i < len && s@[i as int] == '?',
        decreases len - i + (if found { 0int } else { 1int }),
    {
        if s.get_char(i) == '?' {
            found = true;
        } else {
            i = i + 1;
        }
    }
    if found {
        let r = s.substring_char(0, i).to_owned();
        proof {
            let first = choose|k: int|
                0 <= k < s@.len() && s@[k] == '?' && (forall|j: int| 0 <= j < k ==> s@[j] != '?');
            assert(first == i as int);
        }
        r
    } else {
        let r = s.substring_char(0, len).to_owned();
        proof {
            assert(s@.subrange(0, len as int) =~= s@);
        }
        r
    }
}

/// Whether two URIs are equal once query strings are ignored.
pub open spec fn uris_match(a: Seq<char>, b: Seq<char>) -> bool {
    strip_query_spec(a) == strip_query_spec(b)
}

/// Compares two URIs, ignoring query strings.
pub fn uri_eq(a: &str, b: &str) -> (r: bool)
    ensures
        r == uris_match(a@, b@),
{
    let sa = strip_query(a);
    let sb = strip_query(b);
    sa == sb
}


/// Whether `p` is a prefix of `s`.
pub open spec fn has_prefix(s: Seq<char>, p: Seq<char>) -> bool {
    s.len() >= p.len() && s.subrange(0, p.len() as int) == p
}

/// Decides whether `p` is a prefix of `s`.
pub fn starts_with(s: &str, p: &str) -> (r: bool)
    ensures
        r == has_prefix(s@, p@),
{
    let slen = s.unicode_len();
    let plen = p.unicode_len();
    if slen < plen {
        return false;
    }
    let mut i: usize = 0;
    while i < plen
        invariant
            i <= plen,
            plen == p@.len(),
            slen == s@.len(),
            plen <= slen,
            forall|j: int| 0 <= j < i ==> s@[j] == p@[j],
        decreases plen - i,
    {
        if s.get_char(i) != p.get_char(i) {
            proof {
                assert(s@.subrange(0, p@.len() as int)[i as int] == s@[i as int]);
            }
            return false;
        }
        i = i + 1;
    }
    proof {
        assert(s@.subrange(0, p@.len() as int) =~= p@);
    }
    true
}

/// The characters of `s` after its first `n`: the tail once a tag prefix of
/// length `n` is removed.
pub fn str_after(s: &str, n: usize) -> (r: String)
    requires
        n <= s@.len(),
    ensures
        r@ == s@.subrange(n as int, s@.len() as int),
{
    let len = s.unicode_len();
    s.substring_char(n, len).to_owned()
}

/// Whether `c` is a decimal digit.
pub open spec fn is_digit(c: char) -> bool {
    '0' <= c && c <= '9'
}

/// The value of a decimal digit.
pub open spec fn digit_val(c: char) -> int {
    c as int - '0' as int
}

/// The value of the digits of `s` from `i` on, accumulated onto `acc`:
/// `None` if a character is not a digit or the value outgrows `u64`.
pub open spec fn parse_u64_rec(s: Seq<char>, i: int, acc: int) -> Option<u64>
    decreases s.len() - i,
{
    if i < 0 || i >= s.len() {
        Some(acc as u64)
    } else if !is_digit(s[i]) {
        None
    } else {
        let a2 = acc * 10 + digit_val(s[i]);
        if a2 > u64::MAX {
            None
        } else {
            parse_u64_rec(s, i + 1, a2)
        }
    }
}

/// The value of `s` read as a decimal `u64`: `None` when `s` is empty, holds
/// a non-digit, or overflows.
pub open spec fn parse_u64_spec(s: Seq<char>) -> Option<u64> {
    if s.len() == 0 {
        None
    } else {
        parse_u64_rec(s, 0, 0)
    }
}

fn parse_u64_from(s: &str, i: usize, acc: u64) -> (r: Option<u64>)
    requires
        i <= s@.len(),
    ensures
        r == parse_u64_rec(s@, i as int, acc as int),
    decreases s@.len() - i,
{
    if i == s.unicode_len() {
        return Some(acc);
    }
    let c = s.get_char(i);
    if c < '0' || c > '9' {
        return None;
    }
    let d: u64 = (c as u32 - 48) as u64;
    proof {
        assert(d == digit_val(s@[i as int]));
    }
    if acc > (u64::MAX - d) / 10 {
        proof {
            assert(acc * 10 + d > u64::MAX) by (nonlinear_arith)
                requires
                    acc > (u64::MAX - d) / 10,
                    d < 10,
            ;
        }
        return None;
    }
    proof {
        assert(acc * 10 + d <= u64::MAX) by (nonlinear_arith)
            requires
                acc <= (u64::MAX - d) / 10,
                0 <= d < 10,
                0 <= acc,
        ;
    }
    parse_u64_from(s, i + 1, acc * 10 + d)
}

/// Reads `s` as a decimal `u64`, exactly as `parse_u64_spec` describes.
pub fn parse_u64(s: &str) -> (r: Option<u64>)
    ensures
        r == parse_u64_spec(s@),
{
    if s.unicode_len() == 0 {
        None
    } else {
        parse_u64_from(s, 0, 0)
    }
}

} // verus!
