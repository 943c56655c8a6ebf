//! Pre-filter for playlist text handed to the outside parser.
//!
//! The HLS parser this crate delegates to panics, rather than erring, on
//! a few numeric fields: an `#EXTINF:` or `DURATION=`/`PLANNED-DURATION=`
//! value that parses as a negative, non-finite or astronomically large
//! float (it is fed to `Duration::from_secs_f64`), a `#EXT-X-BYTERANGE:`
//! or `BYTERANGE=` pair whose offsets overflow a `usize` sum, and a
//! `#EXT-X-MEDIA-SEQUENCE:` value that overflows when segment indices
//! are added to it. A malformed or mid-rewrite playlist must yield an
//! error verdict, never a crash, so this module scans the text first and
//! accepts it only when every such field is a plain bounded decimal.
//!
//! The scan is deliberately coarser than the parser: it looks at every
//! occurrence of the dangerous markers anywhere in the text, not only
//! where the parser would recognise a tag or an attribute key, and it
//! treats any non-ASCII character as possible whitespace between an
//! attribute key and its `=`. Whenever the parser would reach one of the
//! panicking conversions, the value it converts is one this scan has
//! checked; a text the scan rejects is reported as malformed, which at
//! worst keeps a segment alive (the fail-safe direction).

use crate::codec::all_digits;
use crate::codec::last_index_of;
use crate::codec::last_index_of_char;
use crate::codec::lemma_last_index_of;
use vstd::prelude::*;

verus! {

/// Whether `lit` occurs in `s` starting at position `p`.
pub open spec fn matches_at(s: Seq<char>, p: int, lit: Seq<char>) -> bool {
    0 <= p && p + lit.len() <= s.len() && s.subrange(p, p + lit.len()) == lit
}

/// Whether `c` ends a scanned value: a separating comma or a line break.
pub open spec fn is_value_end(c: char) -> bool {
    c == ',' || c == '\n' || c == '\r'
}

/// The first position at or after `q` holding a value-ending character,
/// or the end of the text.
pub open spec fn value_end_from(s: Seq<char>, q: int) -> int
    decreases s.len() - q,
{
    if q < 0 || q >= s.len() {
        s.len() as int
    } else if is_value_end(s[q]) {
        q
    } else {
        value_end_from(s, q + 1)
    }
}

/// The value starting at `q`: everything up to the next comma or line
/// break.
pub open spec fn value_at(s: Seq<char>, q: int) -> Seq<char> {
    s.subrange(q, value_end_from(s, q))
}

/// Whether `c` could separate an attribute key from its `=`: ASCII
/// whitespace, or any non-ASCII character (conservatively taken for
/// whitespace).
pub open spec fn is_filler(c: char) -> bool {
    c as int == 9 || c as int == 10 || c as int == 11 || c as int == 12 || c as int == 13
        || c as int == 32 || c as int > 127
}

/// The first position at or after `q` holding a non-filler character, or
/// the end of the text.
pub open spec fn skip_filler_from(s: Seq<char>, q: int) -> int
    decreases s.len() - q,
{
    if q < 0 || q >= s.len() {
        s.len() as int
    } else if is_filler(s[q]) {
        skip_filler_from(s, q + 1)
    } else {
        q
    }
}

/// A plain non-negative decimal: one to twelve digits, optionally
/// followed by `.` and at most nine further digits. Parsed as a float
/// it is finite, non-negative and far below any overflowing magnitude.
pub open spec fn spec_plain_decimal(v: Seq<char>) -> bool {
    let j = last_index_of(v, '.');
    if j < 0 {
        1 <= v.len() <= 12 && all_digits(v)
    } else {
        1 <= j <= 12 && v.len() - (j + 1) <= 9 && all_digits(v.take(j)) && all_digits(
            v.skip(j + 1),
        )
    }
}

/// A plain bounded integer: one to fifteen digits, so that any two such
/// values sum well below `usize::MAX`.
pub open spec fn spec_plain_int(v: Seq<char>) -> bool {
    1 <= v.len() <= 15 && all_digits(v)
}

/// A byte-range value: `<length>` or `<length>@<start>`, both plain
/// bounded integers.
pub open spec fn spec_byte_range_value(v: Seq<char>) -> bool {
    let j = last_index_of(v, '@');
    if j < 0 {
        spec_plain_int(v)
    } else {
        spec_plain_int(v.take(j)) && spec_plain_int(v.skip(j + 1))
    }
}

/// A byte-range value, optionally wrapped in one pair of double quotes
/// (the form an attribute list carries).
pub open spec fn spec_quoted_byte_range(v: Seq<char>) -> bool {
    if v.len() >= 2 && v[0] == '"' && v[v.len() - 1] == '"' {
        spec_byte_range_value(v.subrange(1, v.len() - 1))
    } else {
        spec_byte_range_value(v)
    }
}

/// Where the characters after a `DURATION` key reach an `=` (through
/// filler), the value that follows must be a plain decimal.
pub open spec fn duration_key_ok(s: Seq<char>, q: int) -> bool {
    let e = skip_filler_from(s, q);
    e < s.len() && s[e] == '=' ==> spec_plain_decimal(value_at(s, e + 1))
}

/// Where the characters after a `BYTERANGE` key reach an `=` (through
/// filler), the value that follows must be a (possibly quoted)
/// byte-range value.
pub open spec fn byterange_key_ok(s: Seq<char>, q: int) -> bool {
    let e = skip_filler_from(s, q);
    e < s.len() && s[e] == '=' ==> spec_quoted_byte_range(value_at(s, e + 1))
}

/// Whether playlist text is safe to hand to the outside parser: every
/// numeric field the parser converts with a panicking conversion is a
/// plain bounded decimal.
pub open spec fn spec_text_guarded(s: Seq<char>) -> bool {
    &&& (forall|p: int|
        #[trigger] matches_at(s, p, "#EXTINF:"@) ==> spec_plain_decimal(value_at(s, p + 8)))
    &&& (forall|p: int|
        #[trigger] matches_at(s, p, "#EXT-X-BYTERANGE:"@) ==> spec_byte_range_value(
            value_at(s, p + 17),
        ))
    &&& (forall|p: int|
        #[trigger] matches_at(s, p, "#EXT-X-MEDIA-SEQUENCE:"@) ==> spec_plain_int(
            value_at(s, p + 22),
        ))
    &&& (forall|p: int| #[trigger] matches_at(s, p, "DURATION"@) ==> duration_key_ok(s, p + 8))
    &&& (forall|p: int| #[trigger] matches_at(s, p, "BYTERANGE"@) ==> byterange_key_ok(s, p + 9))
}

/// Whether `lit` occurs in `s` at position `p`.
fn matches_lit(s: &str, p: usize, lit: &str) -> (r: bool)
    requires
        p <= s@.len(),
    ensures
        r == matches_at(s@, p as int, lit@),
{
    let n = s.unicode_len();
    let m = lit.unicode_len();
    if m > n - p {
        return false;
    }
    let mut i: usize = 0;
    while i < m
        invariant
            i <= m,
            m == lit@.len(),
            n == s@.len(),
            p + m <= n,
            forall|k: int| 0 <= k < i ==> s@[p + k] == lit@[k],
        decreases m - i,
    {
        if s.get_char(p + i) != lit.get_char(i) {
            proof {
                if s@.subrange(p as int, p + m) == lit@ {
                    assert(s@.subrange(p as int, p + m)[i as int] == s@[p + i]);
                }
            }
            return false;
        }
        i += 1;
    }
    proof {
        assert(s@.subrange(p as int, p + m) =~= lit@);
    }
    true
}

/// Position of the next comma or line break at or after `q`, or the end.
fn find_value_end(s: &str, q: usize) -> (e: usize)
    requires
        q <= s@.len(),
    ensures
        e == value_end_from(s@, q as int),
        q <= e <= s@.len(),
{
    let n = s.unicode_len();
    let mut i: usize = q;
    while i < n
        invariant
            q <= i <= n,
            n == s@.len(),
            value_end_from(s@, q as int) == value_end_from(s@, i as int),
        decreases n - i,
    {
        let c = s.get_char(i);
        if c == ',' || c == '\n' || c == '\r' {
            return i;
        }
        i += 1;
    }
    i
}

/// Position of the next non-filler character at or after `q`, or the end.
fn skip_filler(s: &str, q: usize) -> (e: usize)
    requires
        q <= s@.len(),
    ensures
        e == skip_filler_from(s@, q as int),
        q <= e <= s@.len(),
{
    let n = s.unicode_len();
    let mut i: usize = q;
    while i < n
        invariant
            q <= i <= n,
            n == s@.len(),
            skip_filler_from(s@, q as int) == skip_filler_from(s@, i as int),
        decreases n - i,
    {
        let c = s.get_char(i);
        let cv = c as u32;
        if !(cv == 9 || cv == 10 || cv == 11 || cv == 12 || cv == 13 || cv == 32 || cv > 127) {
            return i;
        }
        i += 1;
    }
    i
}

/// Whether every character of `v` in `[from, to)` is a decimal digit.
fn all_digits_range(v: &str, from: usize, to: usize) -> (r: bool)
    requires
        from <= to <= v@.len(),
    ensures
        r == all_digits(v@.subrange(from as int, to as int)),
{
    let mut i: usize = from;
    while i < to
        invariant
            from <= i <= to <= v@.len(),
            forall|k: int| from <= k < i ==> crate::codec::is_digit(#[trigger] v@[k]),
        decreases to - i,
    {
        let cv = v.get_char(i) as u32;
        if cv < 48 || cv > 57 {
            proof {
                assert(v@.subrange(from as int, to as int)[i - from] == v@[i as int]);
            }
            return false;
        }
        i += 1;
    }
    proof {
        assert(forall|k: int|
            0 <= k < to - from ==> #[trigger] v@.subrange(from as int, to as int)[k] == v@[
                from + k
            ]);
    }
    true
}

/// Whether `v` is a plain bounded decimal.
fn check_decimal(v: &str) -> (r: bool)
    ensures
        r == spec_plain_decimal(v@),
{
    proof {
        lemma_last_index_of(v@, '.');
    }
    let n = v.unicode_len();
    match last_index_of_char(v, '.') {
        None => {
            proof {
                assert(v@.subrange(0, n as int) =~= v@);
            }
            1 <= n && n <= 12 && all_digits_range(v, 0, n)
        },
        Some(j) => {
            proof {
                assert(v@.subrange(0, j as int) =~= v@.take(j as int));
                assert(v@.subrange(j + 1, n as int) =~= v@.skip(j + 1));
            }
            1 <= j && j <= 12 && n - (j + 1) <= 9 && all_digits_range(v, 0, j)
                && all_digits_range(v, j + 1, n)
        },
    }
}

/// Whether `v` is a plain bounded integer.
fn check_int(v: &str) -> (r: bool)
    ensures
        r == spec_plain_int(v@),
{
    let n = v.unicode_len();
    proof {
        assert(v@.subrange(0, n as int) =~= v@);
    }
    1 <= n && n <= 15 && all_digits_range(v, 0, n)
}

/// Whether `v` is a byte-range value.
fn check_byte_range(v: &str) -> (r: bool)
    ensures
        r == spec_byte_range_value(v@),
{
    proof {
        lemma_last_index_of(v@, '@');
    }
    let n = v.unicode_len();
    match last_index_of_char(v, '@') {
        None => check_int(v),
        Some(j) => {
            let head = v.substring_char(0, j);
            let tail = v.substring_char(j + 1, n);
            proof {
                assert(head@ =~= v@.take(j as int));
                assert(tail@ =~= v@.skip(j + 1));
            }
            check_int(head) && check_int(tail)
        },
    }
}

/// Whether `v` is a byte-range value, possibly in one pair of quotes.
fn check_quoted_byte_range(v: &str) -> (r: bool)
    ensures
        r == spec_quoted_byte_range(v@),
{
    let n = v.unicode_len();
    if n >= 2 && v.get_char(0) == '"' && v.get_char(n - 1) == '"' {
        let inner = v.substring_char(1, n - 1);
        check_byte_range(inner)
    } else {
        check_byte_range(v)
    }
}

/// Scans playlist text for the numeric fields the outside parser
/// converts with panicking conversions, and accepts the text only when
/// every one of them is a plain bounded decimal. A rejected text is
/// treated as malformed by the reader: at worst a segment is kept.
pub fn playlist_text_guarded(text: &str) -> (r: bool)
    ensures
        r == spec_text_guarded(text@),
{
    let n = text.unicode_len();
    let mut p: usize = 0;
    while p < n
        invariant
            p <= n,
            n == text@.len(),
            forall|q: int|
                0 <= q < p && #[trigger] matches_at(text@, q, "#EXTINF:"@)
                    ==> spec_plain_decimal(value_at(text@, q + 8)),
            forall|q: int|
                0 <= q < p && #[trigger] matches_at(text@, q, "#EXT-X-BYTERANGE:"@)
                    ==> spec_byte_range_value(value_at(text@, q + 17)),
            forall|q: int|
                0 <= q < p && #[trigger] matches_at(text@, q, "#EXT-X-MEDIA-SEQUENCE:"@)
                    ==> spec_plain_int(value_at(text@, q + 22)),
            forall|q: int|
                0 <= q < p && #[trigger] matches_at(text@, q, "DURATION"@) ==> duration_key_ok(
                    text@,
                    q + 8,
                ),
            forall|q: int|
                0 <= q < p && #[trigger] matches_at(text@, q, "BYTERANGE"@) ==> byterange_key_ok(
                    text@,
                    q + 9,
                ),
        decreases n - p,
    {
        proof {
            reveal_strlit("#EXTINF:");
            reveal_strlit("#EXT-X-BYTERANGE:");
            reveal_strlit("#EXT-X-MEDIA-SEQUENCE:");
            reveal_strlit("DURATION");
            reveal_strlit("BYTERANGE");
        }
        if matches_lit(text, p, "#EXTINF:") {
            let e = find_value_end(text, p + 8);
            let v = text.substring_char(p + 8, e);
            if !check_decimal(v) {
                assert(!spec_plain_decimal(value_at(text@, p + 8)));
                return false;
            }
        }
        if matches_lit(text, p, "#EXT-X-BYTERANGE:") {
            let e = find_value_end(text, p + 17);
            let v = text.substring_char(p + 17, e);
            if !check_byte_range(v) {
                assert(!spec_byte_range_value(value_at(text@, p + 17)));
                return false;
            }
        }
        if matches_lit(text, p, "#EXT-X-MEDIA-SEQUENCE:") {
            let e = find_value_end(text, p + 22);
            let v = text.substring_char(p + 22, e);
            if !check_int(v) {
                assert(!spec_plain_int(value_at(text@, p + 22)));
                return false;
            }
        }
        if matches_lit(text, p, "DURATION") {
            let e = skip_filler(text, p + 8);
            if e < n && text.get_char(e) == '=' {
                let w = find_value_end(text, e + 1);
                let v = text.substring_char(e + 1, w);
                if !check_decimal(v) {
                    assert(!duration_key_ok(text@, p + 8));
                    return false;
                }
            }
        }
        if matches_lit(text, p, "BYTERANGE") {
            let e = skip_filler(text, p + 9);
            if e < n && text.get_char(e) == '=' {
                let w = find_value_end(text, e + 1);
                let v = text.substring_char(e + 1, w);
                if !check_quoted_byte_range(v) {
                    assert(!byterange_key_ok(text@, p + 9));
                    return false;
                }
            }
        }
        p += 1;
    }
    proof {
        reveal_strlit("#EXTINF:");
        reveal_strlit("#EXT-X-BYTERANGE:");
        reveal_strlit("#EXT-X-MEDIA-SEQUENCE:");
        reveal_strlit("DURATION");
        reveal_strlit("BYTERANGE");
    }
    true
}

} // verus!
