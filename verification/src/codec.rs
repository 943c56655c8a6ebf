//! Filename codec for HLS segment names.
//!
//! Segments follow the naming convention `<stream_base>-<sequence>.ts`,
//! where `sequence` is a non-negative decimal integer and the split is on
//! the *last* `-` of the stem, so a stream base may itself contain
//! hyphens (`cam-01-000123` names stream `cam-01`, sequence `123`).
//! The paired playlist for a stream is named `<stream_base>.m3u8`.

use vstd::prelude::*;

verus! {

/// Why a segment name failed to parse.
#[derive(Clone, Copy, Debug, PartialEq, Eq, Structural)]
pub enum ParseError {
    /// The stem holds no `-`, so no sequence suffix can be split off.
    NoSeparator,
    /// The stem starts with its last `-`: the stream base would be empty.
    EmptyBase,
    /// The part after the last `-` is not a decimal number fitting `u32`.
    BadSequence,
}

/// Identity of one segment file, as encoded in its name.
#[derive(Clone, Debug)]
pub struct SegmentId {
    /// The name shared by this segment's stream and its playlist.
    pub stream_base: String,
    /// Position of this segment in its stream; strictly increasing per stream.
    pub sequence: u32,
}

/// Whether `c` is an ASCII decimal digit.
pub open spec fn is_digit(c: char) -> bool {
    48 <= c as int <= 57
}

/// Whether every character of `s` is an ASCII decimal digit.
pub open spec fn all_digits(s: Seq<char>) -> bool {
    forall|i: int| 0 <= i < s.len() ==> is_digit(#[trigger] s[i])
}

/// The value of a string of decimal digits, most significant first.
pub open spec fn digits_val(s: Seq<char>) -> int
    decreases s.len(),
{
    if s.len() == 0 {
        0
    } else {
        digits_val(s.drop_last()) * 10 + (s.last() as int - 48)
    }
}

/// The sequence suffix `s` parses to `Some(v)` exactly when it is a
/// non-empty run of decimal digits whose value fits in a `u32`.
pub open spec fn spec_parse_u32(s: Seq<char>) -> Option<u32> {
    if s.len() > 0 && all_digits(s) && digits_val(s) <= u32::MAX {
        Some(digits_val(s) as u32)
    } else {
        None
    }
}

/// The value of a digit string is never negative.
proof fn lemma_digits_val_nonneg(s: Seq<char>)
    requires
        all_digits(s),
    ensures
        digits_val(s) >= 0,
    decreases s.len(),
{
    if s.len() > 0 {
        assert(all_digits(s.drop_last()));
        lemma_digits_val_nonneg(s.drop_last());
    }
}

/// Appending digits never decreases the value of the prefix read so far.
proof fn lemma_digits_val_prefix_le(s: Seq<char>, i: int)
    requires
        0 <= i <= s.len(),
        all_digits(s),
    ensures
        digits_val(s.take(i)) <= digits_val(s),
    decreases s.len() - i,
{
    if i < s.len() {
        assert(s.take(i + 1).drop_last() =~= s.take(i));
        assert(digits_val(s.take(i + 1)) == digits_val(s.take(i)) * 10 + (s[i] as int - 48));
        assert(all_digits(s.take(i)));
        lemma_digits_val_nonneg(s.take(i));
        lemma_digits_val_prefix_le(s, i + 1);
    } else {
        assert(s.take(i) =~= s);
    }
}

/// Parses a non-empty run of decimal digits as a `u32`.
pub fn parse_u32_digits(s: &str) -> (r: Option<u32>)
    ensures
        r == spec_parse_u32(s@),
{
    let n = s.unicode_len();
    if n == 0 {
        return None;
    }
    let mut acc: u32 = 0;
    let mut i: usize = 0;
    while i < n
        invariant
            0 <= i <= n,
            n == s@.len(),
            all_digits(s@.take(i as int)),
            acc == digits_val(s@.take(i as int)),
        decreases n - i,
    {
        let c = s.get_char(i);
        let cv = c as u32;
        if cv < 48 || cv > 57 {
            assert(!is_digit(s@[i as int]));
            return None;
        }
        let d = cv - 48;
        if acc > (u32::MAX - d) / 10 {
            proof {
                assert(s@.take(i + 1).drop_last() =~= s@.take(i as int));
                assert(digits_val(s@.take(i + 1)) == acc * 10 + d);
                assert(acc * 10 + d > u32::MAX);
                if all_digits(s@) {
                    lemma_digits_val_prefix_le(s@, i + 1);
                }
            }
            return None;
        }
        proof {
            assert(s@.take(i + 1).drop_last() =~= s@.take(i as int));
        }
        acc = acc * 10 + d;
        i += 1;
    }
    proof {
        assert(s@.take(n as int) =~= s@);
    }
    Some(acc)
}

/// Index of the last occurrence of `c` in `s`, or `-1` if `c` is absent.
pub open spec fn last_index_of(s: Seq<char>, c: char) -> int
    decreases s.len(),
{
    if s.len() == 0 {
        -1
    } else if s.last() == c {
        s.len() - 1
    } else {
        last_index_of(s.drop_last(), c)
    }
}

/// `last_index_of` points at a `c` (when not `-1`) and nothing after it is a `c`.
pub proof fn lemma_last_index_of(s: Seq<char>, c: char)
    ensures
        -1 <= last_index_of(s, c) < s.len(),
        last_index_of(s, c) >= 0 ==> s[last_index_of(s, c)] == c,
        forall|k: int| last_index_of(s, c) < k < s.len() ==> s[k] != c,
    decreases s.len(),
{
    if s.len() > 0 && s.last() != c {
        lemma_last_index_of(s.drop_last(), c);
        assert(forall|k: int| 0 <= k < s.len() - 1 ==> s.drop_last()[k] == s[k]);
    }
}

/// Position of the last occurrence of `c` in `s`, if any.
pub fn last_index_of_char(s: &str, c: char) -> (r: Option<usize>)
    ensures
        r matches Some(j) ==> last_index_of(s@, c) == j,
        r is None ==> last_index_of(s@, c) == -1,
{
    proof {
        lemma_last_index_of(s@, c);
    }
    let n = s.unicode_len();
    let mut i = n;
    while i > 0
        invariant
            i <= n,
            n == s@.len(),
            forall|k: int| i <= k < n ==> s@[k] != c,
        decreases i,
    {
        i -= 1;
        if s.get_char(i) == c {
            proof {
                lemma_last_index_of(s@, c);
                let li = last_index_of(s@, c);
                if li < i {
                    assert(s@[i as int] != c);
                }
                if li > i {
                    assert(s@[li] == c);
                    assert(s@[li] != c);
                }
            }
            return Some(i);
        }
    }
    None
}

/// The part of a URI or path after its last `/`.
pub open spec fn spec_basename(s: Seq<char>) -> Seq<char> {
    s.skip(last_index_of(s, '/') + 1)
}

/// The stem of a file name: everything before the final `.`, unless the
/// name has no `.` past its first character, in which case the whole name.
pub open spec fn spec_stem(name: Seq<char>) -> Seq<char> {
    let j = last_index_of(name, '.');
    if j > 0 {
        name.take(j)
    } else {
        name
    }
}

/// The stem of the last path component of `u`.
pub open spec fn spec_stem_of(u: Seq<char>) -> Seq<char> {
    spec_stem(spec_basename(u))
}

/// Extracts the stem of the last path component of `name`.
pub fn stem_of(name: &str) -> (r: &str)
    ensures
        r@ == spec_stem_of(name@),
{
    proof {
        lemma_last_index_of(name@, '/');
    }
    let n = name.unicode_len();
    let start = match last_index_of_char(name, '/') {
        Some(j) => j + 1,
        None => 0,
    };
    let base = name.substring_char(start, n);
    proof {
        assert(base@ =~= spec_basename(name@));
    }
    proof {
        lemma_last_index_of(base@, '.');
    }
    match last_index_of_char(base, '.') {
        Some(j) => {
            if j > 0 {
                base.substring_char(0, j)
            } else {
                base
            }
        },
        None => base,
    }
}

/// What a stem parses to: the stream base before the last `-` and the
/// decimal sequence number after it, or the reason neither exists.
pub open spec fn spec_parse_stem(s: Seq<char>) -> Result<(Seq<char>, u32), ParseError> {
    let j = last_index_of(s, '-');
    if j < 0 {
        Err(ParseError::NoSeparator)
    } else if j == 0 {
        Err(ParseError::EmptyBase)
    } else {
        match spec_parse_u32(s.skip(j + 1)) {
            Some(v) => Ok((s.take(j), v)),
            None => Err(ParseError::BadSequence),
        }
    }
}

/// What a segment file name or playlist URI parses to: its stem's parse.
pub open spec fn spec_parse_name(s: Seq<char>) -> Result<(Seq<char>, u32), ParseError> {
    spec_parse_stem(spec_stem_of(s))
}

/// Splits a stem on its last `-` into stream base and sequence number.
pub fn parse_stem(stem: &str) -> (r: Result<SegmentId, ParseError>)
    ensures
        r matches Ok(id) ==> spec_parse_stem(stem@) == Ok::<_, ParseError>(
            (id.stream_base@, id.sequence),
        ),
        r matches Err(e) ==> spec_parse_stem(stem@) == Err::<(Seq<char>, u32), _>(e),
{
    proof {
        lemma_last_index_of(stem@, '-');
    }
    match last_index_of_char(stem, '-') {
        None => Err(ParseError::NoSeparator),
        Some(j) => {
            if j == 0 {
                Err(ParseError::EmptyBase)
            } else {
                let n = stem.unicode_len();
                let digits = stem.substring_char(j + 1, n);
                proof {
                    assert(digits@ =~= stem@.skip(j + 1));
                }
                match parse_u32_digits(digits) {
                    None => Err(ParseError::BadSequence),
                    Some(v) => {
                        let base = String::from_str(stem.substring_char(0, j));
                        proof {
                            assert(base@ =~= stem@.take(j as int));
                        }
                        Ok(SegmentId { stream_base: base, sequence: v })
                    },
                }
            }
        },
    }
}

/// Parses a segment file name or playlist URI: the stem of its last path
/// component, split on the last `-` into stream base and sequence number.
pub fn parse_name(name: &str) -> (r: Result<SegmentId, ParseError>)
    ensures
        r matches Ok(id) ==> spec_parse_name(name@) == Ok::<_, ParseError>(
            (id.stream_base@, id.sequence),
        ),
        r matches Err(e) ==> spec_parse_name(name@) == Err::<(Seq<char>, u32), _>(e),
{
    let stem = stem_of(name);
    parse_stem(stem)
}

/// The playlist file name paired with a stream base: `<stream_base>.m3u8`.
pub fn playlist_filename(stream_base: &str) -> (r: String)
    ensures
        r@ == stream_base@ + ".m3u8"@,
{
    let s = String::from_str(stream_base);
    s.concat(".m3u8")
}

/// Whether two strings hold the same characters.
pub fn str_eq(a: &str, b: &str) -> (r: bool)
    ensures
        r == (a@ == b@),
{
    let n = a.unicode_len();
    if n != b.unicode_len() {
        return false;
    }
    let mut i: usize = 0;
    while i < n
        invariant
            i <= n,
            n == a@.len() == b@.len(),
            forall|k: int| 0 <= k < i ==> a@[k] == b@[k],
        decreases n - i,
    {
        if a.get_char(i) != b.get_char(i) {
            return false;
        }
        i += 1;
    }
    proof {
        assert(a@ =~= b@);
    }
    true
}

} // verus!
