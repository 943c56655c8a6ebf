//! Playlist reader: distills an HLS media playlist into the one value the
//! retention decision needs, the least sequence number it still references.
//!
//! Parsing the playlist format itself is delegated to the `hls_m3u8`
//! crate; everything after that call — decoding each referenced URI with
//! the filename codec and taking the minimum — is verified here. A
//! playlist that parses but references no segments is an error, never a
//! licence to delete everything.

use crate::codec::spec_parse_name;
use crate::codec::parse_name;
use crate::guard::playlist_text_guarded;
use crate::guard::spec_text_guarded;
use vstd::prelude::*;

verus! {

/// Why a playlist yields no usable snapshot.
#[derive(Clone, Copy, Debug, PartialEq, Eq, Structural)]
pub enum ReadError {
    /// The playlist file could not be read at all.
    Unreadable,
    /// The text is not a valid HLS media playlist.
    Malformed,
    /// A referenced segment URI does not follow the naming convention.
    BadSegmentUri,
    /// The playlist parsed but references no segments.
    NoSegments,
}

/// The sequence number a playlist URI carries, if it parses.
pub open spec fn spec_uri_sequence(u: Seq<char>) -> Option<u32> {
    match spec_parse_name(u) {
        Ok(p) => Some(p.1),
        Err(_) => None,
    }
}

/// Whether every URI of the list follows the naming convention.
pub open spec fn all_uris_parse(uris: Seq<Seq<char>>) -> bool {
    forall|i: int| 0 <= i < uris.len() ==> spec_uri_sequence(#[trigger] uris[i]) is Some
}

/// The least sequence number among the URIs, all of which must parse.
pub open spec fn spec_min_sequence(uris: Seq<Seq<char>>) -> u32
    recommends
        uris.len() > 0,
        all_uris_parse(uris),
    decreases uris.len(),
{
    let last = match spec_uri_sequence(uris.last()) {
        Some(v) => v,
        None => 0,
    };
    if uris.len() <= 1 {
        last
    } else {
        let rest = spec_min_sequence(uris.drop_last());
        if last < rest {
            last
        } else {
            rest
        }
    }
}

/// What a playlist's URI list distills to: the minimum referenced
/// sequence number, or the error that forbids using the playlist.
pub open spec fn spec_min_result(uris: Seq<Seq<char>>) -> Result<u32, ReadError> {
    if uris.len() == 0 {
        Err(ReadError::NoSegments)
    } else if !all_uris_parse(uris) {
        Err(ReadError::BadSegmentUri)
    } else {
        Ok(spec_min_sequence(uris))
    }
}

/// Decodes every URI with the filename codec and returns the least
/// sequence number found; an empty list or an undecodable URI is an error.
pub fn min_sequence_of_uris(uris: &Vec<String>) -> (r: Result<u32, ReadError>)
    ensures
        r == spec_min_result(uris.deep_view()),
{
    let mut i: usize = 0;
    let mut best: Option<u32> = None;
    while i < uris.len()
        invariant
            i <= uris.len(),
            all_uris_parse(uris.deep_view().take(i as int)),
            i == 0 ==> best is None,
            i > 0 ==> best == Some(spec_min_sequence(uris.deep_view().take(i as int))),
        decreases uris.len() - i,
    {
        proof {
            assert(uris.deep_view()[i as int] == uris@[i as int]@);
        }
        match parse_name(uris[i].as_str()) {
            Err(_) => {
                assert(spec_uri_sequence(uris.deep_view()[i as int]) is None);
                return Err(ReadError::BadSegmentUri);
            },
            Ok(id) => {
                proof {
                    assert(uris.deep_view().take(i + 1).drop_last() =~= uris.deep_view().take(
                        i as int,
                    ));
                    assert(uris.deep_view().take(i + 1).last() == uris.deep_view()[i as int]);
                }
                best = Some(
                    match best {
                        None => id.sequence,
                        Some(b) => if id.sequence < b {
                            id.sequence
                        } else {
                            b
                        },
                    },
                );
            },
        }
        i += 1;
    }
    proof {
        assert(uris.deep_view().take(i as int) =~= uris.deep_view());
    }
    match best {
        None => Err(ReadError::NoSegments),
        Some(m) => Ok(m),
    }
}

/// `hls_m3u8`'s error type, carried through unopened.
#[verifier::external_type_specification]
#[verifier::external_body]
pub struct ExHlsError(hls_m3u8::Error);

/// The segment URIs of the HLS media playlist that `text` holds, in
/// playlist order, or `None` where the text is not a valid media playlist.
pub uninterp spec fn playlist_segment_uris(text: Seq<char>) -> Option<Seq<Seq<char>>>;

/// Relies on `hls_m3u8::MediaPlaylist::from_str`: parsing is a pure
/// function of the text, and each parsed media segment hands back the URI
/// it was declared with, in playlist order. The parser panics (rather
/// than erring) on a few numeric fields — `#EXTINF:` and `DURATION=`
/// values fed to `Duration::from_secs_f64`, byte-range and
/// media-sequence values summed as `usize` — so text is admitted only
/// after the guard has bounded every such field.
#[verifier::external_body]
fn parse_playlist_uris(text: &str) -> (r: Result<Vec<String>, hls_m3u8::Error>)
    requires
        spec_text_guarded(text@),
    ensures
        r matches Ok(v) ==> playlist_segment_uris(text@) == Some(v.deep_view()),
        r is Err ==> playlist_segment_uris(text@) is None,
{
    let parsed: Result<hls_m3u8::MediaPlaylist, hls_m3u8::Error> = text.parse();
    match parsed {
        Ok(p) => Ok(p.segments.iter().map(|(_, seg)| seg.uri().to_string()).collect()),
        Err(e) => Err(e),
    }
}

/// Reads a playlist's text into the least referenced sequence number, or
/// the reason the playlist cannot be trusted: a numeric field the parser
/// cannot take safely, not a valid media playlist, a referenced URI
/// outside the naming convention, or no segments at all.
pub fn read_playlist(text: &str) -> (r: Result<u32, ReadError>)
    ensures
        !spec_text_guarded(text@) ==> r == Err::<u32, ReadError>(ReadError::Malformed),
        spec_text_guarded(text@) && playlist_segment_uris(text@) is None ==> r == Err::<
            u32,
            ReadError,
        >(ReadError::Malformed),
        spec_text_guarded(text@) ==> (playlist_segment_uris(text@) matches Some(us) ==> r
            == spec_min_result(us)),
{
    if !playlist_text_guarded(text) {
        return Err(ReadError::Malformed);
    }
    match parse_playlist_uris(text) {
        Err(_) => Err(ReadError::Malformed),
        Ok(uris) => min_sequence_of_uris(&uris),
    }
}

} // verus!
