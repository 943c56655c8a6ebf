//! Retention evaluator: the keep/delete decision for one segment.
//!
//! Two independent criteria apply. Where the stream's playlist could be
//! read, a segment is deleted exactly when its sequence number is below
//! the least sequence the playlist still references: sequence numbers
//! grow monotonically, so such a segment is outside the serving window
//! and unreachable through the playlist. Where no playlist file exists,
//! a segment is deleted exactly when more than thirty minutes have
//! passed since it was last accessed. Every failure — unreadable or
//! malformed playlist, unreadable file metadata — yields `Undetermined`,
//! which the caller treats as keep: cleanup never destroys a segment it
//! cannot prove stale.

use crate::codec::parse_name;
use crate::codec::spec_parse_name;
use crate::codec::str_eq;
use crate::guard::spec_text_guarded;
use crate::playlist::ReadError;
use crate::playlist::playlist_segment_uris;
use crate::playlist::read_playlist;
use crate::playlist::spec_min_result;
use vstd::prelude::*;

verus! {

/// How long a segment without a playlist may go unaccessed before it is
/// considered abandoned, in seconds.
pub const STALE_AGE_SECS: u64 = 1800;

/// The fate of one candidate segment for one cycle.
#[derive(Clone, Copy, Debug, PartialEq, Eq, Structural)]
pub enum Verdict {
    /// The segment is still (or may still be) served: leave it alone.
    Keep,
    /// The segment is provably stale: the caller should remove the file.
    Delete,
    /// Its state could not be determined: fail safe, leave it alone.
    Undetermined,
}

/// A point in time, as seconds and subsecond nanoseconds since some
/// fixed epoch (the same epoch for every timestamp compared).
#[derive(Clone, Copy, Debug, PartialEq, Eq, Structural)]
pub struct Timestamp {
    pub secs: u64,
    pub nanos: u32,
}

impl Timestamp {
    /// A timestamp is well formed when its nanosecond part is a proper
    /// fraction of a second.
    pub open spec fn wf(self) -> bool {
        self.nanos < 1_000_000_000
    }

    /// The whole timestamp in nanoseconds.
    pub open spec fn as_nanos(self) -> int {
        self.secs * 1_000_000_000 + self.nanos
    }
}

/// Whether a segment last accessed at `access` counts as abandoned at
/// `now`: strictly more than `STALE_AGE_SECS` seconds have passed.
pub open spec fn spec_is_stale(now: Timestamp, access: Timestamp) -> bool {
    now.as_nanos() - access.as_nanos() > STALE_AGE_SECS * 1_000_000_000
}

/// The verdict for a segment with sequence number `sequence`, given what
/// is known of its stream's playlist and of its own last access time.
///
/// `playlist` is `None` where no playlist file exists for the stream,
/// `Some(Ok(m))` where one was read down to its least referenced
/// sequence number `m`, and `Some(Err(_))` where reading it failed.
/// `access` is the segment's last access time, `None` where the file's
/// metadata could not be read; it is consulted only when no playlist
/// exists.
pub open spec fn spec_evaluate(
    sequence: u32,
    playlist: Option<Result<u32, ReadError>>,
    now: Timestamp,
    access: Option<Timestamp>,
) -> Verdict {
    match playlist {
        Some(Ok(min_referenced)) => if sequence < min_referenced {
            Verdict::Delete
        } else {
            Verdict::Keep
        },
        Some(Err(_)) => Verdict::Undetermined,
        None => match access {
            None => Verdict::Undetermined,
            Some(access) => if spec_is_stale(now, access) {
                Verdict::Delete
            } else {
                Verdict::Keep
            },
        },
    }
}

/// Decides the fate of one segment. Pure: the verdict is a function of
/// the arguments alone, so re-evaluating unchanged inputs always returns
/// the same verdict.
pub fn evaluate(
    sequence: u32,
    playlist: Option<Result<u32, ReadError>>,
    now: Timestamp,
    access: Option<Timestamp>,
) -> (r: Verdict)
    requires
        now.wf(),
        access matches Some(a) ==> a.wf(),
    ensures
        r == spec_evaluate(sequence, playlist, now, access),
{
    match playlist {
        Some(Ok(min_referenced)) => {
            if sequence < min_referenced {
                Verdict::Delete
            } else {
                Verdict::Keep
            }
        },
        Some(Err(_)) => Verdict::Undetermined,
        None => {
            match access {
                None => Verdict::Undetermined,
                Some(access) => {
                    if access.secs > now.secs {
                        Verdict::Keep
                    } else {
                        let elapsed = now.secs - access.secs;
                        if elapsed > STALE_AGE_SECS || (elapsed == STALE_AGE_SECS && now.nanos
                            > access.nanos) {
                            Verdict::Delete
                        } else {
                            Verdict::Keep
                        }
                    }
                },
            }
        },
    }
}

/// What the caller found when looking for the stream's playlist file.
pub enum PlaylistText<'a> {
    /// No playlist file exists for the stream.
    Missing,
    /// A playlist file exists but could not be read.
    Unreadable,
    /// What the playlist file holds.
    Text(&'a str),
}

/// The verdict for one candidate file: `Undetermined` where its name
/// does not follow the naming convention or its playlist cannot be used,
/// and otherwise the verdict of `spec_evaluate` under what the playlist
/// text distills to (or, with no playlist, under the access time).
pub open spec fn spec_candidate_verdict(
    name: Seq<char>,
    playlist: PlaylistText,
    now: Timestamp,
    access: Option<Timestamp>,
) -> Verdict {
    match spec_parse_name(name) {
        Err(_) => Verdict::Undetermined,
        Ok(parsed) => match playlist {
            PlaylistText::Missing => spec_evaluate(parsed.1, None, now, access),
            PlaylistText::Unreadable => Verdict::Undetermined,
            PlaylistText::Text(text) => if !spec_text_guarded(text@) {
                Verdict::Undetermined
            } else {
                match playlist_segment_uris(text@) {
                    None => Verdict::Undetermined,
                    Some(uris) => spec_evaluate(parsed.1, Some(spec_min_result(uris)), now, access),
                }
            },
        },
    }
}

/// Decides the fate of one candidate file in a single call: parses its
/// name, distills its playlist text where one was found, and evaluates.
/// A file whose name fails to parse is `Undetermined`, never deleted.
pub fn evaluate_candidate(
    name: &str,
    playlist: PlaylistText,
    now: Timestamp,
    access: Option<Timestamp>,
) -> (r: Verdict)
    requires
        now.wf(),
        access matches Some(a) ==> a.wf(),
    ensures
        r == spec_candidate_verdict(name@, playlist, now, access),
{
    match parse_name(name) {
        Err(_) => Verdict::Undetermined,
        Ok(id) => match playlist {
            PlaylistText::Missing => evaluate(id.sequence, None, now, access),
            PlaylistText::Unreadable => Verdict::Undetermined,
            PlaylistText::Text(text) => {
                let distilled = read_playlist(text);
                evaluate(id.sequence, Some(distilled), now, access)
            },
        },
    }
}

/// Whether this process is the one responsible for cleanup: exactly when
/// the controlling variable is present with the value `off` (cleanup by
/// the serving process is switched off, so this reaper must do it).
pub fn cleanup_enabled(setting: Option<&str>) -> (r: bool)
    ensures
        r <==> (setting matches Some(s) && s@ == "off"@),
{
    match setting {
        None => false,
        Some(s) => str_eq(s, "off"),
    }
}

} // verus!
