//! The retention guarantees, stated and proved over the whole pipeline:
//! what the verdict is for a stream with a readable playlist, for one
//! whose playlist cannot be used, and for a stream with no playlist.

use crate::evaluate::Timestamp;
use crate::evaluate::Verdict;
use crate::evaluate::STALE_AGE_SECS;
use crate::evaluate::spec_evaluate;
use crate::playlist::ReadError;
use crate::playlist::all_uris_parse;
use crate::playlist::spec_min_result;
use crate::playlist::spec_min_sequence;
use crate::playlist::spec_uri_sequence;
use vstd::prelude::*;

verus! {

/// The sequence number a playlist URI carries, as a plain value.
pub open spec fn uri_sequence_val(u: Seq<char>) -> u32
    recommends
        spec_uri_sequence(u) is Some,
{
    match spec_uri_sequence(u) {
        Some(v) => v,
        None => 0,
    }
}

/// The least referenced sequence number is itself referenced, and no
/// referenced sequence number is below it.
pub proof fn lemma_min_sequence_is_min(uris: Seq<Seq<char>>)
    requires
        uris.len() > 0,
        all_uris_parse(uris),
    ensures
        exists|i: int|
            0 <= i < uris.len() && uri_sequence_val(#[trigger] uris[i]) == spec_min_sequence(uris),
        forall|i: int|
            0 <= i < uris.len() ==> spec_min_sequence(uris) <= uri_sequence_val(#[trigger] uris[i]),
    decreases uris.len(),
{
    if uris.len() == 1 {
        assert(uris.last() == uris[0]);
    } else {
        let head = uris.drop_last();
        assert(all_uris_parse(head)) by {
            assert(forall|i: int| 0 <= i < head.len() ==> head[i] == uris[i]);
        }
        lemma_min_sequence_is_min(head);
        assert(forall|i: int| 0 <= i < head.len() ==> head[i] == uris[i]);
        assert(uris.last() == uris[uris.len() - 1]);
        let j = choose|i: int|
            0 <= i < head.len() && uri_sequence_val(#[trigger] head[i]) == spec_min_sequence(head);
        if spec_min_sequence(uris) == spec_min_sequence(head) {
            assert(uri_sequence_val(uris[j]) == spec_min_sequence(uris));
        } else {
            assert(uri_sequence_val(uris[uris.len() - 1]) == spec_min_sequence(uris));
        }
    }
}

/// Law: for a stream whose playlist lists a non-empty set of decodable
/// sequence numbers, a segment is deleted exactly when its own sequence
/// number is strictly below every listed one, and kept exactly when some
/// listed sequence number is at or below it.
pub proof fn lemma_playlist_retention(
    sequence: u32,
    uris: Seq<Seq<char>>,
    now: Timestamp,
    access: Option<Timestamp>,
)
    requires
        uris.len() > 0,
        all_uris_parse(uris),
    ensures
        spec_evaluate(sequence, Some(spec_min_result(uris)), now, access) == Verdict::Delete
            <==> (forall|i: int|
            0 <= i < uris.len() ==> sequence < uri_sequence_val(#[trigger] uris[i])),
        spec_evaluate(sequence, Some(spec_min_result(uris)), now, access) == Verdict::Keep <==> (
        exists|i: int| 0 <= i < uris.len() && uri_sequence_val(#[trigger] uris[i]) <= sequence),
{
    lemma_min_sequence_is_min(uris);
}

/// Law: a playlist that could not be read, or whose content could not be
/// used, yields `Undetermined` for every segment of its stream, whatever
/// the segment's sequence number — a broken playlist never licenses a
/// deletion.
pub proof fn lemma_read_failure_fail_safe(
    sequence: u32,
    err: ReadError,
    now: Timestamp,
    access: Option<Timestamp>,
)
    ensures
        spec_evaluate(sequence, Some(Err(err)), now, access) == Verdict::Undetermined,
{
}

/// Law: a playlist referencing zero segments distills to `NoSegments`,
/// under which every segment of the stream is `Undetermined` — an empty
/// playlist is an error condition, not a signal to delete everything.
pub proof fn lemma_empty_playlist_not_delete(
    sequence: u32,
    now: Timestamp,
    access: Option<Timestamp>,
)
    ensures
        spec_min_result(Seq::<Seq<char>>::empty()) == Err::<u32, ReadError>(ReadError::NoSegments),
        spec_evaluate(sequence, Some(spec_min_result(Seq::<Seq<char>>::empty())), now, access)
            == Verdict::Undetermined,
{
}

/// Law: for a segment with no playlist file, the verdict is `Delete`
/// exactly when strictly more than `STALE_AGE_SECS` seconds passed
/// between its last access and now; at exactly that age it is kept.
pub proof fn lemma_orphan_age_rule(sequence: u32, now: Timestamp, access: Timestamp)
    ensures
        spec_evaluate(sequence, None, now, Some(access)) == Verdict::Delete <==> now.as_nanos()
            - access.as_nanos() > STALE_AGE_SECS * 1_000_000_000,
        now.as_nanos() - access.as_nanos() == STALE_AGE_SECS * 1_000_000_000 ==> spec_evaluate(
            sequence,
            None,
            now,
            Some(access),
        ) == Verdict::Keep,
{
}

} // verus!
