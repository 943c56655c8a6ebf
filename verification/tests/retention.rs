use hls_reaper::evaluate::{
    cleanup_enabled, evaluate, evaluate_candidate, PlaylistText, Timestamp, Verdict,
    STALE_AGE_SECS,
};
use hls_reaper::playlist::ReadError;

fn at(secs: u64) -> Timestamp {
    Timestamp { secs, nanos: 0 }
}

#[test]
fn deletes_exactly_below_the_minimum() {
    let now = at(1_000_000);
    assert_eq!(evaluate(4, Some(Ok(5)), now, None), Verdict::Delete);
    assert_eq!(evaluate(5, Some(Ok(5)), now, None), Verdict::Keep);
    assert_eq!(evaluate(6, Some(Ok(5)), now, None), Verdict::Keep);
    assert_eq!(evaluate(0, Some(Ok(5)), now, None), Verdict::Delete);
}

#[test]
fn playlist_errors_are_undetermined_for_every_sequence() {
    let now = at(1_000_000);
    for err in [
        ReadError::Unreadable,
        ReadError::Malformed,
        ReadError::BadSegmentUri,
        ReadError::NoSegments,
    ] {
        for seq in [0u32, 1, 5, u32::MAX] {
            assert_eq!(evaluate(seq, Some(Err(err)), now, None), Verdict::Undetermined);
        }
    }
}

#[test]
fn orphan_age_boundary_is_strict() {
    let access = at(10_000);
    let exactly = at(10_000 + STALE_AGE_SECS);
    assert_eq!(evaluate(1, None, exactly, Some(access)), Verdict::Keep);
    let one_nano_past = Timestamp { secs: 10_000 + STALE_AGE_SECS, nanos: 1 };
    assert_eq!(evaluate(1, None, one_nano_past, Some(access)), Verdict::Delete);
    let one_sec_short = at(10_000 + STALE_AGE_SECS - 1);
    assert_eq!(evaluate(1, None, one_sec_short, Some(access)), Verdict::Keep);
}

#[test]
fn orphan_accessed_29_minutes_ago_is_kept() {
    let access = at(100_000);
    let now = at(100_000 + 29 * 60);
    assert_eq!(evaluate(1, None, now, Some(access)), Verdict::Keep);
}

#[test]
fn orphan_accessed_31_minutes_ago_is_deleted() {
    let access = at(100_000);
    let now = at(100_000 + 31 * 60);
    assert_eq!(evaluate(1, None, now, Some(access)), Verdict::Delete);
}

#[test]
fn orphan_accessed_in_the_future_is_kept() {
    let access = at(200_000);
    let now = at(100_000);
    assert_eq!(evaluate(1, None, now, Some(access)), Verdict::Keep);
}

#[test]
fn unreadable_metadata_is_undetermined() {
    let now = at(100_000);
    assert_eq!(evaluate(1, None, now, None), Verdict::Undetermined);
}

#[test]
fn reevaluation_of_unchanged_input_is_stable() {
    let now = at(100_000 + 31 * 60);
    let access = at(100_000);
    let first = evaluate(7, None, now, Some(access));
    let second = evaluate(7, None, now, Some(access));
    assert_eq!(first, second);
    let third = evaluate(7, Some(Ok(9)), now, Some(access));
    let fourth = evaluate(7, Some(Ok(9)), now, Some(access));
    assert_eq!(third, fourth);
}

#[test]
fn cleanup_runs_only_when_switched_to_this_process() {
    assert!(!cleanup_enabled(None));
    assert!(cleanup_enabled(Some("off")));
    assert!(!cleanup_enabled(Some("on")));
    assert!(!cleanup_enabled(Some("")));
    assert!(!cleanup_enabled(Some("OFF")));
}

fn window_playlist(base: &str, first: u32, last: u32) -> String {
    let mut text = String::new();
    text.push_str("#EXTM3U\n");
    text.push_str("#EXT-X-TARGETDURATION:10\n");
    text.push_str(&format!("#EXT-X-MEDIA-SEQUENCE:{}\n", first));
    for n in first..=last {
        text.push_str("#EXTINF:10,\n");
        text.push_str(&format!("{}-{}.ts\n", base, n));
    }
    text
}

#[test]
fn directory_with_live_window_deletes_only_fallen_out_segments() {
    let playlist = window_playlist("a", 5, 10);
    let now = at(1_000_000);
    for n in 1u32..=4 {
        let name = format!("a-{}.ts", n);
        let verdict = evaluate_candidate(&name, PlaylistText::Text(&playlist), now, None);
        assert_eq!(verdict, Verdict::Delete, "a-{}.ts should be deleted", n);
    }
    for n in 5u32..=10 {
        let name = format!("a-{}.ts", n);
        let verdict = evaluate_candidate(&name, PlaylistText::Text(&playlist), now, None);
        assert_eq!(verdict, Verdict::Keep, "a-{}.ts should be kept", n);
    }
}

#[test]
fn orphan_segment_follows_age_rule() {
    let access = at(500_000);
    let before = at(500_000 + 29 * 60);
    let after = at(500_000 + 31 * 60);
    assert_eq!(
        evaluate_candidate("b-1.ts", PlaylistText::Missing, before, Some(access)),
        Verdict::Keep
    );
    assert_eq!(
        evaluate_candidate("b-1.ts", PlaylistText::Missing, after, Some(access)),
        Verdict::Delete
    );
}

#[test]
fn unparseable_candidate_name_is_never_deleted() {
    let now = at(1_000_000);
    let old = at(1_000);
    assert_eq!(
        evaluate_candidate("noise.ts", PlaylistText::Missing, now, Some(old)),
        Verdict::Undetermined
    );
}

#[test]
fn unreadable_playlist_keeps_the_segment() {
    let now = at(1_000_000);
    assert_eq!(
        evaluate_candidate("a-1.ts", PlaylistText::Unreadable, now, None),
        Verdict::Undetermined
    );
    assert_eq!(
        evaluate_candidate("a-1.ts", PlaylistText::Text("garbage"), now, None),
        Verdict::Undetermined
    );
}

#[test]
fn hostile_playlist_text_keeps_the_segment() {
    let now = at(1_000_000);
    let hostile = "#EXTM3U\n#EXT-X-TARGETDURATION:10\n#EXTINF:-1,\na-1.ts\n";
    assert_eq!(
        evaluate_candidate("a-1.ts", PlaylistText::Text(hostile), now, None),
        Verdict::Undetermined
    );
}
