use hls_reaper::playlist::{min_sequence_of_uris, read_playlist, ReadError};

fn playlist_text(base: &str, first: u32, last: u32) -> String {
    let mut text = String::new();
    text.push_str("#EXTM3U\n");
    text.push_str("#EXT-X-VERSION:3\n");
    text.push_str("#EXT-X-TARGETDURATION:10\n");
    text.push_str(&format!("#EXT-X-MEDIA-SEQUENCE:{}\n", first));
    for n in first..=last {
        text.push_str("#EXTINF:10,\n");
        text.push_str(&format!("{}-{}.ts\n", base, n));
    }
    text
}

#[test]
fn min_of_referenced_sequences() {
    let text = playlist_text("a", 5, 10);
    assert_eq!(read_playlist(&text), Ok(5));
}

#[test]
fn min_is_found_regardless_of_order() {
    let mut text = String::new();
    text.push_str("#EXTM3U\n#EXT-X-TARGETDURATION:10\n");
    for n in [9u32, 3, 7] {
        text.push_str("#EXTINF:10,\n");
        text.push_str(&format!("cam-01-{:06}.ts\n", n));
    }
    assert_eq!(read_playlist(&text), Ok(3));
}

#[test]
fn malformed_playlist_is_read_error() {
    assert_eq!(read_playlist("not a playlist"), Err(ReadError::Malformed));
    assert_eq!(read_playlist(""), Err(ReadError::Malformed));
}

#[test]
fn undecodable_uri_is_read_error() {
    let mut text = String::new();
    text.push_str("#EXTM3U\n#EXT-X-TARGETDURATION:10\n");
    text.push_str("#EXTINF:10,\n");
    text.push_str("nodash.ts\n");
    assert_eq!(read_playlist(&text), Err(ReadError::BadSegmentUri));
}

#[test]
fn playlist_with_zero_segments_is_an_error_not_delete_all() {
    let text = "#EXTM3U\n#EXT-X-TARGETDURATION:10\n";
    assert_eq!(read_playlist(text), Err(ReadError::NoSegments));
}

#[test]
fn negative_or_nonfinite_durations_are_malformed_not_a_crash() {
    for bad in ["-1", "inf", "NaN", "1e400", "+2", "99999999999999999999"] {
        let text = format!(
            "#EXTM3U\n#EXT-X-TARGETDURATION:10\n#EXTINF:{},\na-1.ts\n",
            bad
        );
        assert_eq!(read_playlist(&text), Err(ReadError::Malformed), "EXTINF:{}", bad);
    }
}

#[test]
fn fractional_durations_are_accepted() {
    let text = "#EXTM3U\n#EXT-X-TARGETDURATION:10\n#EXTINF:9.009,\na-7.ts\n";
    assert_eq!(read_playlist(text), Ok(7));
}

#[test]
fn bad_date_range_duration_is_malformed_not_a_crash() {
    for bad in ["-1", "inf", "NaN", "1e400"] {
        let text = format!(
            "#EXTM3U\n#EXT-X-TARGETDURATION:10\n#EXT-X-DATERANGE:ID=\"x\",DURATION={}\n#EXTINF:10,\na-1.ts\n",
            bad
        );
        assert_eq!(read_playlist(&text), Err(ReadError::Malformed), "DURATION={}", bad);
        let text = format!(
            "#EXTM3U\n#EXT-X-TARGETDURATION:10\n#EXT-X-DATERANGE:ID=\"x\",PLANNED-DURATION={}\n#EXTINF:10,\na-1.ts\n",
            bad
        );
        assert_eq!(read_playlist(&text), Err(ReadError::Malformed), "PLANNED-DURATION={}", bad);
    }
}

#[test]
fn sane_date_range_duration_is_accepted() {
    let text = "#EXTM3U\n#EXT-X-TARGETDURATION:10\n#EXT-X-DATERANGE:ID=\"x\",START-DATE=\"2024-01-01T00:00:00Z\",DURATION=59.993\n#EXTINF:10,\na-3.ts\n";
    assert_eq!(read_playlist(text), Ok(3));
}

#[test]
fn overflowing_byte_range_is_malformed_not_a_crash() {
    let text = format!(
        "#EXTM3U\n#EXT-X-TARGETDURATION:10\n#EXT-X-BYTERANGE:{}@{}\n#EXTINF:10,\na-1.ts\n",
        usize::MAX,
        usize::MAX
    );
    assert_eq!(read_playlist(&text), Err(ReadError::Malformed));
    let text = format!(
        "#EXTM3U\n#EXT-X-TARGETDURATION:10\n#EXT-X-MAP:URI=\"a-0.ts\",BYTERANGE=\"{}@{}\"\n#EXTINF:10,\na-1.ts\n",
        usize::MAX,
        usize::MAX
    );
    assert_eq!(read_playlist(&text), Err(ReadError::Malformed));
}

#[test]
fn small_byte_ranges_are_accepted() {
    let text =
        "#EXTM3U\n#EXT-X-TARGETDURATION:10\n#EXT-X-BYTERANGE:75232@0\n#EXTINF:10,\na-2.ts\n";
    assert_eq!(read_playlist(text), Ok(2));
}

#[test]
fn overflowing_media_sequence_is_malformed_not_a_crash() {
    let text = format!(
        "#EXTM3U\n#EXT-X-TARGETDURATION:10\n#EXT-X-MEDIA-SEQUENCE:{}\n#EXTINF:10,\na-1.ts\n#EXTINF:10,\na-2.ts\n",
        usize::MAX
    );
    assert_eq!(read_playlist(&text), Err(ReadError::Malformed));
}

#[test]
fn empty_uri_list_is_no_segments() {
    assert_eq!(min_sequence_of_uris(&Vec::new()), Err(ReadError::NoSegments));
}

#[test]
fn uri_list_distills_to_minimum() {
    let uris = vec![
        "a-8.ts".to_string(),
        "a-5.ts".to_string(),
        "a-10.ts".to_string(),
    ];
    assert_eq!(min_sequence_of_uris(&uris), Ok(5));
}

#[test]
fn uri_list_with_bad_entry_is_error() {
    let uris = vec!["a-8.ts".to_string(), "bad.ts".to_string()];
    assert_eq!(min_sequence_of_uris(&uris), Err(ReadError::BadSegmentUri));
}
