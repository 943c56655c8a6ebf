//! Retention logic for transient HLS media segments.
//!
//! A streaming server writes short `.ts` segment files next to `.m3u8`
//! playlists that list the segments currently live. This crate decides,
//! for one candidate segment at a time, whether it is safe to delete:
//! either because its sequence number has fallen below every sequence
//! the stream's playlist still references, or because the segment has no
//! playlist at all and has not been accessed for over thirty minutes.
//! Every ambiguous situation resolves to an explicit `Undetermined`
//! verdict, which callers treat as "keep": a malformed or unreadable
//! playlist must never cause a segment to be deleted.
//!
//! File and network I/O, scheduling and deletion itself are left to the
//! caller, which feeds plain values (file names, playlist text, access
//! times) into the functions here and acts on the verdicts they return.

pub mod codec;
pub mod evaluate;
pub mod guard;
pub mod laws;
pub mod playlist;
