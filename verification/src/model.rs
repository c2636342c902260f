//! Plain records the library passes around: cached library rows, SpotiSync
//! rows and the normalized `DesiredTrack` that every import path produces.
use vstd::prelude::*;

verus! {

/// One row of the `tracks` cache: a file in the library with its tags.
#[derive(Debug, Clone)]
pub struct Track {
    pub id: i64,
    pub path: String,
    pub title: String,
    pub artist: String,
    pub album: String,
    pub track_no: Option<i64>,
    pub duration_ms: i64,
    pub mtime: i64,
    pub size: i64,
    pub added_at: i64,
}

/// Fields the scanner has freshly read from a file on disk.
pub struct NewTrack<'a> {
    pub path: &'a str,
    pub title: &'a str,
    pub artist: &'a str,
    pub album: &'a str,
    pub track_no: Option<i64>,
    pub duration_ms: i64,
    pub mtime: i64,
    pub size: i64,
}

/// One row of the `playlists` cache.
#[derive(Debug, Clone)]
pub struct Playlist {
    pub id: i64,
    pub name: String,
    pub source: String,
    pub source_ref: Option<String>,
    pub synced_at: Option<i64>,
}

/// A Spotify track as last seen in an import.
#[derive(Debug, Clone)]
pub struct SpotifyTrackRow {
    pub uri: String,
    pub title: String,
    pub artist: String,
    pub album: String,
    pub duration_ms: i64,
    pub isrc: Option<String>,
}

/// A queued background job.
#[derive(Debug, Clone)]
pub struct JobRow {
    pub id: i64,
    pub kind: String,
    pub payload: String,
    pub attempts: i64,
}

/// Normalized target, independent of where the metadata came from.
#[derive(Debug, Clone)]
pub struct DesiredTrack {
    pub uri: String,
    pub title: String,
    pub artist: String,
    pub album: String,
    pub duration_ms: i64,
    pub isrc: Option<String>,
}

/// A playlist read from an import, with its tracks in order.
#[derive(Debug, Clone)]
pub struct ParsedPlaylist {
    pub name: String,
    pub tracks: Vec<DesiredTrack>,
}

} // verus!
