use melodie::downloads::{
    audio_extension, classify_download, library_path, needs_recovery, playlist_file_name,
    repair_kind, DownloadFile, RepairKind,
};
use melodie::exportify::{is_export_file, playlist_from_rows, ExportRow};
use melodie::jobs::{
    after_failure, after_job, decide_confirm, decide_match, job_kind, retry_at, retry_backoff_secs,
    should_queue_match,
    ConfirmAction, JobFailure, JobKind, JobOutcome, SyncReport, Verdict, WorkerEvent,
};
use melodie::library::{
    classify_file, file_tags, inbox_dir, is_reserved, playlists_dir, stale_ids, FileAction,
    Fingerprint, ScanReport,
};
use melodie::model::Track;
use melodie::paths::{is_audio_file, recover_artist_album_from_path, sanitize_component};
use melodie::util::{now_unix, unix_seconds};

fn fp(path: &str, id: i64, mtime: i64, size: i64) -> Fingerprint {
    Fingerprint { path: path.to_string(), id, mtime, size }
}

#[test]
fn unchanged_files_are_not_reread_and_new_ones_are() {
    let known = vec![fp("/m/a.mp3", 1, 10, 100), fp("/m/b.mp3", 2, 10, 100)];
    assert_eq!(classify_file(&known, "/m/a.mp3", 10, 100), FileAction::Unchanged);
    assert_eq!(classify_file(&known, "/m/a.mp3", 11, 100), FileAction::Read { is_new: false });
    assert_eq!(classify_file(&known, "/m/b.mp3", 10, 101), FileAction::Read { is_new: false });
    assert_eq!(classify_file(&known, "/m/c.mp3", 10, 100), FileAction::Read { is_new: true });
}

#[test]
fn files_no_longer_on_disk_are_dropped() {
    let known = vec![fp("/m/a.mp3", 1, 0, 0), fp("/m/b.mp3", 2, 0, 0), fp("/m/c.mp3", 3, 0, 0)];
    let seen = vec!["/m/c.mp3".to_string(), "/m/a.mp3".to_string()];
    assert_eq!(stale_ids(&known, &seen), vec![2]);
    assert_eq!(stale_ids(&known, &[]), vec![1, 2, 3]);
}

#[test]
fn scan_report_counts_each_outcome() {
    let mut r = ScanReport::new();
    r.record_unchanged();
    r.record_read(true);
    r.record_read(true);
    r.record_read(false);
    r.record_removed(4);
    assert_eq!((r.added, r.updated, r.unchanged, r.removed), (2, 1, 1, 4));
}

#[test]
fn missing_tags_fall_back_to_the_file_stem_and_placeholders() {
    let t = file_tags(Some(String::new()), None, Some("LP".into()), Some(3), 1234, Some("01 Song".into()));
    assert_eq!(t.title, "01 Song");
    assert_eq!(t.artist, "Unknown Artist");
    assert_eq!(t.album, "LP");
    assert_eq!(t.track_no, Some(3));
    assert_eq!(t.duration_ms, 1234);
    let t = file_tags(None, Some("X".into()), None, None, 0, None);
    assert_eq!((t.title.as_str(), t.artist.as_str(), t.album.as_str()), ("Unknown Title", "X", "Unknown Album"));
}

#[test]
fn reserved_directories_are_not_music() {
    let p = playlists_dir("/music");
    let i = inbox_dir("/music");
    assert_eq!(p, "/music/_playlists");
    assert_eq!(i, "/music/_inbox");
    assert!(is_reserved("/music", "/music/_playlists/Mix.m3u8"));
    assert!(is_reserved("/music", "/music/_inbox"));
    assert!(!is_reserved("/music", "/music/_playlists_old/x.mp3"));
    assert!(!is_reserved("/music", "/music/Artist/Album/x.mp3"));
}

#[test]
fn audio_files_are_recognised_by_extension_in_any_case() {
    assert!(is_audio_file("/m/a.MP3"));
    assert!(is_audio_file("/m/a.flac"));
    assert!(!is_audio_file("/m/a.txt"));
    assert!(!is_audio_file("/m/mp3"));
}

#[test]
fn sanitize_component_replaces_forbidden_characters() {
    assert_eq!(sanitize_component("AC/DC: Live?"), "AC_DC_ Live_");
    assert_eq!(sanitize_component("   "), "Unknown");
    assert_eq!(sanitize_component(" a\tb "), "a_b", "control characters become _ too");
}

#[test]
fn library_path_nests_artist_album_and_title() {
    assert_eq!(library_path("/lib", "AC/DC", "Back in Black", "Hells Bells", "aac"), "/lib/AC_DC/Back in Black/Hells Bells.aac");
    assert_eq!(playlist_file_name("Road: Trip"), "Road_ Trip.m3u8");
    assert_eq!(audio_extension("/tmp/x/abc.webm"), "webm");
    assert_eq!(audio_extension("/tmp/x/abc"), "m4a");
}

#[test]
fn downloaded_files_are_sorted_by_extension() {
    assert_eq!(classify_download("/t/id.jpg", false), DownloadFile::Thumbnail);
    assert_eq!(classify_download("/t/id.m4a", false), DownloadFile::Remux);
    assert_eq!(classify_download("/t/id.mp3", false), DownloadFile::Audio);
    assert_eq!(classify_download("/t/id.webm", false), DownloadFile::Transcode);
    assert_eq!(classify_download("/t/id.webm", true), DownloadFile::Ignore);
    assert_eq!(classify_download("/t/id.MP3", true), DownloadFile::Ignore);
    assert_eq!(classify_download("/t/id", false), DownloadFile::Ignore);
}

fn track(artist: &str, album: &str, path: &str) -> Track {
    Track {
        id: 1,
        path: path.to_string(),
        title: "T".to_string(),
        artist: artist.to_string(),
        album: album.to_string(),
        track_no: None,
        duration_ms: 1,
        mtime: 1,
        size: 1,
        added_at: 1,
    }
}

#[test]
fn repair_pass_recovers_placeholders_and_picks_by_extension() {
    assert!(needs_recovery(&track("Unknown Artist", "A", "/x.aac")));
    assert!(needs_recovery(&track("B", "Unknown Album", "/x.aac")));
    assert!(!needs_recovery(&track("B", "A", "/x.aac")));
    assert_eq!(
        recover_artist_album_from_path("/lib/Artist/Album/Title.aac"),
        Some(("Artist".to_string(), "Album".to_string()))
    );
    assert_eq!(repair_kind("/x/a.M4A"), RepairKind::Remux);
    assert_eq!(repair_kind("/x/a.aac"), RepairKind::Retag);
    assert_eq!(repair_kind("/x/a.mp3"), RepairKind::Skip);
}

fn row(uri: Option<&str>, name: Option<&str>, artist: Option<&str>, dur: Option<&str>, isrc: Option<&str>, pl: Option<&str>) -> ExportRow {
    ExportRow {
        track_uri: uri.map(String::from),
        track_name: name.map(String::from),
        artist_names: artist.map(String::from),
        album_name: Some("Album".to_string()),
        duration_ms: dur.map(String::from),
        isrc: isrc.map(String::from),
        playlist_name: pl.map(String::from),
    }
}

/// Reads an export the way the importer does: each named column by its
/// header, cells as text.
fn rows_of(csv_text: &str) -> Vec<ExportRow> {
    let mut reader = csv::ReaderBuilder::new().has_headers(true).from_reader(csv_text.as_bytes());
    let headers = reader.headers().unwrap().clone();
    let col = |name: &str| headers.iter().position(|h| h == name);
    let (uri, title, artist, album, dur, isrc, pl) = (
        col("Track URI"),
        col("Track Name"),
        col("Artist Name(s)"),
        col("Album Name"),
        col("Duration (ms)"),
        col("ISRC"),
        col("Playlist Name"),
    );
    let mut out = Vec::new();
    for rec in reader.records() {
        let rec = rec.unwrap();
        let cell = |i: Option<usize>| i.and_then(|i| rec.get(i)).map(String::from);
        out.push(ExportRow {
            track_uri: cell(uri),
            track_name: cell(title),
            artist_names: cell(artist),
            album_name: cell(album),
            duration_ms: cell(dur),
            isrc: cell(isrc),
            playlist_name: cell(pl),
        });
    }
    out
}

#[test]
fn parses_a_minimal_exportify_csv() {
    let rows = rows_of(
        "Track URI,Track Name,Artist Name(s),Album Name,Duration (ms),ISRC,Added At\n\
         spotify:track:abc,Song One,Artist A,Album A,210000,US1234567890,2024-01-01T00:00:00Z\n\
         spotify:track:def,Song Two,Artist B,Album B,,,\n\
         ,Ignored,NoUri,NoUri,1000,,\n",
    );
    let parsed = playlist_from_rows(&rows, Some("My Playlist".to_string()));
    assert_eq!(parsed.name, "My Playlist");
    assert_eq!(parsed.tracks.len(), 2);
    assert_eq!(parsed.tracks[0].uri, "spotify:track:abc");
    assert_eq!(parsed.tracks[0].duration_ms, 210000);
    assert_eq!(parsed.tracks[0].isrc.as_deref(), Some("US1234567890"));
    assert_eq!(parsed.tracks[1].duration_ms, 0);
}

#[test]
fn playlist_name_column_wins_and_skipped_rows_do_not_name_it() {
    let rows = vec![
        row(Some("u0"), Some(""), Some("A"), None, None, Some("Skipped Name")),
        row(Some("u1"), Some("T"), Some("A"), Some("x"), Some(""), Some("")),
        row(Some("u2"), Some("T2"), Some("A"), Some("-5"), None, Some("Road Trip")),
    ];
    let parsed = playlist_from_rows(&rows, Some("file".to_string()));
    assert_eq!(parsed.name, "Road Trip");
    assert_eq!(parsed.tracks.len(), 2);
    assert_eq!(parsed.tracks[0].duration_ms, 0, "malformed duration counts as 0");
    assert_eq!(parsed.tracks[0].isrc, None, "empty ISRC is none");
    assert_eq!(parsed.tracks[1].duration_ms, -5);
    assert_eq!(playlist_from_rows(&[], None).name, "Imported");
    assert!(is_export_file("/inbox/Mix.CSV"));
    assert!(!is_export_file("/inbox/Mix.txt"));
}

#[test]
fn failed_jobs_retry_with_growing_backoff_then_give_up() {
    assert_eq!(after_failure(0), JobFailure::Retry { attempts: 1 });
    assert_eq!(after_failure(3), JobFailure::Retry { attempts: 4 });
    assert_eq!(after_failure(4), JobFailure::Failed);
    let b: Vec<i64> = (0..10).map(retry_backoff_secs).collect();
    assert_eq!(b, vec![30, 60, 120, 240, 480, 960, 1920, 3600, 3600, 3600]);
    assert_eq!(retry_at(1000, 2), 1120);
}

#[test]
fn match_verdicts_and_review_decisions() {
    let a = decide_match(Verdict::AutoAccept);
    assert!(a.keep_candidate && a.confirmed && a.queue_download && !a.needs_review);
    let r = decide_match(Verdict::Review);
    assert!(r.keep_candidate && !r.confirmed && !r.queue_download && r.needs_review);
    let x = decide_match(Verdict::Reject);
    assert!(!x.keep_candidate && !x.confirmed && !x.queue_download);

    assert!(matches!(decide_confirm(None, true), ConfirmAction::Nothing));
    assert!(matches!(decide_confirm(Some((true, Some("v".into()))), true), ConfirmAction::Nothing));
    assert!(matches!(decide_confirm(Some((false, None)), true), ConfirmAction::Nothing));
    match decide_confirm(Some((false, Some("vid".into()))), true) {
        ConfirmAction::Accept { youtube_id } => assert_eq!(youtube_id, "vid"),
        _ => panic!("accepting a stored candidate downloads it"),
    }
    assert!(matches!(decide_confirm(Some((false, Some("vid".into()))), false), ConfirmAction::Reject));
    assert_eq!(job_kind("match"), JobKind::Match);
    assert_eq!(job_kind("download"), JobKind::Download);
    assert_eq!(job_kind("Match"), JobKind::Unknown);
}

#[test]
fn sync_report_adds_up() {
    let mut r = SyncReport::new();
    r.add_tracks(3);
    r.add_playlist();
    r.add_tracks(2);
    assert_eq!((r.playlists, r.tracks), (1, 5));
}

#[test]
fn clock_readings_become_unix_seconds() {
    assert_eq!(unix_seconds(Some(1_700_000_000)), 1_700_000_000);
    assert_eq!(unix_seconds(None), 0);
    assert!(now_unix() > 1_600_000_000);
}

#[test]
fn after_job_announces_downloads_and_resyncs_and_waits_when_idle() {
    let a = after_job(JobOutcome::Downloaded);
    assert!(matches!(a.event, Some(WorkerEvent::LibraryChanged)));
    assert!(a.resync && a.pace && !a.wait);

    let a = after_job(JobOutcome::NeedsReview);
    assert!(matches!(a.event, Some(WorkerEvent::ReviewQueueChanged)));
    assert!(!a.resync && a.pace && !a.wait);

    let a = after_job(JobOutcome::Nothing);
    assert!(a.event.is_none() && !a.resync && a.pace && !a.wait);

    let a = after_job(JobOutcome::Failed("yt-dlp search failed".to_string()));
    match a.event {
        Some(WorkerEvent::Error(m)) => assert_eq!(m, "yt-dlp search failed"),
        _ => panic!("a failure is reported"),
    }
    assert!(!a.resync && a.pace && !a.wait);

    let a = after_job(JobOutcome::NoJob);
    assert!(a.event.is_none() && !a.resync && !a.pace && a.wait);
}

#[test]
fn a_match_is_queued_only_when_nothing_is_decided_or_waiting() {
    assert!(should_queue_match(false, false));
    assert!(!should_queue_match(true, false), "a decided match is never searched again");
    assert!(!should_queue_match(false, true), "one job per track, not one per sync");
    assert!(!should_queue_match(true, true));
}

#[test]
fn sanitizing_twice_changes_nothing() {
    for s in ["AC/DC: Live?", "  <>|  ", "", "Sigur Rós", "a\u{7}b"] {
        let once = sanitize_component(s);
        assert!(!once.is_empty());
        assert!(!once.contains(|c: char| "/\\:*?\"<>|".contains(c) || c.is_control()), "{once}");
        assert_eq!(sanitize_component(&once), once);
    }
    assert_eq!(sanitize_component("  <>|  "), "___");
    assert_eq!(sanitize_component("   "), "Unknown");
}
