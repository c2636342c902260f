use melodie::auth::check_auth;
use melodie::catalog::{group_library, song_xml, ArtistGroup};
use melodie::http::{method_of, parse_query, parse_range, percent_decode, QueryParams};
use melodie::ids::{album_id, artist_id, parse_playlist_id, parse_track_id, playlist_id, track_id};
use melodie::model::{Playlist, Track};
use melodie::subsonic::{
    answer, answerable, begin, cover_track, plan_stream, stream_error_reply, PlaylistEntry,
    Step, StreamError,
};
use melodie::xml::{error_envelope, escape_xml, ok_envelope};

fn query_of(pairs: &[(&str, &str)]) -> QueryParams {
    QueryParams::from_pairs(pairs.iter().map(|(k, v)| (k.to_string(), v.to_string())).collect())
}

fn track(id: i64, artist: &str, album: &str, title: &str, no: i64) -> Track {
    Track {
        id,
        path: format!("/music/{artist}/{album}/{title}.mp3"),
        title: title.to_string(),
        artist: artist.to_string(),
        album: album.to_string(),
        track_no: Some(no),
        duration_ms: 210_000,
        mtime: 1,
        size: 3_400_000,
        added_at: 1,
    }
}

#[test]
fn escape_xml_covers_all_five_entities() {
    assert_eq!(escape_xml("a&b<c>d\"e'f"), "a&amp;b&lt;c&gt;d&quot;e&apos;f");
    assert_eq!(escape_xml("plain"), "plain");
}

#[test]
fn percent_decode_handles_escapes_plus_and_malformed_input() {
    assert_eq!(percent_decode("Bon%20Iver"), "Bon Iver");
    assert_eq!(percent_decode("Simon+%26+Garfunkel"), "Simon & Garfunkel");
    assert_eq!(percent_decode("caf%C3%A9"), "café");
    // A stray % must not panic or eat the rest of the string.
    assert_eq!(percent_decode("100%"), "100%");
    assert_eq!(percent_decode("%zz"), "%zz");
}

#[test]
fn parse_query_splits_pairs_and_tolerates_junk() {
    let q = parse_query("/rest/stream.view?id=tr7&u=melodie&p=secret");
    assert_eq!(q.get("id").unwrap(), "tr7");
    assert_eq!(q.get("u").unwrap(), "melodie");
    assert_eq!(q.get("p").unwrap(), "secret");

    assert!(parse_query("/rest/ping.view").is_empty());
    // A valueless key is present but empty, not missing.
    assert_eq!(parse_query("/x?flag").get("flag").unwrap(), "");
}

#[test]
fn method_of_strips_path_and_view_suffix() {
    assert_eq!(method_of("/rest/ping.view?u=a"), "ping");
    assert_eq!(method_of("/rest/getMusicDirectory.view"), "getMusicDirectory");
    // OpenSubsonic clients may omit the .view suffix entirely.
    assert_eq!(method_of("/rest/getPlaylists"), "getPlaylists");
}

#[test]
fn check_auth_accepts_salted_token_and_plaintext() {
    let token = "s3cret";
    // t = md5(password + salt), the standard Subsonic scheme.
    let salt = "abc";
    let t = format!("{:x}", md5::compute(format!("{token}{salt}").as_bytes()));
    assert!(check_auth(token, &query_of(&[("t", &t), ("s", salt)])));
    assert!(check_auth(token, &query_of(&[("p", token)])));
    // Hex-encoded plaintext, the "enc:" form older clients send.
    let enc = format!("enc:{}", token.as_bytes().iter().map(|b| format!("{b:02x}")).collect::<String>());
    assert!(check_auth(token, &query_of(&[("p", &enc)])));
}

#[test]
fn check_auth_rejects_wrong_and_missing_credentials() {
    let token = "s3cret";
    assert!(!check_auth(token, &query_of(&[("p", "wrong")])));
    assert!(!check_auth(token, &query_of(&[("t", "deadbeef"), ("s", "abc")])));
    assert!(!check_auth(token, &query_of(&[])));
    assert!(!check_auth(token, &query_of(&[("t", "x")])), "t without s is not a credential");
    // An unset token must never authenticate anything.
    assert!(!check_auth("", &query_of(&[("p", "")])));
}

#[test]
fn check_auth_accepts_the_salted_token_in_upper_case() {
    let token = "s3cret";
    let salt = "xyz";
    let t = format!("{:X}", md5::compute(format!("{token}{salt}").as_bytes()));
    assert!(check_auth(token, &query_of(&[("t", &t), ("s", salt)])));
    // The same digest under another salt is refused.
    assert!(!check_auth(token, &query_of(&[("t", &t), ("s", "other")])));
}

#[test]
fn envelopes_are_well_formed() {
    let ok = ok_envelope("<license valid=\"true\"/>");
    assert!(ok.starts_with("<?xml version=\"1.0\" encoding=\"UTF-8\"?>"));
    assert!(ok.contains("status=\"ok\""));
    assert!(ok.contains("version=\"1.16.1\""));
    assert!(ok.contains("<license valid=\"true\"/>"));
    assert!(ok.trim_end().ends_with("</subsonic-response>"));

    let err = error_envelope(40, "Wrong username or password");
    assert!(err.contains("status=\"failed\""));
    assert!(err.contains("code=\"40\""));
}

#[test]
fn ids_are_stable_prefixed_and_distinct() {
    assert_eq!(artist_id("Boards of Canada"), artist_id("Boards of Canada"));
    assert_ne!(artist_id("Boards of Canada"), artist_id("Board of Canada"));
    assert!(artist_id("x").starts_with("ar"));
    assert!(album_id("a", "b").starts_with("al"));
    // The separator must keep ("ab","c") from colliding with ("a","bc").
    assert_ne!(album_id("ab", "c"), album_id("a", "bc"));
    assert_eq!(track_id(7), "tr7");
    assert_eq!(parse_track_id("tr7"), Some(7));
    assert_eq!(parse_track_id("al1234"), None);
    assert_eq!(parse_track_id("trxyz"), None);
}

#[test]
fn artist_id_is_the_fnv1a_hash_in_hex() {
    // FNV-1a of the empty string is the offset basis.
    assert_eq!(artist_id(""), "arcbf29ce484222325");
    assert_eq!(artist_id("a"), "araf63dc4c8601ec8c");
    assert_eq!(artist_id("x").len(), 18);
}

#[test]
fn group_library_nests_albums_under_artists() {
    let tracks = vec![
        track(1, "Aphex Twin", "SAW II", "Rhubarb", 1),
        track(2, "Aphex Twin", "SAW II", "Curtains", 2),
        track(3, "Aphex Twin", "Drukqs", "Avril 14th", 1),
        track(4, "Boards of Canada", "Music Has the Right", "Roygbiv", 1),
    ];
    let groups = group_library(tracks);
    assert_eq!(groups.len(), 2);
    assert_eq!(groups[0].name, "Aphex Twin");
    assert_eq!(groups[0].albums.len(), 2);
    assert_eq!(groups[0].albums[0].tracks.len(), 2);
    assert_eq!(groups[1].albums.len(), 1);
    assert_eq!(groups[0].albums[0].artist_id, groups[0].id);
}

#[test]
fn group_library_handles_case_insensitive_artist_names() {
    let tracks = vec![
        track(1, "AC/DC", "Back in Black", "Hells Bells", 1),
        track(2, "Ac/Dc", "Back in Black", "You Shook Me", 2),
    ];
    let groups = group_library(tracks);
    assert_eq!(groups.len(), 1, "should produce exactly one ArtistGroup for case-insensitive match");
    assert_eq!(groups[0].albums.len(), 1, "should have one album");
    assert_eq!(groups[0].albums[0].tracks.len(), 2, "both tracks should be under the same album");
}

#[test]
fn group_library_keeps_every_track_in_order() {
    let tracks = vec![
        track(1, "A", "X", "one", 1),
        track(2, "B", "Y", "two", 1),
        track(3, "A", "X", "three", 1),
    ];
    let groups = group_library(tracks);
    // Not adjacent, so "A" appears twice: the fold never reorders.
    assert_eq!(groups.len(), 3);
    let ids: Vec<i64> =
        groups.iter().flat_map(|g| g.albums.iter()).flat_map(|a| a.tracks.iter()).map(|t| t.id).collect();
    assert_eq!(ids, vec![1, 2, 3]);
}

#[test]
fn song_xml_escapes_metadata_and_reports_a_content_type() {
    let t = track(9, "AC/DC", "Back in Black", "Rock & Roll <live>", 3);
    let groups = group_library(vec![t.clone()]);
    let album = &groups[0].albums[0];
    let xml = song_xml(&t, album);
    assert!(xml.contains("title=\"Rock &amp; Roll &lt;live&gt;\""), "{xml}");
    assert!(xml.contains("id=\"tr9\""), "{xml}");
    assert!(xml.contains("contentType=\"audio/mpeg\""), "{xml}");
    assert!(xml.contains("suffix=\"mp3\""), "{xml}");
    assert!(xml.contains("duration=\"210\""), "seconds, not ms: {xml}");
    assert!(xml.contains(&format!("albumId=\"{}\"", album.id)), "{xml}");
}

#[test]
fn playlist_ids_round_trip() {
    assert_eq!(playlist_id(4), "pl4");
    assert_eq!(parse_playlist_id("pl4"), Some(4));
    assert_eq!(parse_playlist_id("tr4"), None);
}

#[test]
fn parse_range_handles_the_forms_clients_actually_send() {
    assert_eq!(parse_range("bytes=0-99", 1000), Some((0, 99)));
    assert_eq!(parse_range("bytes=500-", 1000), Some((500, 999)));
    // Suffix range: "the last 200 bytes".
    assert_eq!(parse_range("bytes=-200", 1000), Some((800, 999)));
    // Past the end is clamped, not an error.
    assert_eq!(parse_range("bytes=0-99999", 1000), Some((0, 999)));
    // Unsatisfiable or nonsense -> None, caller falls back to a 200.
    assert_eq!(parse_range("bytes=1000-1005", 1000), None);
    assert_eq!(parse_range("bytes=500-100", 1000), None);
    assert_eq!(parse_range("items=0-10", 1000), None);
    assert_eq!(parse_range("garbage", 1000), None);
    assert_eq!(parse_range("bytes=0-10", 0), None, "empty file has no satisfiable range");
}

#[test]
fn parse_range_refuses_several_ranges_and_tolerates_spaces() {
    assert_eq!(parse_range("bytes=0-10,20-30", 1000), None);
    assert_eq!(parse_range("  bytes= 5 - 9 ", 1000), Some((5, 9)));
    assert_eq!(parse_range("bytes=-5000", 1000), Some((0, 999)));
    assert_eq!(parse_range("bytes=-0", 1000), None);
}

// ---- whole requests, answered from the library

const TOKEN: &str = "testtoken";

fn library() -> Vec<ArtistGroup> {
    group_library(vec![
        track(1, "Aphex Twin", "SAW II", "Rhubarb", 1),
        track(2, "Boards of Canada", "Geogaddi", "Dandelion", 1),
    ])
}

fn respond(url: &str, groups: &[ArtistGroup], playlists: &[PlaylistEntry]) -> String {
    match begin(url, TOKEN) {
        Step::Reply(x) => x,
        Step::Stream(_) | Step::Cover(_) => panic!("not a data request: {url}"),
        Step::Library(_) => {
            assert!(answerable(url, groups, playlists));
            answer(url, groups, playlists)
        },
    }
}

#[test]
fn ping_requires_credentials_and_succeeds_with_them() {
    let body = respond("/rest/ping.view?u=melodie&p=testtoken&c=test", &[], &[]);
    assert!(body.contains("status=\"ok\""), "body was {body}");
    let body = respond("/rest/ping.view?u=melodie&p=nope&c=test", &[], &[]);
    assert!(body.contains("status=\"failed\""), "body was {body}");
    assert!(body.contains("code=\"40\""), "wrong-credentials is code 40: {body}");
}

#[test]
fn get_license_reports_a_valid_license() {
    let body = respond("/rest/getLicense.view?u=m&p=testtoken&c=test", &[], &[]);
    assert!(body.contains("<license valid=\"true\""), "body was {body}");
}

#[test]
fn unknown_method_is_a_subsonic_error_not_a_404() {
    let body = respond("/rest/getPodcasts.view?u=m&p=testtoken&c=test", &[], &[]);
    assert!(body.contains("status=\"failed\""), "body was {body}");
    assert!(body.contains("code=\"70\""), "unsupported method is code 70: {body}");
}

#[test]
fn unset_token_refuses_even_an_empty_password() {
    match begin("/rest/ping.view?p=", "") {
        Step::Reply(x) => assert!(x.contains("code=\"40\""), "{x}"),
        _ => panic!("an unset token must refuse"),
    }
}

#[test]
fn browse_endpoints_expose_the_library() {
    let groups = library();
    let auth = "u=m&p=testtoken&c=test";

    let body = respond(&format!("/rest/getIndexes.view?{auth}"), &groups, &[]);
    assert!(body.contains("Aphex Twin"), "{body}");
    assert!(body.contains("Boards of Canada"), "{body}");
    assert!(body.contains("<index name=\"A\">"), "indexed by first letter: {body}");

    let body2 = respond(&format!("/rest/getArtists.view?{auth}"), &groups, &[]);
    assert!(body2.contains("albumCount=\"1\""), "{body2}");

    let aphex = artist_id("Aphex Twin");
    let body3 = respond(&format!("/rest/getMusicDirectory.view?{auth}&id={aphex}"), &groups, &[]);
    assert!(body3.contains("SAW II"), "{body3}");
    assert!(body3.contains("isDir=\"true\""), "album children are directories: {body3}");

    let saw = album_id("Aphex Twin", "SAW II");
    let body4 = respond(&format!("/rest/getAlbum.view?{auth}&id={saw}"), &groups, &[]);
    assert!(body4.contains("Rhubarb"), "{body4}");
    assert!(body4.contains("<song "), "{body4}");

    let body5 = respond(&format!("/rest/getMusicDirectory.view?{auth}&id={saw}"), &groups, &[]);
    assert!(body5.contains("<child "), "album directory lists songs: {body5}");

    let body6 = respond(&format!("/rest/getMusicFolders.view?{auth}"), &groups, &[]);
    assert!(body6.contains("musicFolder"), "{body6:?}");
}

#[test]
fn browse_with_an_unknown_id_is_not_found() {
    let groups = library();
    let body = respond("/rest/getAlbum.view?p=testtoken&id=al0000000000000000", &groups, &[]);
    assert!(body.contains("code=\"70\""), "{body}");
    let body = respond("/rest/getArtist.view?p=testtoken", &groups, &[]);
    assert!(body.contains("code=\"70\""), "missing id: {body}");
}

fn chill(ids: Vec<i64>) -> PlaylistEntry {
    PlaylistEntry {
        playlist: Playlist {
            id: 1,
            name: "Chill".to_string(),
            source: "local".to_string(),
            source_ref: None,
            synced_at: None,
        },
        track_ids: ids,
    }
}

#[test]
fn playlists_are_listed_and_expandable() {
    let groups = library();
    let playlists = vec![chill(vec![1, 2])];
    let auth = "u=m&p=testtoken&c=test";

    let body = respond(&format!("/rest/getPlaylists.view?{auth}"), &groups, &playlists);
    assert!(body.contains("Chill"), "{body}");
    assert!(body.contains("songCount=\"2\""), "{body}");

    let body2 = respond(&format!("/rest/getPlaylist.view?{auth}&id=pl1"), &groups, &playlists);
    assert!(body2.contains("<entry "), "{body2}");
    assert!(body2.contains("Rhubarb"), "{body2}");
    assert!(body2.contains("Dandelion"), "{body2}");
}

#[test]
fn playlist_duration_sums_milliseconds_before_dividing() {
    let mut a = track(1, "Artist", "Album", "Track1", 1);
    a.duration_ms = 1500;
    let mut b = track(2, "Artist", "Album", "Track2", 1);
    b.duration_ms = 2500;
    let groups = group_library(vec![a, b]);
    let playlists = vec![chill(vec![1, 2])];
    let auth = "u=m&p=testtoken&c=test";

    // 1500ms + 2500ms = 4000ms = 4 seconds (sum-then-divide).
    let body = respond(&format!("/rest/getPlaylists.view?{auth}"), &groups, &playlists);
    assert!(body.contains("duration=\"4\""), "getPlaylists should report 4s total, got {body}");

    let body2 = respond(&format!("/rest/getPlaylist.view?{auth}&id=pl1"), &groups, &playlists);
    assert!(body2.contains("duration=\"4\""), "getPlaylist should report 4s total, got {body2}");
}

#[test]
fn playlist_entries_skip_tracks_the_library_lacks() {
    let groups = library();
    let playlists = vec![chill(vec![2, 99, 1])];
    let body = respond("/rest/getPlaylist.view?p=testtoken&id=pl1", &groups, &playlists);
    assert!(body.contains("songCount=\"3\""), "{body}");
    assert_eq!(body.matches("<entry ").count(), 2, "{body}");
    let d = body.find("Dandelion").unwrap();
    let r = body.find("Rhubarb").unwrap();
    assert!(d < r, "entries follow playlist order: {body}");
    let missing = respond("/rest/getPlaylist.view?p=testtoken&id=pl7", &groups, &playlists);
    assert!(missing.contains("code=\"70\""), "{missing}");
}

#[test]
fn stream_serves_whole_files_and_byte_ranges() {
    let auth = "u=m&p=testtoken&c=test";
    let url = format!("/rest/stream.view?{auth}&id=tr1");
    match begin(&url, TOKEN) {
        Step::Stream(id) => assert_eq!(id, Some(1)),
        _ => panic!("stream is streamed"),
    }
    let whole = plan_stream("/music/a.mp3", 5000, None);
    assert_eq!(whole.status, 200, "whole file");
    assert_eq!(whole.content_type, "audio/mpeg");
    assert_eq!((whole.start, whole.count), (0, 5000));
    assert!(whole.content_range.is_none());

    let part = plan_stream("/music/a.mp3", 5000, Some("bytes=100-199"));
    assert_eq!(part.status, 206, "partial content");
    assert_eq!(part.content_range.as_deref(), Some("bytes 100-199/5000"));
    assert_eq!((part.start, part.count), (100, 100));

    let dl = format!("/rest/download.view?{auth}&id=tr2");
    match begin(&dl, TOKEN) {
        Step::Stream(id) => assert_eq!(id, Some(2)),
        _ => panic!("download is streamed"),
    }
    let missing = stream_error_reply(StreamError::NoSuchTrack);
    assert!(missing.contains("status=\"failed\""));
    let scrobble = respond(&format!("/rest/scrobble.view?{auth}&id=tr1"), &[], &[]);
    assert!(scrobble.contains("status=\"ok\""));
}

#[test]
fn stray_percent_before_a_multibyte_character_is_kept() {
    // A stray "%" must not panic or eat the rest of the string, also when
    // the text after it is not ASCII.
    assert_eq!(percent_decode("%aé"), "%aé");
    assert_eq!(percent_decode("%1é"), "%1é");
    let q = parse_query("/rest/ping.view?p=%1é&u=m");
    assert_eq!(q.get("p").unwrap(), "%1é");
    assert_eq!(q.get("u").unwrap(), "m");
}

#[test]
fn malformed_hex_password_is_a_wrong_credential() {
    assert!(!check_auth("s3cret", &query_of(&[("p", "enc:aéb")])));
    assert!(!check_auth("s3cret", &query_of(&[("p", "enc:é1")])));
    let body = respond("/rest/ping.view?u=m&p=enc:a%C3%A9b&c=test", &[], &[]);
    assert!(body.contains("code=\"40\""), "body was {body}");
}

#[test]
fn cover_art_requests_name_the_id_and_resolve_albums_and_artists() {
    let auth = "u=m&p=testtoken&c=test";
    let url = format!("/rest/getCoverArt.view?{auth}&id=tr1");
    match begin(&url, TOKEN) {
        Step::Cover(id) => assert_eq!(id.as_deref(), Some("tr1")),
        _ => panic!("cover art is served as an image"),
    }
    match begin(&format!("/rest/getCoverArt.view?{auth}"), TOKEN) {
        Step::Cover(id) => assert_eq!(id, None),
        _ => panic!("cover art is served as an image"),
    }
    // Unauthenticated cover requests are refused like any other.
    match begin("/rest/getCoverArt.view?u=m&p=nope&id=tr1", TOKEN) {
        Step::Reply(x) => assert!(x.contains("code=\"40\"")),
        _ => panic!("wrong credentials get the error envelope"),
    }

    let groups = group_library(vec![
        track(1, "Aphex Twin", "SAW II", "Rhubarb", 1),
        track(2, "Aphex Twin", "SAW II", "Stone in Focus", 2),
        track(3, "Boards of Canada", "Geogaddi", "Dandelion", 1),
    ]);
    let by_album = cover_track(&groups, &album_id("Boards of Canada", "Geogaddi")).unwrap();
    assert_eq!(by_album.id, 3);
    let by_artist = cover_track(&groups, &artist_id("Aphex Twin")).unwrap();
    assert_eq!(by_artist.id, 1, "an artist's cover is its first album's first track");
    assert!(cover_track(&groups, "al0000000000000000").is_none());
}

#[test]
fn percent_decode_leaves_text_without_escapes_alone() {
    assert_eq!(percent_decode("Sigur Rós"), "Sigur Rós");
    assert_eq!(percent_decode("a=b;c"), "a=b;c");
    assert_eq!(percent_decode(""), "");
}
