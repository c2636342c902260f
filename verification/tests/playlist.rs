use melodie::library::Fingerprint;
use melodie::playlist::{ids_for_paths, is_playlist_file, m3u8_text, parse_m3u8};

#[test]
fn round_trips_paths_through_m3u8() {
    let tracks = vec!["/music/a.mp3".to_string(), "/music/b.flac".to_string()];
    let text = m3u8_text(&tracks);
    let read_back = parse_m3u8("/tmp/melodie/Favorites.m3u8", &text);
    assert_eq!(read_back, tracks);
}

#[test]
fn m3u8_text_has_the_header_and_one_line_per_path() {
    let text = m3u8_text(&["/a.mp3".to_string(), "/b.mp3".to_string()]);
    assert_eq!(text, "#EXTM3U\n/a.mp3\n/b.mp3\n");
    assert_eq!(m3u8_text(&[]), "#EXTM3U\n");
}

#[test]
fn resolves_relative_entries_against_playlist_dir() {
    let out = parse_m3u8("/tmp/melodie-playlist-rel/p.m3u8", "#EXTM3U\n../song.mp3\n");
    assert_eq!(out.len(), 1);
    assert!(out[0].ends_with("song.mp3"));
    assert_eq!(out[0], "/tmp/melodie-playlist-rel/../song.mp3");
}

#[test]
fn comments_blank_lines_and_crlf_are_skipped() {
    let out = parse_m3u8("/p/list.m3u8", "#EXTM3U\r\n#EXTINF:1,x\r\n\r\n  /abs/x.mp3  \r\nrel.mp3");
    assert_eq!(out, vec!["/abs/x.mp3".to_string(), "/p/rel.mp3".to_string()]);
}

#[test]
fn playlist_paths_map_to_known_track_ids_in_order() {
    let known = vec![
        Fingerprint { path: "/m/a.mp3".into(), id: 1, mtime: 0, size: 0 },
        Fingerprint { path: "/m/b.mp3".into(), id: 2, mtime: 0, size: 0 },
    ];
    let paths = vec!["/m/b.mp3".to_string(), "/m/zzz.mp3".to_string(), "/m/a.mp3".to_string()];
    assert_eq!(ids_for_paths(&paths, &known), vec![2, 1]);
}

#[test]
fn only_m3u8_files_are_playlists() {
    assert!(is_playlist_file("/x/Mix.m3u8"));
    assert!(!is_playlist_file("/x/Mix.M3U8"));
    assert!(!is_playlist_file("/x/Mix.csv"));
    assert!(!is_playlist_file("/x/m3u8"));
}
