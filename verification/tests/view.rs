use melodie::model::Track;
use melodie::tracklist::{event_fits, handle_event, visible_range, Key, ListEvent, ListState, Wheel};
use melodie::view::{choice_index, duration_label, playlist_tracks, sync_label, to_queue_track, to_row, track_line};

fn track(id: i64, title: &str, ms: i64) -> Track {
    Track {
        id,
        path: format!("/m/{title}.mp3"),
        title: title.to_string(),
        artist: "Artist".to_string(),
        album: "Album".to_string(),
        track_no: None,
        duration_ms: ms,
        mtime: 0,
        size: 0,
        added_at: 0,
    }
}

#[test]
fn durations_show_minutes_and_two_digit_seconds() {
    assert_eq!(duration_label(210_000), "3:30");
    assert_eq!(duration_label(65_999), "1:05");
    assert_eq!(duration_label(0), "0:00");
    assert_eq!(duration_label(3_600_000), "60:00");
    let r = to_row(&track(1, "Song", 61_000));
    assert_eq!((r.col1.as_str(), r.col2.as_str(), r.col3.as_str(), r.duration_label.as_str()), ("Song", "Artist", "Album", "1:01"));
    assert_eq!(track_line(&track(1, "Song", 125_000)), "  Artist - Album - Song (2:05)");
    let q = to_queue_track(&track(7, "Song", 5));
    assert_eq!((q.track_id, q.title.as_str(), q.duration_ms), (7, "Song", 5));
}

#[test]
fn sync_button_shows_pending_jobs() {
    assert_eq!(sync_label(Some(0)), "Sync");
    assert_eq!(sync_label(None), "Sync");
    assert_eq!(sync_label(Some(3)), "Sync (3)");
}

#[test]
fn playlist_tracks_follow_the_playlist_and_skip_unknown_ids() {
    let lib = vec![track(1, "a", 1), track(2, "b", 1), track(3, "c", 1)];
    let ts = playlist_tracks(&lib, &[3, 9, 1, 3]);
    let titles: Vec<&str> = ts.iter().map(|t| t.title.as_str()).collect();
    assert_eq!(titles, vec!["c", "a", "c"]);
}

#[test]
fn the_picker_finds_the_playlist_again_by_name() {
    let names = vec!["Chill".to_string(), "Mix".to_string()];
    assert_eq!(choice_index(&names, Some("Mix")), 2);
    assert_eq!(choice_index(&names, Some("Gone")), 0);
    assert_eq!(choice_index(&names, None), 0);
}

#[test]
fn arrows_move_the_selection_within_the_list() {
    let mut s = ListState::new(3);
    let o = handle_event(&mut s, ListEvent::KeyDown(Key::Down));
    assert!(o.handled && o.redraw);
    assert_eq!(s.selected, Some(0));
    handle_event(&mut s, ListEvent::KeyDown(Key::Down));
    handle_event(&mut s, ListEvent::KeyDown(Key::Down));
    handle_event(&mut s, ListEvent::KeyDown(Key::Down));
    assert_eq!(s.selected, Some(2));
    handle_event(&mut s, ListEvent::KeyDown(Key::Up));
    assert_eq!(s.selected, Some(1));
    let o = handle_event(&mut s, ListEvent::KeyDown(Key::Enter));
    assert_eq!(o.activate, Some(1));
    let mut empty = ListState::new(0);
    assert!(!handle_event(&mut empty, ListEvent::KeyDown(Key::Down)).handled);
}

#[test]
fn clicks_select_and_double_clicks_activate() {
    let mut s = ListState::new(5);
    let o = handle_event(&mut s, ListEvent::Push { y: 30, double: false });
    assert_eq!((s.selected, o.activate), (Some(1), None));
    let o = handle_event(&mut s, ListEvent::Push { y: 60, double: true });
    assert_eq!((s.selected, o.activate), (Some(2), Some(2)));
    let o = handle_event(&mut s, ListEvent::Push { y: 500, double: true });
    assert_eq!((s.selected, o.activate, o.redraw), (Some(2), None, false));
    let o = handle_event(&mut s, ListEvent::Move { y: 5 });
    assert_eq!((s.hover, o.redraw), (Some(0), true));
    let o = handle_event(&mut s, ListEvent::Move { y: 6 });
    assert!(!o.redraw, "same row, nothing to redraw");
    let o = handle_event(&mut s, ListEvent::Move { y: -30 });
    assert_eq!(s.hover, None, "above the list");
    assert!(o.redraw);
}

#[test]
fn wheel_scrolls_within_the_list() {
    let mut s = ListState::new(10);
    handle_event(&mut s, ListEvent::Wheel { dir: Wheel::Down, height: 104 });
    assert_eq!(s.scroll, 78);
    handle_event(&mut s, ListEvent::Wheel { dir: Wheel::Down, height: 104 });
    handle_event(&mut s, ListEvent::Wheel { dir: Wheel::Down, height: 104 });
    assert_eq!(s.scroll, 156, "no further than the last full screen");
    handle_event(&mut s, ListEvent::Wheel { dir: Wheel::Up, height: 104 });
    handle_event(&mut s, ListEvent::Wheel { dir: Wheel::Up, height: 104 });
    handle_event(&mut s, ListEvent::Wheel { dir: Wheel::Up, height: 104 });
    assert_eq!(s.scroll, 0);
    assert_eq!(visible_range(&s, 104), (0, 6));
    s.scroll = 156;
    assert_eq!(visible_range(&s, 104), (6, 10));
}

#[test]
fn event_fits_rejects_pixel_overflow_only() {
    let s = ListState { scroll: 10, ..ListState::new(5) };
    assert!(event_fits(&s, ListEvent::Move { y: 100 }));
    assert!(!event_fits(&s, ListEvent::Move { y: i32::MAX }));
    assert!(event_fits(&s, ListEvent::Push { y: i32::MAX - 10, double: false }));
    assert!(!event_fits(&s, ListEvent::Push { y: i32::MAX - 9, double: true }));
    assert!(event_fits(&s, ListEvent::Wheel { dir: Wheel::Down, height: 260 }));
    let top = ListState { scroll: i32::MAX - 10, ..ListState::new(5) };
    assert!(!event_fits(&top, ListEvent::Wheel { dir: Wheel::Down, height: 260 }));
    assert!(event_fits(&top, ListEvent::Wheel { dir: Wheel::Other, height: 260 }));
    assert!(event_fits(&top, ListEvent::KeyDown(Key::Down)));
}
