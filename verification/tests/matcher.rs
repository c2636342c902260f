use melodie::matcher::{clean_query, score_signals, tokenize};

fn sorted(mut v: Vec<String>) -> Vec<String> {
    v.sort();
    v
}

#[test]
fn cleans_feat_and_remaster_noise() {
    assert_eq!(clean_query("Artist", "Song (feat. Someone) - 2011 Remaster"), "Artist Song");
    assert_eq!(clean_query("Artist", "Song [Live]"), "Artist Song");
}

#[test]
fn clean_query_keeps_a_meaningful_dash_and_collapses_whitespace() {
    assert_eq!(clean_query("Artist", "Part One - Part Two"), "Artist Part One - Part Two");
    assert_eq!(clean_query("  The\tBand ", "Song  (Radio (Edit))  "), "The Band Song");
    assert_eq!(clean_query("A", "B - Live at Wembley"), "A B");
    // A stray closing bracket is dropped, nothing else.
    assert_eq!(clean_query("A", "B) C"), "A B C");
}

#[test]
fn tokenize_lowercases_splits_and_drops_single_letters() {
    let t = sorted(tokenize("Wilbur Soot - Your New Boyfriend (Karaoke Version)"));
    assert_eq!(t, vec!["boyfriend", "karaoke", "new", "soot", "version", "wilbur", "your"]);
    // Repeats collapse; one-byte pieces go; a one-letter non-ASCII word stays.
    let t = sorted(tokenize("a a bb BB é"));
    assert_eq!(t, vec!["bb", "é"]);
    assert!(tokenize("").is_empty());
}

#[test]
fn close_match_signals_topic_channel_and_full_overlap() {
    let wanted = tokenize("Artist Song");
    let s = score_signals("Artist", &wanted, "artist song", "Artist - Song", "Artist - Topic");
    assert_eq!((s.overlap, s.wanted), (2, 2));
    assert!(s.topic);
    assert!(s.artist_match);
    assert!(!s.red_flag);
}

#[test]
fn live_title_raises_a_red_flag_unless_the_query_asks_for_it() {
    let wanted = tokenize("Artist Song");
    let s = score_signals("Artist", &wanted, "artist song", "Artist - Song (Live)", "Some Channel");
    assert!(s.red_flag);
    assert!(!s.topic);
    assert!(!s.artist_match);
    let s = score_signals("Artist", &wanted, "artist song live", "Artist - Song (Live)", "Some Channel");
    assert!(!s.red_flag);
}

#[test]
fn karaoke_version_raises_a_red_flag() {
    let wanted = tokenize("Wilbur Soot Your New Boyfriend");
    let query = clean_query("Wilbur Soot", "Your New Boyfriend").to_ascii_lowercase();
    let s = score_signals(
        "Wilbur Soot",
        &wanted,
        &query,
        "Wilbur Soot - Your New Boyfriend (Karaoke Version)",
        "Sing King",
    );
    assert!(s.red_flag);
    assert_eq!((s.overlap, s.wanted), (5, 5));
    assert!(!s.artist_match);
}

#[test]
fn art_track_titles_count_as_topic_uploads() {
    let s = score_signals("", &[], "", "Song (Art Track)", "Whoever");
    assert!(s.topic);
    // An empty artist never matches a channel.
    assert!(!s.artist_match);
}
