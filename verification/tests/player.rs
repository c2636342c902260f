use melodie::player::{
    loop_label, next_loop_mode, Command, Effect, LoopMode, Player, QueueTrack,
};

fn queue_track(i: i64) -> QueueTrack {
    QueueTrack {
        track_id: i,
        path: format!("/music/{i}.wav"),
        title: format!("t{i}"),
        artist: "a".into(),
        album: "b".into(),
        duration_ms: 1000,
    }
}

/// Carries out effects the way the audio thread does, with a sink that can
/// always be made; returns what was reported and how many sources the
/// simulated sink holds.
fn perform(p: &mut Player, effects: Vec<Effect>, sink: &mut usize, log: &mut Vec<Effect>) {
    for e in effects {
        match e {
            Effect::Load { index, autoplay } => {
                *sink = 0;
                let more = p.load_from(index, autoplay);
                perform(p, more, sink, log);
            }
            Effect::Append(_) => {
                *sink += 1;
                log.push(e);
            }
            other => log.push(other),
        }
    }
}

#[test]
fn plays_a_short_queue_to_completion() {
    let mut p = Player::new();
    let mut sink = 0usize;
    let mut log = Vec::new();
    let cmd = Command::SetQueue { tracks: vec![queue_track(0), queue_track(1)], start_index: 0, autoplay: true };
    let e = p.handle_command(cmd);
    perform(&mut p, e, &mut sink, &mut log);
    // The sink finishes its sources one at a time.
    for _ in 0..4 {
        if sink > 0 {
            sink -= 1;
        }
        let e = p.tick(sink);
        perform(&mut p, e, &mut sink, &mut log);
    }
    let changed = log.iter().filter(|e| matches!(e, Effect::TrackChanged(_))).count();
    let ended = log.iter().any(|e| matches!(e, Effect::QueueEnded));
    assert_eq!(changed, 2, "expected TrackChanged once per track");
    assert!(ended, "expected QueueEnded after the last track");
    assert!(!p.playing);
}

#[test]
fn loop_one_replays_current_track_instead_of_advancing() {
    let mut p = Player::new();
    let mut sink = 0usize;
    let mut log = Vec::new();
    let e = p.handle_command(Command::SetLoopMode(LoopMode::One));
    perform(&mut p, e, &mut sink, &mut log);
    let e = p.handle_command(Command::SetQueue { tracks: vec![queue_track(0)], start_index: 0, autoplay: true });
    perform(&mut p, e, &mut sink, &mut log);
    for _ in 0..3 {
        sink = 0;
        let e = p.tick(sink);
        perform(&mut p, e, &mut sink, &mut log);
    }
    let mut changed_at_index_0 = 0;
    for e in &log {
        if let Effect::TrackChanged(index) = e {
            assert_eq!(*index, 0, "loop-one must never advance past the looped track");
            changed_at_index_0 += 1;
        }
    }
    assert!(changed_at_index_0 >= 3, "expected the same track to replay multiple times under loop-one");
    assert!(!log.iter().any(|e| matches!(e, Effect::QueueEnded)), "loop-one should never emit QueueEnded");
}

#[test]
fn loop_all_wraps_to_the_first_track() {
    let mut p = Player::new();
    p.handle_command(Command::SetLoopMode(LoopMode::All));
    p.handle_command(Command::SetQueue { tracks: vec![queue_track(0), queue_track(1)], start_index: 1, autoplay: true });
    let e = p.load_from(1, true);
    assert_eq!(e, vec![Effect::Append(1), Effect::TrackChanged(1), Effect::Play, Effect::PlaybackState(true)]);
    let e = p.handle_command(Command::Next);
    assert_eq!(e, vec![Effect::Load { index: 2, autoplay: true }]);
    let e = p.load_from(2, true);
    assert_eq!(
        e,
        vec![Effect::Append(0), Effect::Append(1), Effect::TrackChanged(0), Effect::Play, Effect::PlaybackState(true)]
    );
    assert_eq!(p.current_index(), Some(0));
}

#[test]
fn set_queue_clamps_the_start_and_plays_only_a_non_empty_queue() {
    let mut p = Player::new();
    let e = p.handle_command(Command::SetQueue { tracks: vec![queue_track(0), queue_track(1)], start_index: 9, autoplay: true });
    assert_eq!(e, vec![Effect::QueueLoaded, Effect::Load { index: 1, autoplay: true }]);
    let e = p.handle_command(Command::SetQueue { tracks: vec![], start_index: 0, autoplay: true });
    assert_eq!(e, vec![Effect::QueueLoaded, Effect::Load { index: 0, autoplay: false }]);
    let e = p.load_from(0, false);
    assert_eq!(e, vec![Effect::QueueEnded]);
    assert_eq!(p.handle_command(Command::Play), vec![]);
    assert_eq!(p.handle_command(Command::PlayPause), vec![Effect::PlaybackState(false)]);
}

#[test]
fn previous_on_the_first_track_restarts_it() {
    let mut p = Player::new();
    p.handle_command(Command::SetQueue { tracks: vec![queue_track(0), queue_track(1), queue_track(2)], start_index: 0, autoplay: false });
    let e = p.load_from(0, false);
    assert_eq!(e, vec![Effect::Append(0), Effect::Append(1), Effect::TrackChanged(0), Effect::Pause, Effect::PlaybackState(false)]);
    assert_eq!(p.handle_command(Command::Previous), vec![Effect::Load { index: 0, autoplay: true }]);
    assert_eq!(p.handle_command(Command::PlayPause), vec![Effect::Play, Effect::PlaybackState(true)]);
    assert_eq!(p.handle_command(Command::PlayPause), vec![Effect::Pause, Effect::PlaybackState(false)]);
}

#[test]
fn tick_tops_up_the_look_ahead() {
    let mut p = Player::new();
    p.handle_command(Command::SetQueue { tracks: vec![queue_track(0), queue_track(1), queue_track(2)], start_index: 0, autoplay: true });
    p.load_from(0, true);
    // Still two sources queued: nothing changes but the position report.
    assert_eq!(p.tick(2), vec![Effect::Position(0)]);
    // The first finished: the second is current, and the third is queued.
    assert_eq!(p.tick(1), vec![Effect::TrackChanged(1), Effect::Append(2), Effect::Position(1)]);
}

#[test]
fn loop_button_cycles_through_the_three_modes() {
    assert_eq!(next_loop_mode(LoopMode::Off), LoopMode::All);
    assert_eq!(next_loop_mode(LoopMode::All), LoopMode::One);
    assert_eq!(next_loop_mode(LoopMode::One), LoopMode::Off);
    assert_eq!(loop_label(LoopMode::Off), "Loop");
    assert_eq!(loop_label(LoopMode::All), "Loop*");
    assert_eq!(loop_label(LoopMode::One), "Loop 1");
    assert_eq!(LoopMode::default(), LoopMode::Off);
}
