//! The playback queue's decisions, apart from the audio device: which track
//! is current, what to hand the sink next, and what to report. The audio
//! thread carries out the returned effects in order and feeds back how many
//! sources the sink still holds.
use vstd::prelude::*;

verus! {

/// Loop behavior once the queue reaches its end (`All`), or once the
/// current track finishes (`One`).
#[derive(Clone, Copy, Debug, PartialEq, Eq, Structural)]
pub enum LoopMode {
    Off,
    All,
    One,
}

impl Default for LoopMode {
    fn default() -> (m: LoopMode)
        ensures
            m == LoopMode::Off,
    {
        LoopMode::Off
    }
}

/// One entry in the playback queue.
#[derive(Clone, Debug)]
pub struct QueueTrack {
    pub track_id: i64,
    pub path: String,
    pub title: String,
    pub artist: String,
    pub album: String,
    pub duration_ms: i64,
}

/// A request to the player.
pub enum Command {
    /// Replace the queue and start playing (or load, paused) at `start_index`.
    SetQueue { tracks: Vec<QueueTrack>, start_index: usize, autoplay: bool },
    PlayPause,
    Play,
    Pause,
    Next,
    Previous,
    SetLoopMode(LoopMode),
}

/// One thing for the audio thread to do or report, in order.
#[derive(Clone, Copy, Debug, PartialEq, Eq, Structural)]
pub enum Effect {
    /// Replace the sink with a fresh one, then call `Player::load_from`
    /// with these arguments and carry out what it returns. If no sink can
    /// be made, report the error and do nothing more.
    Load { index: usize, autoplay: bool },
    /// Open the queue entry at this index and append it to the sink (a file
    /// that will not decode is reported and skipped, but still counts).
    Append(usize),
    /// Resume the sink.
    Play,
    /// Pause the sink.
    Pause,
    /// Report: a new queue was taken.
    QueueLoaded,
    /// Report: the queue entry at this index is now the current track.
    TrackChanged(usize),
    /// Report: playing or not.
    PlaybackState(bool),
    /// Report: playback ran off the end of the queue.
    QueueEnded,
    /// Report the position within the queue entry at this index.
    Position(usize),
}

/// How many tracks are kept in the sink ahead of and including the one
/// playing, so the next one is buffered before the current one ends.
pub const LOOKAHEAD: usize = 2;

/// The queue and the bookkeeping of the current sink generation.
pub struct Player {
    pub queue: Vec<QueueTrack>,
    /// Queue index of the first track appended to the current sink.
    pub session_start: usize,
    /// Tracks appended to the current sink so far.
    pub appended: usize,
    /// How many of those have already been reported as finished.
    pub reported_finished: usize,
    pub playing: bool,
    pub loop_mode: LoopMode,
}

/// The bookkeeping is consistent: no more finished than appended, and the
/// index past the last appended track is representable.
pub open spec fn wf(p: Player) -> bool {
    &&& p.reported_finished <= p.appended
    &&& p.session_start + p.appended <= usize::MAX
}

/// The queue index of the track playing now, if any.
pub open spec fn current_spec(p: Player) -> Option<usize> {
    if p.session_start + p.reported_finished < p.queue@.len() {
        Some((p.session_start + p.reported_finished) as usize)
    } else {
        None
    }
}

/// Where a load at `index` actually starts: Loop-All turns running off the
/// end of a non-empty queue into a jump back to its first track.
pub open spec fn wrap_index(p: Player, index: usize) -> usize {
    if index >= p.queue@.len() && p.loop_mode == LoopMode::All && p.queue@.len() > 0 {
        0
    } else {
        index
    }
}

/// How many tracks a load at `i` appends to the fresh sink.
pub open spec fn lookahead_count(len: nat, i: nat) -> nat {
    if len - i > LOOKAHEAD {
        LOOKAHEAD as nat
    } else {
        (len - i) as nat
    }
}

/// `Append` effects for `n` queue entries starting at `i`.
pub open spec fn appends(i: nat, n: nat) -> Seq<Effect> {
    Seq::new(n, |k: int| Effect::Append((i + k) as usize))
}

/// What a load that starts at `i` in a queue of `len` tracks reports.
pub open spec fn load_effects(len: nat, i: usize, autoplay: bool) -> Seq<Effect> {
    if i >= len {
        seq![Effect::QueueEnded]
    } else {
        appends(i as nat, lookahead_count(len, i as nat)) + seq![
            Effect::TrackChanged(i),
            if autoplay {
                Effect::Play
            } else {
                Effect::Pause
            },
            Effect::PlaybackState(autoplay),
        ]
    }
}

/// The player after a load at `index` (on a fresh sink).
pub open spec fn load_after(p: Player, index: usize, autoplay: bool) -> Player {
    let i = wrap_index(p, index);
    if i >= p.queue@.len() {
        Player { session_start: i, appended: 0, reported_finished: 0, playing: false, ..p }
    } else {
        Player {
            session_start: i,
            appended: lookahead_count(p.queue@.len(), i as nat) as usize,
            reported_finished: 0,
            playing: autoplay,
            ..p
        }
    }
}

/// Tracks the sink has finished: those appended that it no longer holds.
pub open spec fn finished_spec(p: Player, sink_len: usize) -> nat {
    if p.appended >= sink_len {
        (p.appended - sink_len) as nat
    } else {
        0
    }
}

/// A track finished since the last tick.
pub open spec fn advanced(p: Player, sink_len: usize) -> bool {
    finished_spec(p, sink_len) > p.reported_finished
}

/// The player once a finished track has been counted.
pub open spec fn counted(p: Player, sink_len: usize) -> Player {
    if advanced(p, sink_len) {
        Player { reported_finished: finished_spec(p, sink_len) as usize, ..p }
    } else {
        p
    }
}

/// The tick replays the current track (Loop-One) instead of moving on.
pub open spec fn tick_replays(p: Player, sink_len: usize) -> bool {
    advanced(p, sink_len) && p.loop_mode == LoopMode::One && current_spec(p) is Some
}

/// The tick ran off the end of the queue and reloads past it.
pub open spec fn tick_runs_out(p: Player, sink_len: usize) -> bool {
    advanced(p, sink_len) && !tick_replays(p, sink_len) && current_spec(counted(p, sink_len)) is None
}

/// The tick tops up the look-ahead with one more track.
pub open spec fn tick_tops_up(p: Player, sink_len: usize) -> bool {
    let c = counted(p, sink_len);
    &&& c.appended - finished_spec(p, sink_len) < LOOKAHEAD
    &&& c.session_start + c.appended < p.queue@.len()
}

/// What a tick reports, given how many sources the sink still holds.
pub open spec fn tick_effects(p: Player, sink_len: usize) -> Seq<Effect> {
    let c = counted(p, sink_len);
    if p.queue@.len() == 0 {
        Seq::empty()
    } else if tick_replays(p, sink_len) {
        seq![Effect::Load { index: current_spec(p)->0, autoplay: true }]
    } else if tick_runs_out(p, sink_len) {
        seq![Effect::Load { index: p.queue@.len() as usize, autoplay: true }]
    } else {
        (if advanced(p, sink_len) {
            seq![Effect::TrackChanged(current_spec(c)->0)]
        } else {
            Seq::empty()
        }) + (if tick_tops_up(p, sink_len) {
            seq![Effect::Append((c.session_start + c.appended) as usize)]
        } else {
            Seq::empty()
        }) + (match current_spec(c) {
            Some(i) => seq![Effect::Position(i)],
            None => Seq::empty(),
        })
    }
}

/// The player after a tick.
pub open spec fn tick_after(p: Player, sink_len: usize) -> Player {
    let c = counted(p, sink_len);
    if p.queue@.len() == 0 || tick_replays(p, sink_len) {
        p
    } else if tick_runs_out(p, sink_len) {
        c
    } else if tick_tops_up(p, sink_len) {
        Player { appended: (c.appended + 1) as usize, ..c }
    } else {
        c
    }
}

impl Player {
    /// An empty queue, paused, with looping off.
    pub fn new() -> (p: Player)
        ensures
            wf(p),
            p.queue@.len() == 0,
            p.session_start == 0 && p.appended == 0 && p.reported_finished == 0,
            !p.playing,
            p.loop_mode == LoopMode::Off,
    {
        Player {
            queue: Vec::new(),
            session_start: 0,
            appended: 0,
            reported_finished: 0,
            playing: false,
            loop_mode: LoopMode::Off,
        }
    }

    /// The queue index of the track playing now.
    pub fn current_index(&self) -> (r: Option<usize>)
        requires
            wf(*self),
        ensures
            r == current_spec(*self),
    {
        let idx = self.session_start + self.reported_finished;
        if idx < self.queue.len() {
            Some(idx)
        } else {
            None
        }
    }

    /// Starts a fresh sink at `index`: appends up to `LOOKAHEAD` tracks,
    /// reports the new current track, and plays or pauses. Past the end of
    /// the queue it wraps to the first track under Loop-All, and otherwise
    /// stops and reports the end.
    pub fn load_from(&mut self, index: usize, autoplay: bool) -> (effects: Vec<Effect>)
        requires
            wf(*old(self)),
        ensures
            wf(*final(self)),
            *final(self) == load_after(*old(self), index, autoplay),
            effects@ == load_effects(
                old(self).queue@.len(),
                wrap_index(*old(self), index),
                autoplay,
            ),
    {
        let ghost p0 = *self;
        let len = self.queue.len();
        let index = if index >= len && self.loop_mode == LoopMode::All && len > 0 {
            0
        } else {
            index
        };
        self.session_start = index;
        self.appended = 0;
        self.reported_finished = 0;
        let mut effects: Vec<Effect> = Vec::new();
        if index >= len {
            self.playing = false;
            effects.push(Effect::QueueEnded);
            return effects;
        }
        let end = if len - index > LOOKAHEAD {
            index + LOOKAHEAD
        } else {
            len
        };
        let mut i = index;
        while i < end
            invariant
                index <= i <= end,
                end <= len,
                len == self.queue@.len(),
                self.queue == p0.queue,
                self.loop_mode == p0.loop_mode,
                self.playing == p0.playing,
                self.session_start == index,
                self.reported_finished == 0,
                self.appended == i - index,
                effects@ == appends(index as nat, (i - index) as nat),
            decreases end - i,
        {
            effects.push(Effect::Append(i));
            self.appended = self.appended + 1;
            assert(effects@ =~= appends(index as nat, (i + 1 - index) as nat));
            i += 1;
        }
        effects.push(Effect::TrackChanged(index));
        if autoplay {
            effects.push(Effect::Play);
            self.playing = true;
        } else {
            effects.push(Effect::Pause);
            self.playing = false;
        }
        effects.push(Effect::PlaybackState(self.playing));
        assert(effects@ =~= load_effects(len as nat, index, autoplay));
        effects
    }

    /// Takes a command; a returned `Load` comes last.
    pub fn handle_command(&mut self, cmd: Command) -> (effects: Vec<Effect>)
        requires
            wf(*old(self)),
        ensures
            wf(*final(self)),
            match cmd {
                Command::SetQueue { tracks, start_index, autoplay } => {
                    let len = tracks@.len();
                    &&& *final(self) == (Player { queue: tracks, ..*old(self) })
                    &&& effects@ == seq![
                        Effect::QueueLoaded,
                        Effect::Load {
                            index: if start_index < len {
                                start_index
                            } else if len > 0 {
                                (len - 1) as usize
                            } else {
                                0
                            },
                            autoplay: autoplay && len > 0,
                        },
                    ]
                },
                Command::PlayPause => if old(self).playing {
                    &&& *final(self) == (Player { playing: false, ..*old(self) })
                    &&& effects@ == seq![Effect::Pause, Effect::PlaybackState(false)]
                } else if old(self).queue@.len() > 0 {
                    &&& *final(self) == (Player { playing: true, ..*old(self) })
                    &&& effects@ == seq![Effect::Play, Effect::PlaybackState(true)]
                } else {
                    &&& *final(self) == *old(self)
                    &&& effects@ == seq![Effect::PlaybackState(false)]
                },
                Command::Play => if old(self).queue@.len() > 0 {
                    &&& *final(self) == (Player { playing: true, ..*old(self) })
                    &&& effects@ == seq![Effect::Play, Effect::PlaybackState(true)]
                } else {
                    &&& *final(self) == *old(self)
                    &&& effects@ == Seq::<Effect>::empty()
                },
                Command::Pause => {
                    &&& *final(self) == (Player { playing: false, ..*old(self) })
                    &&& effects@ == seq![Effect::Pause, Effect::PlaybackState(false)]
                },
                Command::Next => {
                    &&& *final(self) == *old(self)
                    &&& effects@ == match current_spec(*old(self)) {
                        Some(i) => seq![Effect::Load { index: (i + 1) as usize, autoplay: true }],
                        None => Seq::empty(),
                    }
                },
                Command::Previous => {
                    &&& *final(self) == *old(self)
                    &&& effects@ == match current_spec(*old(self)) {
                        Some(i) => seq![
                            Effect::Load {
                                index: if i > 0 {
                                    (i - 1) as usize
                                } else {
                                    0
                                },
                                autoplay: true,
                            },
                        ],
                        None => Seq::empty(),
                    }
                },
                Command::SetLoopMode(m) => {
                    &&& *final(self) == (Player { loop_mode: m, ..*old(self) })
                    &&& effects@ == Seq::<Effect>::empty()
                },
            },
    {
        let mut effects: Vec<Effect> = Vec::new();
        match cmd {
            Command::SetQueue { tracks, start_index, autoplay } => {
                self.queue = tracks;
                let len = self.queue.len();
                effects.push(Effect::QueueLoaded);
                let last = if len > 0 {
                    len - 1
                } else {
                    0
                };
                let index = if start_index < last {
                    start_index
                } else {
                    last
                };
                effects.push(Effect::Load { index, autoplay: autoplay && len > 0 });
            },
            Command::PlayPause => {
                if self.playing {
                    effects.push(Effect::Pause);
                    self.playing = false;
                } else if self.queue.len() > 0 {
                    effects.push(Effect::Play);
                    self.playing = true;
                }
                effects.push(Effect::PlaybackState(self.playing));
            },
            Command::Play => {
                if self.queue.len() > 0 {
                    effects.push(Effect::Play);
                    self.playing = true;
                    effects.push(Effect::PlaybackState(true));
                }
            },
            Command::Pause => {
                effects.push(Effect::Pause);
                self.playing = false;
                effects.push(Effect::PlaybackState(false));
            },
            Command::Next => {
                let n = self.queue.len();
                if let Some(idx) = self.current_index() {
                    assert(idx < n);
                    effects.push(Effect::Load { index: idx + 1, autoplay: true });
                }
            },
            Command::Previous => {
                if let Some(idx) = self.current_index() {
                    let prev = if idx > 0 {
                        idx - 1
                    } else {
                        0
                    };
                    effects.push(Effect::Load { index: prev, autoplay: true });
                }
            },
            Command::SetLoopMode(mode) => {
                self.loop_mode = mode;
            },
        }
        effects
    }

    /// Periodic housekeeping, given how many sources the sink still holds:
    /// counts finished tracks and reports the new current one (replaying it
    /// instead under Loop-One, reloading past the end when the queue runs
    /// out), tops up the look-ahead, and reports the position.
    pub fn tick(&mut self, sink_len: usize) -> (effects: Vec<Effect>)
        requires
            wf(*old(self)),
        ensures
            wf(*final(self)),
            *final(self) == tick_after(*old(self), sink_len),
            effects@ == tick_effects(*old(self), sink_len),
    {
        let ghost p0 = *self;
        let mut effects: Vec<Effect> = Vec::new();
        if self.queue.len() == 0 {
            return effects;
        }
        let finished = if self.appended >= sink_len {
            self.appended - sink_len
        } else {
            0
        };
        if finished > self.reported_finished {
            if self.loop_mode == LoopMode::One {
                if let Some(idx) = self.current_index() {
                    effects.push(Effect::Load { index: idx, autoplay: true });
                    return effects;
                }
            }
            self.reported_finished = finished;
            assert(*self == counted(p0, sink_len));
            match self.current_index() {
                Some(idx) => {
                    effects.push(Effect::TrackChanged(idx));
                },
                None => {
                    effects.push(Effect::Load { index: self.queue.len(), autoplay: true });
                    return effects;
                },
            }
        }
        assert(*self == counted(p0, sink_len));
        let ghost e1 = effects@;
        let queued_ahead = self.appended - finished;
        if queued_ahead < LOOKAHEAD {
            let next = self.session_start + self.appended;
            if next < self.queue.len() {
                effects.push(Effect::Append(next));
                self.appended = self.appended + 1;
            }
        }
        let ghost e2 = effects@;
        if let Some(idx) = self.current_index() {
            effects.push(Effect::Position(idx));
        }
        assert(effects@ =~= tick_effects(p0, sink_len));
        effects
    }
}

/// A load at an index inside the queue makes that track current, announces
/// it, and plays exactly when asked to.
pub proof fn lemma_load_makes_current(p: Player, index: usize, autoplay: bool)
    requires
        wf(p),
        index < p.queue@.len(),
    ensures
        current_spec(load_after(p, index, autoplay)) == Some(index),
        load_after(p, index, autoplay).playing == autoplay,
        load_effects(p.queue@.len(), wrap_index(p, index), autoplay).contains(
            Effect::TrackChanged(index),
        ),
        !load_effects(p.queue@.len(), wrap_index(p, index), autoplay).contains(Effect::QueueEnded),
{
    let e = load_effects(p.queue@.len(), index, autoplay);
    let n = lookahead_count(p.queue@.len(), index as nat);
    assert(e[n as int] == Effect::TrackChanged(index));
    assert forall|k: int| 0 <= k < e.len() implies e[k] != Effect::QueueEnded by {
        if k < n {
            assert(e[k] == Effect::Append((index + k) as usize));
        }
    }
}

/// Loop-All: running off the end of a non-empty queue starts over at its
/// first track instead of ending playback.
pub proof fn lemma_loop_all_wraps(p: Player, index: usize, autoplay: bool)
    requires
        wf(p),
        p.loop_mode == LoopMode::All,
        p.queue@.len() > 0,
        index >= p.queue@.len(),
    ensures
        current_spec(load_after(p, index, autoplay)) == Some(0usize),
        load_effects(p.queue@.len(), wrap_index(p, index), autoplay).contains(
            Effect::TrackChanged(0),
        ),
        !load_effects(p.queue@.len(), wrap_index(p, index), autoplay).contains(Effect::QueueEnded),
{
    assert(wrap_index(p, index) == 0);
    let e = load_effects(p.queue@.len(), 0, autoplay);
    let n = lookahead_count(p.queue@.len(), 0);
    assert(e[n as int] == Effect::TrackChanged(0));
    assert forall|k: int| 0 <= k < e.len() implies e[k] != Effect::QueueEnded by {
        if k < n {
            assert(e[k] == Effect::Append(k as usize));
        }
    }
}

/// Without Loop-All, running off the end stops: nothing is current,
/// playback is off, and the end of the queue is reported.
pub proof fn lemma_end_of_queue_stops(p: Player, index: usize, autoplay: bool)
    requires
        wf(p),
        p.loop_mode != LoopMode::All || p.queue@.len() == 0,
        index >= p.queue@.len(),
    ensures
        current_spec(load_after(p, index, autoplay)) is None,
        !load_after(p, index, autoplay).playing,
        load_effects(p.queue@.len(), wrap_index(p, index), autoplay) == seq![Effect::QueueEnded],
{
}

/// Loop-One: a tick never moves on from the current track. When it has
/// finished, the tick asks for that same track to be reloaded (which makes
/// it current again); otherwise the current track stays as it is. The end
/// of the queue is never reported and no other track is announced.
pub proof fn lemma_loop_one_stays(p: Player, sink_len: usize)
    requires
        wf(p),
        p.loop_mode == LoopMode::One,
        current_spec(p) is Some,
    ensures
        advanced(p, sink_len) ==> tick_effects(p, sink_len) == seq![
            Effect::Load { index: current_spec(p)->0, autoplay: true },
        ],
        advanced(p, sink_len) ==> current_spec(load_after(p, current_spec(p)->0, true))
            == current_spec(p),
        !advanced(p, sink_len) ==> current_spec(tick_after(p, sink_len)) == current_spec(p),
        !tick_effects(p, sink_len).contains(Effect::QueueEnded),
        forall|j: usize|
            tick_effects(p, sink_len).contains(Effect::TrackChanged(j)) ==> Some(j) == current_spec(
                p,
            ),
{
    let i = current_spec(p)->0;
    if advanced(p, sink_len) {
        lemma_load_makes_current(p, i, true);
        assert(tick_effects(p, sink_len)[0] != Effect::QueueEnded);
    } else {
        assert(counted(p, sink_len) == p);
        let e = tick_effects(p, sink_len);
        assert forall|k: int| 0 <= k < e.len() implies e[k] != Effect::QueueEnded && !(
        e[k] is TrackChanged) by {}
    }
}

/// One turn of the audio thread: a tick, then the load it may ask for,
/// with everything reported along the way.
pub open spec fn step_spec(p: Player, sink_len: usize) -> (Player, Seq<Effect>) {
    let q = tick_after(p, sink_len);
    let e = tick_effects(p, sink_len);
    if e.len() == 1 && e[0] is Load {
        let index = e[0]->index;
        let autoplay = e[0]->autoplay;
        (load_after(q, index, autoplay), e + load_effects(q.queue@.len(), wrap_index(q, index), autoplay))
    } else {
        (q, e)
    }
}

/// A run of turns, the sink holding `lens[k]` sources at the `k`-th tick:
/// the player at the end, and all that was reported, in order.
pub open spec fn run_spec(p: Player, lens: Seq<usize>) -> (Player, Seq<Effect>)
    decreases lens.len(),
{
    if lens.len() == 0 {
        (p, Seq::empty())
    } else {
        let (q, e) = step_spec(p, lens[0]);
        let (r, f) = run_spec(q, lens.skip(1));
        (r, e + f)
    }
}

/// Nothing in `e` reports the end of the queue or a track other than `i`.
pub open spec fn stays_on(e: Seq<Effect>, i: usize) -> bool {
    forall|k: int|
        0 <= k < e.len() ==> #[trigger] e[k] != Effect::QueueEnded && (e[k] matches Effect::TrackChanged(j) ==> j == i)
}

proof fn lemma_loop_one_step(p: Player, sink_len: usize)
    requires
        wf(p),
        p.queue@.len() <= usize::MAX,
        p.loop_mode == LoopMode::One,
        current_spec(p) is Some,
    ensures
        wf(step_spec(p, sink_len).0),
        step_spec(p, sink_len).0.loop_mode == LoopMode::One,
        step_spec(p, sink_len).0.queue == p.queue,
        current_spec(step_spec(p, sink_len).0) == current_spec(p),
        stays_on(step_spec(p, sink_len).1, current_spec(p)->0),
{
    let i = current_spec(p)->0;
    lemma_loop_one_stays(p, sink_len);
    let e = tick_effects(p, sink_len);
    if advanced(p, sink_len) {
        assert(tick_after(p, sink_len) == p);
        assert(e[0] == Effect::Load { index: i, autoplay: true });
        lemma_load_makes_current(p, i, true);
        let l = load_effects(p.queue@.len(), wrap_index(p, i), true);
        let n = lookahead_count(p.queue@.len(), i as nat);
        assert(wrap_index(p, i) == i);
        assert forall|k: int| 0 <= k < l.len() implies #[trigger] l[k] != Effect::QueueEnded && (l[k] matches Effect::TrackChanged(j) ==> j == i) by {
            let tail = seq![Effect::TrackChanged(i), Effect::Play, Effect::PlaybackState(true)];
            assert(l == appends(i as nat, n) + tail);
            if k < n {
                assert(l[k] == Effect::Append((i + k) as usize));
            } else {
                assert(l[k] == tail[k - n]);
            }
        }
        let all = e + l;
        assert forall|k: int| 0 <= k < all.len() implies #[trigger] all[k] != Effect::QueueEnded && (all[k] matches Effect::TrackChanged(j) ==> j == i) by {
            if k < e.len() {
                assert(all[k] == e[k]);
            } else {
                assert(all[k] == l[k - e.len()]);
            }
        }
    } else {
        assert(counted(p, sink_len) == p);
        assert(!(e.len() == 1 && e[0] is Load));
        assert forall|k: int| 0 <= k < e.len() implies #[trigger] e[k] != Effect::QueueEnded && (e[k] matches Effect::TrackChanged(j) ==> j == i) by {
            assert(e.contains(e[k]));
        }
    }
}

/// Loop-One over any run of ticks: the current track never changes, the
/// end of the queue is never reported, and no other track is announced
/// (each time the track finishes it is announced again, as it replays).
pub proof fn lemma_loop_one_run(p: Player, lens: Seq<usize>)
    requires
        wf(p),
        p.queue@.len() <= usize::MAX,
        p.loop_mode == LoopMode::One,
        current_spec(p) is Some,
    ensures
        current_spec(run_spec(p, lens).0) == current_spec(p),
        stays_on(run_spec(p, lens).1, current_spec(p)->0),
    decreases lens.len(),
{
    if lens.len() > 0 {
        let i = current_spec(p)->0;
        lemma_loop_one_step(p, lens[0]);
        let (q, e) = step_spec(p, lens[0]);
        lemma_loop_one_run(q, lens.skip(1));
        let f = run_spec(q, lens.skip(1)).1;
        let all = e + f;
        assert forall|k: int| 0 <= k < all.len() implies #[trigger] all[k] != Effect::QueueEnded && (all[k] matches Effect::TrackChanged(j) ==> j == i) by {
            if k < e.len() {
                assert(all[k] == e[k]);
            } else {
                assert(all[k] == f[k - e.len()]);
            }
        }
    }
}

/// Loop-All: when the last queued track finishes, the tick and the load it
/// asks for start the queue over at its first track, and keep playing;
/// the end of the queue is not reported.
pub proof fn lemma_loop_all_run_out_restarts(p: Player, sink_len: usize)
    requires
        wf(p),
        p.queue@.len() <= usize::MAX,
        p.loop_mode == LoopMode::All,
        p.queue@.len() > 0,
        tick_runs_out(p, sink_len),
    ensures
        step_spec(p, sink_len).0.playing,
        current_spec(step_spec(p, sink_len).0) == Some(0usize),
        step_spec(p, sink_len).1.contains(Effect::TrackChanged(0)),
        step_spec(p, sink_len).1.contains(Effect::Play),
        !step_spec(p, sink_len).1.contains(Effect::QueueEnded),
{
    let len = p.queue@.len();
    let e = tick_effects(p, sink_len);
    let q = tick_after(p, sink_len);
    assert(!tick_replays(p, sink_len));
    assert(e == seq![Effect::Load { index: len as usize, autoplay: true }]);
    assert(q == counted(p, sink_len));
    assert(q.queue == p.queue && q.loop_mode == LoopMode::All);
    assert(wrap_index(q, len as usize) == 0);
    let l = load_effects(len, 0, true);
    let n = lookahead_count(len, 0);
    let tail = seq![Effect::TrackChanged(0), Effect::Play, Effect::PlaybackState(true)];
    assert(l == appends(0, n) + tail);
    let all = e + l;
    assert(all[1 + n as int] == Effect::TrackChanged(0));
    assert(all[2 + n as int] == Effect::Play);
    assert forall|k: int| 0 <= k < all.len() implies all[k] != Effect::QueueEnded by {
        if k == 0 {
        } else if k - 1 < n {
            assert(all[k] == l[k - 1]);
            assert(l[k - 1] == Effect::Append((k - 1) as usize));
        } else {
            assert(all[k] == tail[k - 1 - n]);
        }
    }
}

/// Loop off (or Loop-One with nothing current): when the last queued track
/// finishes, playback stops and the end of the queue is reported.
pub proof fn lemma_loop_off_run_out_stops(p: Player, sink_len: usize)
    requires
        wf(p),
        p.loop_mode == LoopMode::Off,
        p.queue@.len() > 0,
        tick_runs_out(p, sink_len),
    ensures
        !step_spec(p, sink_len).0.playing,
        current_spec(step_spec(p, sink_len).0) is None,
        step_spec(p, sink_len).1 == seq![
            Effect::Load { index: p.queue@.len() as usize, autoplay: true },
            Effect::QueueEnded,
        ],
{
    let len = p.queue@.len();
    assert(!tick_replays(p, sink_len));
    assert(tick_effects(p, sink_len) == seq![Effect::Load { index: len as usize, autoplay: true }]);
    assert(wrap_index(tick_after(p, sink_len), len as usize) == len as usize);
}

/// The mode the loop button switches to: Off, All, One, and around again.
pub open spec fn next_mode_spec(m: LoopMode) -> LoopMode {
    match m {
        LoopMode::Off => LoopMode::All,
        LoopMode::All => LoopMode::One,
        LoopMode::One => LoopMode::Off,
    }
}

pub fn next_loop_mode(mode: LoopMode) -> (m: LoopMode)
    ensures
        m == next_mode_spec(mode),
{
    match mode {
        LoopMode::Off => LoopMode::All,
        LoopMode::All => LoopMode::One,
        LoopMode::One => LoopMode::Off,
    }
}

/// Three presses of the loop button bring back the mode one started with,
/// and every mode is reached on the way.
pub proof fn lemma_loop_modes_cycle(m: LoopMode)
    ensures
        next_mode_spec(next_mode_spec(next_mode_spec(m))) == m,
        next_mode_spec(m) != m,
        next_mode_spec(next_mode_spec(m)) != m,
{
}

pub open spec fn loop_label_spec(m: LoopMode) -> Seq<char> {
    match m {
        LoopMode::Off => "Loop"@,
        LoopMode::All => "Loop*"@,
        LoopMode::One => "Loop 1"@,
    }
}

/// The loop button's caption for a mode.
pub fn loop_label(mode: LoopMode) -> (s: &'static str)
    ensures
        s@ == loop_label_spec(mode),
{
    match mode {
        LoopMode::Off => "Loop",
        LoopMode::All => "Loop*",
        LoopMode::One => "Loop 1",
    }
}

} // verus!
