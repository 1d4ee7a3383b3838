//! The MIDI sequencer: the authoritative mapping between playback ticks and
//! wall-clock time.  It owns the loaded song's per-track cursors and the
//! evolving tempo, converts elapsed time into ticks, dispatches due events
//! to a sink, and seeks by quiet single-tick replay.  Every operation's
//! contract states the new state as a function of the old one via the
//! model in `model`.

use vstd::prelude::*;

use crate::lemmas::{
    lemma_drain_dispatch_wf, lemma_drain_state_ok, lemma_forwarded_add, lemma_length_loop_bounds,
    lemma_quiet_step_props,
    lemma_max_remaining_bounds, lemma_max_remaining_monotone, lemma_not_done_tick_lt_max,
    lemma_tick_duration_bounds,
};
use crate::model::{
    advance_model, all_done, cursors_ok, drain_cursors, drain_dispatch, drain_state, drained,
    drained_cursor, dispatch_upto, forwarded, initial_state, length_loop, max_remaining,
    quiet_step, replay_model, run_ticks, seek_model, song_length_model, spec_tick_duration,
    state_ok, tempo_after, track_dispatch, SeqState, SongView,
};
use crate::sink::{to_commands, MidiSink, SinkCommand};
use crate::song::{
    cursors_view, vec_tracks_view, wf_division, wf_event, EventPayload, MidiEvent, Song,
    TimeDivision, DEFAULT_TEMPO_MICROS, MAX_EVENT_TICK, MAX_TEMPO_MICROS, MAX_TICK_NANOS,
};

verus! {

/// The tick-based MIDI event sequencer.  Times are integer nanoseconds;
/// the tempo is the tempo meta event's microseconds per quarter note.
pub struct MidiSequencer {
    /// The loaded song, if any.
    song: Option<Song>,
    /// Current tempo, microseconds per quarter note.
    tempo: u32,
    /// Index of the next unconsumed event of each track.
    track_positions: Vec<usize>,
    /// The logical tick clock, advanced one tick at a time.
    tick: u64,
    /// Wall-clock time not yet consumed by a whole tick, nanoseconds.
    since_last_tick: u64,
    /// Elapsed wall-clock time since playback started, nanoseconds.
    song_position: u64,
    /// Precomputed full-song duration, nanoseconds.
    song_length: u64,
}

impl MidiSequencer {
    /// Whether a song is loaded.
    pub closed spec fn loaded(&self) -> bool {
        match self.song {
            Some(_) => true,
            None => false,
        }
    }

    /// The loaded song, as the model sees it.
    pub closed spec fn song_view(&self) -> SongView
        recommends
            self.loaded(),
    {
        match self.song {
            Some(song) => song@,
            None => vstd::pervasive::arbitrary(),
        }
    }

    /// The playback state, as the model sees it.
    pub closed spec fn state(&self) -> SeqState {
        SeqState {
            tempo: self.tempo as int,
            cursors: cursors_view(self.track_positions@),
            tick: self.tick as int,
            residual: self.since_last_tick as int,
            position: self.song_position as int,
        }
    }

    /// The invariant every operation preserves: with a song loaded, the
    /// song is within bounds, the state is structurally sound, and the
    /// stored length is the model's.
    pub closed spec fn inv(&self) -> bool {
        self.loaded() ==> {
            &&& self.song_view().well_formed()
            &&& state_ok(self.song_view(), self.state())
            &&& self.song_length as int == song_length_model(self.song_view())
        }
    }

    /// A sequencer with nothing loaded.
    pub fn new() -> (r: Self)
        ensures
            !r.loaded(),
            r.inv(),
    {
        MidiSequencer {
            song: None,
            tempo: DEFAULT_TEMPO_MICROS,
            track_positions: Vec::new(),
            tick: 0,
            since_last_tick: 0,
            song_position: 0,
            song_length: 0,
        }
    }

    /// Are there no more messages left?  True without a song, and true
    /// exactly when every track's cursor has reached its event count.
    pub fn end_of_sequence(&self) -> (r: bool)
        requires
            self.inv(),
        ensures
            self.loaded() ==> r == all_done(self.song_view(), self.state().cursors),
            !self.loaded() ==> r,
    {
        match &self.song {
            None => true,
            Some(song) => all_positions_done(song, &self.track_positions),
        }
    }

    /// The stored full-song duration, nanoseconds.
    pub closed spec fn length_spec(&self) -> int {
        self.song_length as int
    }

    /// Precomputed duration of the loaded song, nanoseconds.
    pub fn song_length(&self) -> (r: u64)
        ensures
            r as int == self.length_spec(),
            self.inv() && self.loaded() ==> r as int == song_length_model(self.song_view()),
    {
        self.song_length
    }

    /// Elapsed wall-clock time since playback started, nanoseconds.
    pub fn song_position(&self) -> (r: u64)
        ensures
            r as int == self.state().position,
    {
        self.song_position
    }

    /// The tick clock's current value.
    pub fn current_tick(&self) -> (r: u64)
        ensures
            r as int == self.state().tick,
    {
        self.tick
    }

    /// Current tempo, microseconds per quarter note.
    pub fn tempo_micros(&self) -> (r: u32)
        ensures
            r as int == self.state().tempo,
    {
        self.tempo
    }

    /// Load a song and start from the top: reset the tick clock, every
    /// track cursor, the tempo and the position, then precompute the full
    /// song's duration by offline simulation.  Replaces any earlier song.
    pub fn play(&mut self, midi_file: Song)
        requires
            midi_file.well_formed(),
        ensures
            final(self).inv(),
            final(self).loaded(),
            final(self).song_view() == midi_file@,
            final(self).state() == initial_state(midi_file@),
            final(self).length_spec() == song_length_model(midi_file@),
    {
        self.tick = 0;
        self.since_last_tick = 0;
        self.song_position = 0;
        self.tempo = DEFAULT_TEMPO_MICROS;
        let n = midi_file.tracks.len();
        let mut positions: Vec<usize> = Vec::new();
        while positions.len() < n
            invariant
                positions@.len() <= n,
                forall|k: int| 0 <= k < positions@.len() ==> positions@[k] == 0,
            decreases n - positions.len(),
        {
            positions.push(0);
        }
        self.track_positions = positions;
        self.song = Some(midi_file);
        proof {
            assert(cursors_view(self.track_positions@) =~= initial_state(midi_file@).cursors);
            assert(self.state() =~= initial_state(midi_file@));
        }
        self.update_song_length();
    }

    /// Recompute the stored full-song duration: simulate playback
    /// tick-by-tick with no sink and no real-time component, respecting
    /// tempo events, accumulating each tick's duration until every track
    /// is fully consumed.
    fn update_song_length(&mut self)
        requires
            old(self).loaded(),
            old(self).song_view().well_formed(),
        ensures
            final(self).song == old(self).song,
            final(self).tempo == old(self).tempo,
            final(self).track_positions == old(self).track_positions,
            final(self).tick == old(self).tick,
            final(self).since_last_tick == old(self).since_last_tick,
            final(self).song_position == old(self).song_position,
            final(self).song_length as int == song_length_model(old(self).song_view()),
    {
        let ghost sv = self.song_view();
        let song = self.song.as_ref().unwrap();
        let n = song.tracks.len();
        let mut positions: Vec<usize> = Vec::new();
        while positions.len() < n
            invariant
                positions@.len() <= n,
                forall|k: int| 0 <= k < positions@.len() ==> positions@[k] == 0,
            decreases n - positions.len(),
        {
            positions.push(0);
        }
        let ghost s0 = initial_state(sv);
        proof {
            assert(cursors_view(positions@) =~= s0.cursors);
            lemma_max_remaining_bounds(sv, s0.cursors, 0);
            lemma_drain_dispatch_wf(sv, s0.cursors, 0);
            lemma_drain_state_ok(sv, s0);
        }
        let ghost stop = max_remaining(sv, s0.cursors);
        let mut tempo: u32 = DEFAULT_TEMPO_MICROS;
        let mut tick: u64 = 0;
        let mut acc: u64 = 0;
        let evs = drain_tick(&song.tracks, &mut positions, 0);
        tempo = fold_tempo(&evs, tempo);
        let ghost mut st = drain_state(sv, s0);
        proof {
            assert(st.cursors == cursors_view(positions@));
            assert(st.tempo == tempo as int);
            lemma_max_remaining_monotone(sv.tracks, s0.cursors, st.cursors, 0);
            assert forall|k: int| 0 <= k < positions@.len() implies positions@[k] <= song.tracks@[
                k
            ]@.len() by {
                assert(cursors_view(positions@)[k] == positions@[k] as int);
                assert(sv.tracks[k] == song.tracks@[k]@);
            }
            lemma_length_loop_bounds(sv, st, stop);
            assert(song_length_model(sv) == length_loop(sv, st, stop));
            assert(song_length_model(sv) <= (stop + 1) * (MAX_TICK_NANOS as int));
            assert((stop + 1) * (MAX_TICK_NANOS as int) <= (MAX_EVENT_TICK as int + 1) * (
            MAX_TICK_NANOS as int)) by (nonlinear_arith)
                requires
                    stop <= MAX_EVENT_TICK as int,
            ;
        }
        while !all_positions_done(song, &positions)
            invariant
                positions@.len() == n,
                forall|k: int| 0 <= k < positions@.len() ==> positions@[k] <= song.tracks@[k]@.len(),
                st.cursors == cursors_view(positions@),
                st.tempo == tempo as int,
                st.tick == tick as int,
                cursors_ok(sv, st),
                drained(sv, st),
                max_remaining(sv, st.cursors) <= stop,
                -1 <= stop <= MAX_EVENT_TICK as int,
                tick as int <= stop + 1,
                acc as int + length_loop(sv, st, stop) == song_length_model(sv),
                song_length_model(sv) <= (MAX_EVENT_TICK as int + 1) * (MAX_TICK_NANOS as int),
            decreases stop + 1 - tick,
        {
            let d = tick_duration_nanos(song.division, tempo);
            proof {
                lemma_not_done_tick_lt_max(sv, st);
                assert(st.tick < max_remaining(sv, st.cursors));
                assert(tick as int <= stop);
                let stepped = SeqState { tick: st.tick + 1, ..st };
                lemma_drain_state_ok(sv, stepped);
                lemma_length_loop_bounds(sv, drain_state(sv, stepped), stop);
                assert(length_loop(sv, st, stop) == d + length_loop(
                    sv,
                    drain_state(sv, stepped),
                    stop,
                ));
            }
            acc = acc + d;
            tick = tick + 1;
            let evs2 = drain_tick(&song.tracks, &mut positions, tick);
            proof {
                let stepped = SeqState { tick: st.tick + 1, ..st };
                lemma_drain_dispatch_wf(sv, stepped.cursors, stepped.tick);
            }
            tempo = fold_tempo(&evs2, tempo);
            proof {
                let stepped = SeqState { tick: st.tick + 1, ..st };
                lemma_drain_state_ok(sv, stepped);
                lemma_max_remaining_monotone(
                    sv.tracks,
                    stepped.cursors,
                    drain_state(sv, stepped).cursors,
                    0,
                );
                st = drain_state(sv, stepped);
                assert(st.cursors == cursors_view(positions@));
                assert forall|k: int| 0 <= k < positions@.len() implies positions@[k]
                    <= song.tracks@[k]@.len() by {
                    assert(cursors_view(positions@)[k] == positions@[k] as int);
                    assert(sv.tracks[k] == song.tracks@[k]@);
                }
            }
        }
        proof {
            assert(length_loop(sv, st, stop) == 0);
        }
        self.song_length = acc;
    }

    /// The live playback step: account `delta` nanoseconds of elapsed
    /// time, and while a whole tick's duration fits in the accumulated
    /// residual, consume it, step the tick clock by exactly one, and
    /// deliver every event that has become due.  Ticks are never skipped,
    /// so a tempo event always takes effect at its own tick.  Without a
    /// song this does nothing.
    pub fn update_events<R: MidiSink>(&mut self, event_sink: &mut R, delta: u64)
        requires
            old(self).inv(),
            old(self).state().position + delta <= u64::MAX,
        ensures
            final(self).inv(),
            final(self).loaded() == old(self).loaded(),
            !old(self).loaded() ==> final(self).state() == old(self).state()
                && final(event_sink).commands() == old(event_sink).commands(),
            old(self).loaded() ==> {
                &&& final(self).song_view() == old(self).song_view()
                &&& final(self).length_spec() == old(self).length_spec()
                &&& final(self).state() == advance_model(
                    old(self).song_view(),
                    old(self).state(),
                    delta as int,
                ).0
                &&& final(event_sink).commands() == old(event_sink).commands() + to_commands(
                    forwarded(
                        advance_model(old(self).song_view(), old(self).state(), delta as int).1,
                        false,
                    ),
                )
            },
    {
        if self.song.is_none() {
            return;
        }
        let ghost sv = self.song_view();
        let ghost s0 = self.state();
        let ghost target = advance_model(sv, s0, delta as int);
        self.song_position = self.song_position + delta;
        self.since_last_tick = self.since_last_tick + delta;
        let ghost grown = SeqState {
            position: s0.position + delta,
            residual: s0.residual + delta,
            ..s0
        };
        let song = self.song.as_ref().unwrap();
        proof {
            lemma_drain_state_ok(sv, grown);
            lemma_drain_dispatch_wf(sv, grown.cursors, grown.tick);
            assert forall|i: int| 0 <= i < self.track_positions@.len() implies (
            #[trigger] self.track_positions@[i]) <= song.tracks@[i]@.len() by {
                assert(cursors_view(self.track_positions@)[i] == self.track_positions@[i] as int);
                assert(sv.tracks[i] == song.tracks@[i]@);
            }
        }
        let evs = drain_tick(&song.tracks, &mut self.track_positions, self.tick);
        forward_events(event_sink, &evs, false);
        self.tempo = fold_tempo(&evs, self.tempo);
        let ghost mut st = drain_state(sv, grown);
        let ghost mut sent = drain_dispatch(sv.tracks, grown.cursors, grown.tick);
        proof {
            assert(st.cursors == cursors_view(self.track_positions@));
            assert(st.tempo == self.tempo as int);
            assert(target.0 == run_ticks(sv, st).0);
            assert(target.1 == sent + run_ticks(sv, st).1);
        }
        let mut d = tick_duration_nanos(song.division, self.tempo);
        while self.since_last_tick >= d
            invariant
                d as int == spec_tick_duration(sv.division, st.tempo),
                self.song == old(self).song,
                self.song_length == old(self).song_length,
                st.cursors == cursors_view(self.track_positions@),
                st.tempo == self.tempo as int,
                st.tick == self.tick as int,
                st.residual == self.since_last_tick as int,
                st.position == self.song_position as int,
                st.position == s0.position + delta,
                cursors_ok(sv, st),
                0 <= st.residual,
                st.tick + st.residual <= st.position,
                target.0 == run_ticks(sv, st).0,
                target.1 == sent + run_ticks(sv, st).1,
                event_sink.commands() == old(event_sink).commands() + to_commands(
                    forwarded(sent, false),
                ),
            decreases self.since_last_tick,
        {
            self.since_last_tick = self.since_last_tick - d;
            self.tick = self.tick + 1;
            let ghost stepped = SeqState {
                tick: st.tick + 1,
                residual: st.residual - d,
                ..st
            };
            proof {
                lemma_drain_state_ok(sv, stepped);
                lemma_drain_dispatch_wf(sv, stepped.cursors, stepped.tick);
                assert forall|i: int| 0 <= i < self.track_positions@.len() implies (
                #[trigger] self.track_positions@[i]) <= song.tracks@[i]@.len() by {
                    assert(cursors_view(self.track_positions@)[i] == self.track_positions@[
                        i
                    ] as int);
                    assert(sv.tracks[i] == song.tracks@[i]@);
                }
            }
            let evs2 = drain_tick(&song.tracks, &mut self.track_positions, self.tick);
            forward_events(event_sink, &evs2, false);
            self.tempo = fold_tempo(&evs2, self.tempo);
            proof {
                let disp = drain_dispatch(sv.tracks, stepped.cursors, stepped.tick);
                assert(run_ticks(sv, st).0 == run_ticks(sv, drain_state(sv, stepped)).0);
                assert(run_ticks(sv, st).1 == disp + run_ticks(sv, drain_state(sv, stepped)).1);
                lemma_forwarded_add(sent, disp, false);
                assert(to_commands(forwarded(sent + disp, false)) =~= to_commands(
                    forwarded(sent, false),
                ) + to_commands(forwarded(disp, false)));
                assert(event_sink.commands() =~= old(event_sink).commands() + to_commands(
                    forwarded(sent + disp, false),
                ));
                sent = sent + disp;
                st = drain_state(sv, stepped);
                assert(target.1 =~= sent + run_ticks(sv, st).1);
            }
            d = tick_duration_nanos(song.division, self.tempo);
        }
        proof {
            assert(run_ticks(sv, st).0 == st);
            assert(run_ticks(sv, st).1 == Seq::<MidiEvent>::empty());
            assert(sent =~= target.1);
            assert(self.state() =~= target.0);
            assert(self.state() == target.0);
        }
    }

    /// One quiet replay step, for seeking: advance the position by exactly
    /// one tick's duration, step the tick clock, and deliver every event
    /// that became due except note-on messages, so that fast-forwarding
    /// never audibly re-triggers notes while controller, note-off, mode
    /// and tempo state stay consistent.
    fn update_events_quiet<R: MidiSink>(&mut self, event_sink: &mut R)
        requires
            old(self).inv(),
            old(self).loaded(),
            old(self).state().position + MAX_TICK_NANOS <= u64::MAX,
        ensures
            final(self).inv(),
            final(self).loaded(),
            final(self).song == old(self).song,
            final(self).song_length == old(self).song_length,
            final(self).song_view() == old(self).song_view(),
            final(self).length_spec() == old(self).length_spec(),
            final(self).state() == quiet_step(old(self).song_view(), old(self).state()).0,
            final(event_sink).commands() == old(event_sink).commands() + to_commands(
                forwarded(quiet_step(old(self).song_view(), old(self).state()).1, true),
            ),
    {
        let ghost sv = self.song_view();
        let ghost s0 = self.state();
        let d = self.current_tick_duration();
        self.song_position = self.song_position + d;
        self.tick = self.tick + 1;
        let ghost stepped = SeqState { position: s0.position + d, tick: s0.tick + 1, ..s0 };
        let song = self.song.as_ref().unwrap();
        proof {
            lemma_drain_state_ok(sv, stepped);
            lemma_drain_dispatch_wf(sv, stepped.cursors, stepped.tick);
            assert forall|i: int| 0 <= i < self.track_positions@.len() implies (
            #[trigger] self.track_positions@[i]) <= song.tracks@[i]@.len() by {
                assert(cursors_view(self.track_positions@)[i] == self.track_positions@[i] as int);
                assert(sv.tracks[i] == song.tracks@[i]@);
            }
        }
        let evs = drain_tick(&song.tracks, &mut self.track_positions, self.tick);
        forward_events(event_sink, &evs, true);
        self.tempo = fold_tempo(&evs, self.tempo);
        proof {
            assert(self.state() =~= quiet_step(sv, s0).0);
        }
    }

    /// Seek to an absolute position, nanoseconds.  A target behind the
    /// current position first rewinds everything to the top of the song
    /// and resets the sink, because cursors only move forward; then, in
    /// either direction, quiet single-tick replay runs until the position
    /// reaches the target.  Without a song this does nothing.
    pub fn seek_to<R: MidiSink>(&mut self, event_sink: &mut R, position: u64)
        requires
            old(self).inv(),
            old(self).state().position + MAX_TICK_NANOS <= u64::MAX,
            position + MAX_TICK_NANOS <= u64::MAX,
        ensures
            final(self).inv(),
            final(self).loaded() == old(self).loaded(),
            !old(self).loaded() ==> final(self).state() == old(self).state()
                && final(event_sink).commands() == old(event_sink).commands(),
            old(self).loaded() ==> {
                &&& final(self).song_view() == old(self).song_view()
                &&& final(self).length_spec() == old(self).length_spec()
                &&& final(self).state() == seek_model(
                    old(self).song_view(),
                    old(self).state(),
                    position as int,
                ).0
                &&& final(event_sink).commands() == old(event_sink).commands() + (if position
                    < old(self).state().position {
                    seq![SinkCommand::Reset]
                } else {
                    Seq::<SinkCommand>::empty()
                }) + to_commands(
                    forwarded(
                        seek_model(old(self).song_view(), old(self).state(), position as int).1,
                        true,
                    ),
                )
            },
    {
        if self.song.is_none() {
            return;
        }
        let ghost sv = self.song_view();
        let ghost s0 = self.state();
        let ghost prefix: Seq<SinkCommand> = (if position < self.song_position {
            seq![SinkCommand::Reset]
        } else {
            Seq::<SinkCommand>::empty()
        });
        if position < self.song_position {
            let n = self.track_positions.len();
            let mut i: usize = 0;
            while i < n
                invariant
                    0 <= i <= n,
                    self.track_positions@.len() == n,
                    forall|k: int| 0 <= k < i ==> self.track_positions@[k] == 0,
                    self.song == old(self).song,
                    self.song_length == old(self).song_length,
                decreases n - i,
            {
                self.track_positions.set(i, 0);
                i += 1;
            }
            self.tempo = DEFAULT_TEMPO_MICROS;
            self.tick = 0;
            self.song_position = 0;
            event_sink.reset();
            proof {
                assert(cursors_view(self.track_positions@) =~= initial_state(sv).cursors);
            }
        }
        self.since_last_tick = 0;
        let ghost rewound = (if (position as int) < s0.position {
            initial_state(sv)
        } else {
            SeqState { residual: 0, ..s0 }
        });
        let ghost target = replay_model(sv, rewound, position as int);
        let ghost mut st = rewound;
        let ghost mut sent: Seq<MidiEvent> = Seq::empty();
        proof {
            assert(self.state() =~= rewound);
            assert(event_sink.commands() =~= old(event_sink).commands() + prefix);
            assert(old(event_sink).commands() + prefix + to_commands(forwarded(sent, true))
                =~= old(event_sink).commands() + prefix);
        }
        while self.song_position < position
            invariant
                self.song == old(self).song,
                self.song_length == old(self).song_length,
                st == self.state(),
                cursors_ok(sv, st),
                0 <= st.residual,
                st.tick + st.residual <= st.position,
                target.0 == replay_model(sv, st, position as int).0,
                target.1 == sent + replay_model(sv, st, position as int).1,
                event_sink.commands() == old(event_sink).commands() + prefix + to_commands(
                    forwarded(sent, true),
                ),
            decreases (if self.song_position < position {
                position - self.song_position
            } else {
                0
            }),
        {
            let ghost before = st;
            self.update_events_quiet(event_sink);
            proof {
                let disp = quiet_step(sv, before).1;
                st = quiet_step(sv, before).0;
                lemma_quiet_step_props(sv, before);
                lemma_forwarded_add(sent, disp, true);
                assert(to_commands(forwarded(sent + disp, true)) =~= to_commands(
                    forwarded(sent, true),
                ) + to_commands(forwarded(disp, true)));
                assert(event_sink.commands() =~= old(event_sink).commands() + prefix
                    + to_commands(forwarded(sent + disp, true)));
                sent = sent + disp;
                assert(target.1 =~= sent + replay_model(sv, st, position as int).1);
            }
        }
        proof {
            assert(replay_model(sv, st, position as int).0 == st);
            assert(replay_model(sv, st, position as int).1 == Seq::<MidiEvent>::empty());
            assert(sent =~= target.1);
            assert(self.state() == seek_model(sv, s0, position as int).0);
            assert(event_sink.commands() =~= old(event_sink).commands() + prefix + to_commands(
                forwarded(seek_model(sv, s0, position as int).1, true),
            ));
        }
    }

    /// One tick's wall-clock duration under the current tempo and the
    /// loaded song's division, nanoseconds.
    fn current_tick_duration(&self) -> (r: u64)
        requires
            self.inv(),
            self.loaded(),
        ensures
            r as int == spec_tick_duration(self.song_view().division, self.state().tempo),
            1 <= r <= MAX_TICK_NANOS,
    {
        let division = match &self.song {
            Some(song) => song.division,
            None => TimeDivision::TicksPerQuarterNote(1),
        };
        tick_duration_nanos(division, self.tempo)
    }
}

/// Whether every cursor has reached the end of its track.
fn all_positions_done(song: &Song, positions: &Vec<usize>) -> (r: bool)
    requires
        positions.len() == song.tracks.len(),
    ensures
        r == all_done(song@, cursors_view(positions@)),
{
    let mut i: usize = 0;
    while i < positions.len()
        invariant
            0 <= i <= positions.len(),
            forall|k: int|
                0 <= k < i ==> cursors_view(positions@)[k] >= song@.tracks[k].len(),
        decreases positions.len() - i,
    {
        if positions[i] < song.tracks[i].len() {
            assert(cursors_view(positions@)[i as int] < song@.tracks[i as int].len());
            return false;
        }
        i += 1;
    }
    true
}

/// Consume, for every track, each event due at or before `tick`, moving
/// that track's cursor past it, and return the consumed events in delivery
/// order: track by track, within a track in file order.
fn drain_tick(tracks: &Vec<Vec<MidiEvent>>, positions: &mut Vec<usize>, tick: u64) -> (events: Vec<
    MidiEvent,
>)
    requires
        old(positions).len() == tracks.len(),
        forall|i: int|
            0 <= i < old(positions).len() ==> (#[trigger] old(positions)@[i]) <= tracks@[i]@.len(),
    ensures
        final(positions)@.len() == tracks@.len(),
        cursors_view(final(positions)@) == drain_cursors(
            vec_tracks_view(tracks@),
            cursors_view(old(positions)@),
            tick as int,
        ),
        events@ == drain_dispatch(
            vec_tracks_view(tracks@),
            cursors_view(old(positions)@),
            tick as int,
        ),
{
    let ghost tv = vec_tracks_view(tracks@);
    let ghost c0 = cursors_view(old(positions)@);
    let mut events: Vec<MidiEvent> = Vec::new();
    let mut i: usize = 0;
    while i < tracks.len()
        invariant
            0 <= i <= tracks.len(),
            positions.len() == tracks.len(),
            forall|k: int| i <= k < positions@.len() ==> positions@[k] == old(positions)@[k],
            forall|k: int|
                0 <= k < i ==> positions@[k] as int == drained_cursor(tv[k], c0[k], tick as int),
            forall|k: int| 0 <= k < positions@.len() ==> positions@[k] <= tracks@[k]@.len(),
            events@ == dispatch_upto(tv, c0, tick as int, i as int),
        decreases tracks.len() - i,
    {
        let track = &tracks[i];
        let ghost start = c0[i as int];
        assert(start == positions@[i as int] as int);
        while positions[i] < track.len() && track[positions[i]].tick <= tick
            invariant
                0 <= i < tracks.len(),
                positions.len() == tracks.len(),
                track@ == tv[i as int],
                forall|k: int| i < k < positions@.len() ==> positions@[k] == old(positions)@[k],
                forall|k: int|
                    0 <= k < i ==> positions@[k] as int == drained_cursor(
                        tv[k],
                        c0[k],
                        tick as int,
                    ),
                forall|k: int| 0 <= k < positions@.len() ==> positions@[k] <= tracks@[k]@.len(),
                start <= positions@[i as int] as int <= track@.len(),
                drained_cursor(tv[i as int], positions@[i as int] as int, tick as int)
                    == drained_cursor(tv[i as int], start, tick as int),
                events@ == dispatch_upto(tv, c0, tick as int, i as int) + tv[i as int].subrange(
                    start,
                    positions@[i as int] as int,
                ),
            decreases track@.len() - positions@[i as int],
        {
            let c = positions[i];
            let e = track[c];
            events.push(e);
            positions.set(i, c + 1);
            proof {
                assert(track@.subrange(start, c + 1 as int) =~= track@.subrange(
                    start,
                    c as int,
                ).push(track@[c as int]));
                assert(events@ =~= dispatch_upto(tv, c0, tick as int, i as int) + tv[
                    i as int
                ].subrange(start, c + 1 as int));
            }
        }
        proof {
            let c = positions@[i as int] as int;
            assert(drained_cursor(tv[i as int], c, tick as int) == c);
            assert(drained_cursor(tv[i as int], start, tick as int) == c);
            assert(track_dispatch(tv[i as int], c0[i as int], tick as int) == tv[
                i as int
            ].subrange(start, c));
            assert(events@ =~= dispatch_upto(tv, c0, tick as int, i + 1 as int));
        }
        i += 1;
    }
    proof {
        assert forall|k: int| 0 <= k < positions@.len() implies cursors_view(positions@)[k]
            == drain_cursors(tv, c0, tick as int)[k] by {}
        assert(cursors_view(positions@) =~= drain_cursors(tv, c0, tick as int));
    }
    events
}

/// Apply every tempo event of a dispatch, in order: the last one wins.
fn fold_tempo(events: &Vec<MidiEvent>, tempo: u32) -> (r: u32)
    requires
        tempo <= MAX_TEMPO_MICROS,
        forall|k: int| 0 <= k < events@.len() ==> wf_event(#[trigger] events@[k]),
    ensures
        r as int == tempo_after(events@, tempo as int),
        r <= MAX_TEMPO_MICROS,
{
    let mut r: u32 = tempo;
    let mut j: usize = 0;
    while j < events.len()
        invariant
            0 <= j <= events@.len(),
            r as int == tempo_after(events@.take(j as int), tempo as int),
            r <= MAX_TEMPO_MICROS,
        decreases events@.len() - j,
    {
        match events[j].payload {
            EventPayload::SetTempo { micros_per_quarter } => {
                assert(wf_event(events@[j as int]));
                r = micros_per_quarter;
            },
            _ => {},
        }
        proof {
            let t1 = events@.take(j + 1 as int);
            assert(t1.drop_last() =~= events@.take(j as int));
            assert(t1.last() == events@[j as int]);
        }
        j += 1;
    }
    proof {
        assert(events@.take(events@.len() as int) =~= events@);
    }
    r
}

/// Deliver to the sink every dispatched event it should see: channel-voice
/// and channel-mode messages, withholding note-on during quiet replay.  A
/// rejection by the sink is non-fatal: delivery goes on.
fn forward_events<R: MidiSink>(event_sink: &mut R, events: &Vec<MidiEvent>, quiet: bool)
    ensures
        final(event_sink).commands() == old(event_sink).commands() + to_commands(
            forwarded(events@, quiet),
        ),
{
    proof {
        assert(old(event_sink).commands() + to_commands(
            forwarded(events@.take(0), quiet),
        ) =~= old(event_sink).commands());
    }
    let mut j: usize = 0;
    while j < events.len()
        invariant
            0 <= j <= events@.len(),
            event_sink.commands() == old(event_sink).commands() + to_commands(
                forwarded(events@.take(j as int), quiet),
            ),
        decreases events@.len() - j,
    {
        let e = events[j];
        let deliver = match e.payload {
            EventPayload::NoteOn { .. } => !quiet,
            EventPayload::Voice { .. } => true,
            EventPayload::Mode { .. } => true,
            EventPayload::SetTempo { .. } => false,
            EventPayload::MetaOther => false,
            EventPayload::SystemOther => false,
        };
        if deliver {
            let _ = event_sink.receive_midi(&e);
        }
        proof {
            let before = forwarded(events@.take(j as int), quiet);
            let t1 = events@.take(j + 1 as int);
            assert(t1.drop_last() =~= events@.take(j as int));
            assert(t1.last() == events@[j as int]);
            if deliver {
                assert(forwarded(t1, quiet) =~= before.push(e));
                assert(to_commands(forwarded(t1, quiet)) =~= to_commands(before).push(
                    SinkCommand::Event(e),
                ));
                assert(event_sink.commands() =~= old(event_sink).commands() + to_commands(
                    forwarded(t1, quiet),
                ));
            } else {
                assert(forwarded(t1, quiet) =~= before);
            }
        }
        j += 1;
    }
    proof {
        assert(events@.take(events@.len() as int) =~= events@);
    }
}

/// One tick's wall-clock duration in nanoseconds, clamped to at least one.
fn tick_duration_nanos(division: TimeDivision, tempo: u32) -> (r: u64)
    requires
        wf_division(division),
        tempo <= MAX_TEMPO_MICROS,
    ensures
        r as int == spec_tick_duration(division, tempo as int),
        1 <= r <= MAX_TICK_NANOS,
{
    proof {
        lemma_tick_duration_bounds(division, tempo as int);
    }
    let raw: u64 = match division {
        TimeDivision::TicksPerQuarterNote(ppq) => (tempo as u64) * 1000 / (ppq as u64),
        TimeDivision::TimeCode { frames_per_second, ticks_per_frame } => {
            let fps: u64 = match frames_per_second {
                crate::song::FrameRate::Fps24 => 24,
                crate::song::FrameRate::Fps25 => 25,
                crate::song::FrameRate::Df30 => 30,
                crate::song::FrameRate::Ndf30 => 30,
            };
            1_000_000_000u64 / (fps * (ticks_per_frame as u64))
        },
    };
    if raw < 1 {
        1
    } else {
        raw
    }
}

} // verus!
