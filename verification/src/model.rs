//! The mathematical model of the sequencer: a functional description of one
//! playback state and of every operation on it.  The executable sequencer's
//! contracts say that its state evolves exactly as these functions do, and
//! the laws about playback are proved over them.

use vstd::prelude::*;

use crate::song::{
    wf_division, wf_event, wf_song, wf_track, EventPayload, MidiEvent, Song, TimeDivision,
    DEFAULT_TEMPO_MICROS, MAX_TEMPO_MICROS, MAX_TICK_NANOS,
};

verus! {

/// A song as the model sees it.
#[verifier::ext_equal]
pub ghost struct SongView {
    pub division: TimeDivision,
    pub tracks: Seq<Seq<MidiEvent>>,
}

impl View for Song {
    type V = SongView;

    open spec fn view(&self) -> SongView {
        SongView { division: self.division, tracks: self.tracks_view() }
    }
}

impl SongView {
    pub open spec fn well_formed(&self) -> bool {
        wf_song(self.division, self.tracks)
    }
}

/// The mutable playback state: current tempo (microseconds per quarter
/// note), one cursor per track, the tick clock, the residual wall-clock time
/// not yet consumed by a whole tick, and the elapsed song position.  All
/// times are integer nanoseconds.
#[verifier::ext_equal]
pub ghost struct SeqState {
    pub tempo: int,
    pub cursors: Seq<int>,
    pub tick: int,
    pub residual: int,
    pub position: int,
}

/// The state right after loading a song.
pub open spec fn initial_state(song: SongView) -> SeqState {
    SeqState {
        tempo: DEFAULT_TEMPO_MICROS as int,
        cursors: Seq::new(song.tracks.len(), |i: int| 0),
        tick: 0,
        residual: 0,
        position: 0,
    }
}

/// Structural bounds on the cursors, the tempo and the tick clock; the
/// part of `state_ok` that the offline length simulation also satisfies.
pub open spec fn cursors_ok(song: SongView, s: SeqState) -> bool {
    &&& s.cursors.len() == song.tracks.len()
    &&& forall|i: int|
        0 <= i < s.cursors.len() ==> 0 <= #[trigger] s.cursors[i] <= song.tracks[i].len()
    &&& 0 <= s.tempo <= MAX_TEMPO_MICROS
    &&& 0 <= s.tick
}

/// Structural bounds that every reachable playback state satisfies.  Each
/// tick consumes at least one nanosecond of residual, and residual only
/// grows with the position, so the clocks obey `tick + residual <=
/// position`; that keeps every quantity within machine range.
pub open spec fn state_ok(song: SongView, s: SeqState) -> bool {
    &&& cursors_ok(song, s)
    &&& 0 <= s.residual
    &&& s.tick + s.residual <= s.position
}

/// The numeric frame rate of a time-code division.
pub open spec fn frame_rate_value(fr: crate::song::FrameRate) -> int {
    match fr {
        crate::song::FrameRate::Fps24 => 24,
        crate::song::FrameRate::Fps25 => 25,
        crate::song::FrameRate::Df30 => 30,
        crate::song::FrameRate::Ndf30 => 30,
    }
}

/// Wall-clock nanoseconds of one tick under the given division and tempo.
/// For ticks per quarter note this is `tempo * 1000 / ppq`; for time code it
/// is `10^9 / (fps * tpf)`, independent of tempo.  The result is clamped to
/// at least one nanosecond so that time always advances.
pub open spec fn spec_tick_duration(division: TimeDivision, tempo: int) -> int {
    let raw = match division {
        TimeDivision::TicksPerQuarterNote(ppq) => tempo * 1000 / (ppq as int),
        TimeDivision::TimeCode { frames_per_second, ticks_per_frame } => {
            1_000_000_000int / (frame_rate_value(frames_per_second) * (ticks_per_frame as int))
        },
    };
    if raw < 1 {
        1
    } else {
        raw
    }
}

/// The cursor after consuming, from position `c` on, every event whose
/// timestamp is at or before `tick`.
pub open spec fn drained_cursor(t: Seq<MidiEvent>, c: int, tick: int) -> int
    decreases t.len() - c,
{
    if c < t.len() && t[c].tick <= tick {
        drained_cursor(t, c + 1, tick)
    } else {
        c
    }
}

/// The events one track dispatches when drained at `tick`.
pub open spec fn track_dispatch(t: Seq<MidiEvent>, c: int, tick: int) -> Seq<MidiEvent> {
    t.subrange(c, drained_cursor(t, c, tick))
}

/// All cursors after draining every track at `tick`.
pub open spec fn drain_cursors(tracks: Seq<Seq<MidiEvent>>, cursors: Seq<int>, tick: int) -> Seq<
    int,
> {
    Seq::new(cursors.len(), |i: int| drained_cursor(tracks[i], cursors[i], tick))
}

/// The events dispatched by tracks `0 .. n`, in track order.
pub open spec fn dispatch_upto(
    tracks: Seq<Seq<MidiEvent>>,
    cursors: Seq<int>,
    tick: int,
    n: int,
) -> Seq<MidiEvent>
    decreases n,
{
    if n <= 0 {
        Seq::empty()
    } else {
        dispatch_upto(tracks, cursors, tick, n - 1) + track_dispatch(
            tracks[n - 1],
            cursors[n - 1],
            tick,
        )
    }
}

/// Every event that draining at `tick` dispatches, in the order the engine
/// delivers them: track by track, and within a track in file order.
pub open spec fn drain_dispatch(
    tracks: Seq<Seq<MidiEvent>>,
    cursors: Seq<int>,
    tick: int,
) -> Seq<MidiEvent> {
    dispatch_upto(tracks, cursors, tick, tracks.len() as int)
}

/// The tempo after applying, in order, every tempo event of `events`: the
/// last one wins; without one the tempo is unchanged.
pub open spec fn tempo_after(events: Seq<MidiEvent>, tempo: int) -> int
    decreases events.len(),
{
    if events.len() == 0 {
        tempo
    } else {
        match events.last().payload {
            EventPayload::SetTempo { micros_per_quarter } => micros_per_quarter as int,
            _ => tempo_after(events.drop_last(), tempo),
        }
    }
}

/// One draining pass: consume every due event of every track and apply the
/// tempo events among them.  Tick, residual and position are untouched.
pub open spec fn drain_state(song: SongView, s: SeqState) -> SeqState {
    SeqState {
        cursors: drain_cursors(song.tracks, s.cursors, s.tick),
        tempo: tempo_after(drain_dispatch(song.tracks, s.cursors, s.tick), s.tempo),
        ..s
    }
}

/// A state is drained when no event at or before the current tick is left
/// unconsumed: each unfinished track's next event lies strictly ahead.
pub open spec fn drained(song: SongView, s: SeqState) -> bool {
    forall|i: int|
        0 <= i < s.cursors.len() && s.cursors[i] < song.tracks[i].len() ==> (
        #[trigger] song.tracks[i][s.cursors[i]]).tick > s.tick
}

/// Whether every track is fully consumed: the end-of-sequence condition.
pub open spec fn all_done(song: SongView, cursors: Seq<int>) -> bool {
    forall|i: int| 0 <= i < cursors.len() ==> #[trigger] cursors[i] >= song.tracks[i].len()
}

/// The tick loop of a live advance: as long as a whole tick's duration fits
/// in the residual, consume it, step the tick clock by one, and drain the
/// events that have just become due (which may retune the tempo used for
/// the next tick).  Returns the final state and everything dispatched.
pub open spec fn run_ticks(song: SongView, s: SeqState) -> (SeqState, Seq<MidiEvent>)
    decreases s.residual,
{
    let d = spec_tick_duration(song.division, s.tempo);
    if s.residual >= d {
        let stepped = SeqState { tick: s.tick + 1, residual: s.residual - d, ..s };
        let disp = drain_dispatch(song.tracks, stepped.cursors, stepped.tick);
        let (after, rest) = run_ticks(song, drain_state(song, stepped));
        (after, disp + rest)
    } else {
        (s, Seq::empty())
    }
}

/// A live advance by `delta` nanoseconds: account the elapsed time, drain
/// anything already due, then run the tick loop.
pub open spec fn advance_model(song: SongView, s: SeqState, delta: int) -> (
    SeqState,
    Seq<MidiEvent>,
) {
    let grown = SeqState { position: s.position + delta, residual: s.residual + delta, ..s };
    let disp = drain_dispatch(song.tracks, grown.cursors, grown.tick);
    let (after, rest) = run_ticks(song, drain_state(song, grown));
    (after, disp + rest)
}

/// One quiet replay step: advance the position by exactly one tick's
/// duration, step the tick clock, and drain what became due.
pub open spec fn quiet_step(song: SongView, s: SeqState) -> (SeqState, Seq<MidiEvent>) {
    let d = spec_tick_duration(song.division, s.tempo);
    let stepped = SeqState { position: s.position + d, tick: s.tick + 1, ..s };
    let disp = drain_dispatch(song.tracks, stepped.cursors, stepped.tick);
    (drain_state(song, stepped), disp)
}

/// Quiet replay until the position reaches `target`.
pub open spec fn replay_model(song: SongView, s: SeqState, target: int) -> (
    SeqState,
    Seq<MidiEvent>,
)
    decreases (if s.position < target {
        target - s.position
    } else {
        0
    }),
{
    if s.position < target {
        let (stepped, disp) = quiet_step(song, s);
        let (after, rest) = replay_model(song, stepped, target);
        (after, disp + rest)
    } else {
        (s, Seq::empty())
    }
}

/// A seek: rewind to the freshly-loaded state when the target lies behind
/// the current position (the caller must also reset its sink then), zero
/// the residual either way, and replay quietly up to the target.  The
/// boolean reports whether the rewind happened.
pub open spec fn seek_model(song: SongView, s: SeqState, target: int) -> (
    SeqState,
    Seq<MidiEvent>,
    bool,
) {
    let rewound = if target < s.position {
        initial_state(song)
    } else {
        SeqState { residual: 0, ..s }
    };
    let (after, disp) = replay_model(song, rewound, target);
    (after, disp, target < s.position)
}

/// Which dispatched events reach the sink.  During live playback every
/// channel-voice and channel-mode message is forwarded; during quiet replay
/// note-on messages are withheld.  Tempo, meta and system events are
/// consumed by the sequencer itself.
pub open spec fn event_forwarded(e: MidiEvent, quiet: bool) -> bool {
    match e.payload {
        EventPayload::NoteOn { .. } => !quiet,
        EventPayload::Voice { .. } => true,
        EventPayload::Mode { .. } => true,
        EventPayload::SetTempo { .. } => false,
        EventPayload::MetaOther => false,
        EventPayload::SystemOther => false,
    }
}

/// The subsequence of `events` that reaches the sink.
pub open spec fn forwarded(events: Seq<MidiEvent>, quiet: bool) -> Seq<MidiEvent>
    decreases events.len(),
{
    if events.len() == 0 {
        Seq::empty()
    } else {
        forwarded(events.drop_last(), quiet) + (if event_forwarded(events.last(), quiet) {
            seq![events.last()]
        } else {
            Seq::empty()
        })
    }
}

/// The offline song-length simulation, after the initial drain at tick
/// zero: while some track still has events, accumulate the current tick's
/// duration, step the tick clock, and drain.  The `stop` guard on the tick
/// clock only serves termination; it is never reached from a drained state,
/// as `lemma_length_loop_runs_out` shows.
pub open spec fn length_loop(song: SongView, s: SeqState, stop: int) -> int
    decreases (if s.tick <= stop {
        stop + 1 - s.tick
    } else {
        0
    }),
{
    if all_done(song, s.cursors) || s.tick > stop {
        0
    } else {
        let d = spec_tick_duration(song.division, s.tempo);
        let stepped = SeqState { tick: s.tick + 1, ..s };
        d + length_loop(song, drain_state(song, stepped), stop)
    }
}

/// The greatest timestamp among the events of tracks `from ..`, at cursors
/// `cursors`; `-1` when none is left.
pub open spec fn max_remaining_from(
    tracks: Seq<Seq<MidiEvent>>,
    cursors: Seq<int>,
    from: int,
) -> int
    decreases tracks.len() - from,
{
    if from < tracks.len() {
        let here = track_max_from(tracks[from], cursors[from]);
        let rest = max_remaining_from(tracks, cursors, from + 1);
        if here >= rest {
            here
        } else {
            rest
        }
    } else {
        -1
    }
}

/// The greatest timestamp among one track's events from `c` on; `-1` when
/// none is left.
pub open spec fn track_max_from(t: Seq<MidiEvent>, c: int) -> int
    decreases t.len() - c,
{
    if c < t.len() {
        let rest = track_max_from(t, c + 1);
        if t[c].tick as int >= rest {
            t[c].tick as int
        } else {
            rest
        }
    } else {
        -1
    }
}

/// The greatest timestamp among all remaining events.
pub open spec fn max_remaining(song: SongView, cursors: Seq<int>) -> int {
    max_remaining_from(song.tracks, cursors, 0)
}

/// The precomputed full-song duration: drain tick zero, then simulate to
/// the last event.  The tick-clock stop is the greatest timestamp in the
/// song, which the simulation is proved never to pass.
pub open spec fn song_length_model(song: SongView) -> int {
    let s0 = initial_state(song);
    let stop = max_remaining(song, s0.cursors);
    length_loop(song, drain_state(song, s0), stop)
}

} // verus!
