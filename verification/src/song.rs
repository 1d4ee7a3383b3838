//! The data model of a loaded song: a time division plus tracks of
//! tick-stamped events, reduced to the plain values the playback engine
//! reads.  Anything the engine does not interpret (system-exclusive data,
//! text meta events, ...) is kept only as a classification.

use vstd::prelude::*;

verus! {

/// Largest tempo value a MIDI tempo meta event can carry: it is stored in
/// three bytes, as microseconds per quarter note.
pub const MAX_TEMPO_MICROS: u32 = 16_777_215;

/// Default tempo, microseconds per quarter note: 120 beats per minute.
pub const DEFAULT_TEMPO_MICROS: u32 = 500_000;

/// Upper bound accepted for an event's tick timestamp, so that a whole-song
/// simulation at the slowest possible tempo still fits in `u64` nanoseconds.
pub const MAX_EVENT_TICK: u64 = 1_000_000_000;

/// Upper bound on the wall-clock duration of a single tick, nanoseconds:
/// `MAX_TEMPO_MICROS * 1000` with one tick per quarter note.
pub const MAX_TICK_NANOS: u64 = 16_777_215_000;

/// Frame rate of a SMPTE time-code division.  Drop-frame and non-drop 30
/// both resolve to 30 frames per second for tick timing.
#[derive(Clone, Copy, PartialEq, Eq, Structural, Debug)]
pub enum FrameRate {
    Fps24,
    Fps25,
    Df30,
    Ndf30,
}

/// The meaning of one tick, from the file header: either tempo-relative
/// (ticks per quarter note) or absolute time code.
#[derive(Clone, Copy, PartialEq, Eq, Structural, Debug)]
pub enum TimeDivision {
    TicksPerQuarterNote(u16),
    TimeCode { frames_per_second: FrameRate, ticks_per_frame: u8 },
}

/// What the engine reads of a track event.  Channel-voice and channel-mode
/// messages carry the raw message bytes so a synthesis backend can consume
/// them; note-on is split out because quiet replay suppresses it.
#[derive(Clone, Copy, PartialEq, Eq, Structural, Debug)]
pub enum EventPayload {
    /// A note-on channel-voice message with non-zero velocity.
    NoteOn { channel: u8, key: u8, velocity: u8 },
    /// Any other channel-voice message (note-off, aftertouch, control
    /// change, program change, pitch bend), as status nibble plus data.
    Voice { channel: u8, command: u8, data1: u8, data2: u8 },
    /// A channel-mode message.
    Mode { channel: u8, control: u8, value: u8 },
    /// The tempo meta event: microseconds per quarter note.
    SetTempo { micros_per_quarter: u32 },
    /// Any other meta event: consumed, never forwarded.
    MetaOther,
    /// Any system message: consumed, never forwarded.
    SystemOther,
}

/// One event of a track, stamped with the tick at which it is due.
#[derive(Clone, Copy, PartialEq, Eq, Structural, Debug)]
pub struct MidiEvent {
    pub tick: u64,
    pub payload: EventPayload,
}

/// An already-parsed song: the time division and, per track, the events in
/// file order.  Timestamps are expected to be non-decreasing within a track
/// but the engine tolerates stragglers: a late event is still delivered.
#[derive(Clone, Debug)]
pub struct Song {
    pub division: TimeDivision,
    pub tracks: Vec<Vec<MidiEvent>>,
}

/// A vector of track vectors as a sequence of sequences.
pub open spec fn vec_tracks_view(tracks: Seq<Vec<MidiEvent>>) -> Seq<Seq<MidiEvent>> {
    tracks.map_values(|t: Vec<MidiEvent>| t@)
}

/// Executable track cursors as the model's unbounded integers.
pub open spec fn cursors_view(positions: Seq<usize>) -> Seq<int> {
    positions.map_values(|p: usize| p as int)
}

impl Song {
    /// The tracks as a mathematical sequence of sequences.
    pub open spec fn tracks_view(&self) -> Seq<Seq<MidiEvent>> {
        vec_tracks_view(self.tracks@)
    }

    /// Whether every event and the division are within the engine's bounds.
    pub open spec fn well_formed(&self) -> bool {
        wf_song(self.division, self.tracks_view())
    }

    /// Runtime check for `well_formed`, for callers outside verified code.
    pub fn is_well_formed(&self) -> (r: bool)
        ensures
            r == self.well_formed(),
    {
        let division_ok = match self.division {
            TimeDivision::TicksPerQuarterNote(ppq) => ppq >= 1,
            TimeDivision::TimeCode { frames_per_second: _, ticks_per_frame } => {
                ticks_per_frame >= 1
            },
        };
        if !division_ok {
            return false;
        }
        let mut i: usize = 0;
        while i < self.tracks.len()
            invariant
                0 <= i <= self.tracks.len(),
                wf_division(self.division),
                forall|k: int| 0 <= k < i ==> wf_track(#[trigger] self.tracks_view()[k]),
            decreases self.tracks.len() - i,
        {
            let track = &self.tracks[i];
            let mut j: usize = 0;
            while j < track.len()
                invariant
                    0 <= j <= track.len(),
                    forall|k: int| 0 <= k < j ==> wf_event(#[trigger] track@[k]),
                decreases track.len() - j,
            {
                let e = track[j];
                let tempo_ok = match e.payload {
                    EventPayload::SetTempo { micros_per_quarter } => {
                        micros_per_quarter <= MAX_TEMPO_MICROS
                    },
                    _ => true,
                };
                if e.tick > MAX_EVENT_TICK || !tempo_ok {
                    proof {
                        assert(self.tracks_view()[i as int] == track@);
                        assert(!wf_event(track@[j as int]));
                    }
                    return false;
                }
                j += 1;
            }
            assert(self.tracks_view()[i as int] == track@);
            i += 1;
        }
        true
    }
}

/// Bounds on the time division: a zero ticks-per-quarter or ticks-per-frame
/// would make a tick meaningless.
pub open spec fn wf_division(division: TimeDivision) -> bool {
    match division {
        TimeDivision::TicksPerQuarterNote(ppq) => ppq >= 1,
        TimeDivision::TimeCode { frames_per_second, ticks_per_frame } => ticks_per_frame >= 1,
    }
}

/// Bounds on one event: its tick fits the simulation range and a tempo
/// event carries at most the three-byte maximum.
pub open spec fn wf_event(e: MidiEvent) -> bool {
    &&& e.tick <= MAX_EVENT_TICK
    &&& match e.payload {
        EventPayload::SetTempo { micros_per_quarter } => micros_per_quarter <= MAX_TEMPO_MICROS,
        _ => true,
    }
}

/// Bounds on every event of one track.
pub open spec fn wf_track(t: Seq<MidiEvent>) -> bool {
    forall|i: int| 0 <= i < t.len() ==> wf_event(#[trigger] t[i])
}

/// Bounds on a whole song.
pub open spec fn wf_song(division: TimeDivision, tracks: Seq<Seq<MidiEvent>>) -> bool {
    &&& wf_division(division)
    &&& forall|i: int| 0 <= i < tracks.len() ==> wf_track(#[trigger] tracks[i])
}

} // verus!
