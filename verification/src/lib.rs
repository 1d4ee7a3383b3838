//! Playback-timing engine for Standard MIDI Files.
//!
//! The crate turns an already-parsed song (tracks of tick-stamped events plus
//! a time division) into a stream of dispatched MIDI events and, through the
//! audio source adapter, into a pull-based stereo sample stream.  All time
//! arithmetic is carried out in integer nanoseconds; the tempo is kept as the
//! number of microseconds per quarter note, exactly as a MIDI tempo meta
//! event stores it.
#![verifier::loop_isolation(false)]

pub mod laws;
pub mod lemmas;
pub mod midi_sequencer;
pub mod midi_source;
pub mod model;
pub mod player;
pub mod sink;
pub mod song;
pub mod tab;

pub use song::{EventPayload, FrameRate, MidiEvent, Song, TimeDivision};

use vstd::prelude::*;

verus! {

/// Why an audio-player operation could not be carried out.
#[derive(Debug, Clone, Copy, PartialEq, Eq, Structural, Hash)]
pub enum PlayerError {
    /// No audio sink has been attached.
    NoSink,
    /// No soundfont has been selected.
    NoFont,
    /// No MIDI file has been selected.
    NoMidi,
    /// No audio output device is available.
    NoDevice,
}

} // verus!
