//! The error values of the terminal application's player layer, which
//! wraps the audio player.

use vstd::prelude::*;

verus! {

/// Why a player operation could not be carried out.
#[derive(Debug, Clone, Copy, PartialEq, Eq, Structural, Hash)]
pub enum PlayerError {
    /// No audio sink has been attached.
    AudioNoSink,
    /// No soundfont has been selected.
    AudioNoFont,
    /// No MIDI file has been selected.
    AudioNoMidi,
}

} // verus!
