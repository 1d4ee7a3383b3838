//! Tests of the audio source: the left/right interleave trick, the
//! end-of-stream condition, seeking passthrough, and stream metadata.

use key_dash::midi_source::{MidiSource, RecordingToneGenerator, DEFAULT_SAMPLE_RATE};
use key_dash::sink::SinkCommand;
use key_dash::{EventPayload, MidiEvent, Song, TimeDivision};

fn note_on(tick: u64, key: u8) -> MidiEvent {
    MidiEvent { tick, payload: EventPayload::NoteOn { channel: 0, key, velocity: 100 } }
}

fn short_song() -> Song {
    Song {
        division: TimeDivision::TicksPerQuarterNote(480),
        tracks: vec![vec![note_on(0, 60), note_on(480, 62)]],
    }
}

#[test]
fn pulls_alternate_left_and_attenuated_cached_right() {
    let source_song = short_song();
    let mut source = MidiSource::new(RecordingToneGenerator::new(), source_song);
    // The stub's first frames are (0, 101), (2, 103), (4, 105); the master
    // attenuation halves each sample.
    assert_eq!(source.produce_next_sample(), Some(0));
    assert_eq!(source.produce_next_sample(), Some(50));
    assert_eq!(source.produce_next_sample(), Some(1));
    assert_eq!(source.produce_next_sample(), Some(51));
    assert_eq!(source.produce_next_sample(), Some(2));
    assert_eq!(source.produce_next_sample(), Some(52));
}

#[test]
fn sequencer_advances_exactly_once_per_two_pulls() {
    let mut source = MidiSource::new(RecordingToneGenerator::new(), short_song());
    let delta = 1_000_000_000u64 / DEFAULT_SAMPLE_RATE as u64;
    for frame in 1..=5u64 {
        source.produce_next_sample();
        assert_eq!(source.generator().rendered_frames().len(), frame as usize);
        assert_eq!(source.song_position(), frame * delta);
        source.produce_next_sample();
        assert_eq!(source.generator().rendered_frames().len(), frame as usize);
        assert_eq!(source.song_position(), frame * delta);
    }
}

#[test]
fn stream_ends_once_the_song_is_consumed() {
    let song = Song {
        division: TimeDivision::TicksPerQuarterNote(480),
        tracks: vec![vec![note_on(0, 60)]],
    };
    let mut source = MidiSource::new(RecordingToneGenerator::new(), song);
    // The only event sits at tick 0: the very first advance consumes it,
    // and the end-of-sequence check on the following pull ends the stream
    // before the cached right sample would have been served.
    assert!(source.produce_next_sample().is_some());
    assert_eq!(source.produce_next_sample(), None);
    assert_eq!(source.produce_next_sample(), None);
}

#[test]
fn first_advance_dispatches_tick_zero_events_to_the_generator() {
    let mut source = MidiSource::new(RecordingToneGenerator::new(), short_song());
    assert_eq!(source.generator().recorded().len(), 0);
    source.produce_next_sample();
    let recorded = source.generator().recorded();
    assert_eq!(recorded.len(), 1);
    assert!(matches!(recorded[0], SinkCommand::Event(e)
        if matches!(e.payload, EventPayload::NoteOn { key: 60, .. })));
}

#[test]
fn metadata_reports_duration_rate_and_channels() {
    let mut source = MidiSource::new(RecordingToneGenerator::new(), short_song());
    assert_eq!(source.channels(), 2);
    assert_eq!(source.sample_rate(), 44100);
    let length = 480 * (500_000_000u64 / 480);
    assert_eq!(source.song_length(), length);
    let expected_samples = (length as u128 * 44100 / 1_000_000_000) as usize;
    assert_eq!(source.current_frame_len(), expected_samples);
    // After one stereo frame, one sample period has elapsed.
    source.produce_next_sample();
    source.produce_next_sample();
    let remaining = length - 1_000_000_000 / 44100;
    assert_eq!(
        source.current_frame_len(),
        (remaining as u128 * 44100 / 1_000_000_000) as usize,
    );
}

#[test]
fn seek_passes_through_to_the_sequencer() {
    let mut source = MidiSource::new(RecordingToneGenerator::new(), short_song());
    let tick = 500_000_000u64 / 480;
    source.try_seek(250_000_000);
    let position = source.song_position();
    assert!(position >= 250_000_000);
    assert!(position < 250_000_000 + tick);
    // Seeking forward from the start rewinds nothing and renders nothing.
    assert_eq!(source.generator().rendered_frames().len(), 0);
    assert!(!source.generator().recorded().iter().any(|c| matches!(c, SinkCommand::Reset)));
    // Seeking backward resets the generator's voices.
    source.try_seek(0);
    assert!(source.generator().recorded().iter().any(|c| matches!(c, SinkCommand::Reset)));
}

#[test]
fn seek_keeps_the_cached_right_sample_for_one_pull() {
    let mut source = MidiSource::new(RecordingToneGenerator::new(), short_song());
    assert_eq!(source.produce_next_sample(), Some(0));
    // Mid-frame seek: the next pull still serves the stale cached right
    // value, bounded to this one sample.
    source.try_seek(100_000_000);
    assert_eq!(source.produce_next_sample(), Some(50));
    // The pull after that renders a fresh frame again.
    assert_eq!(source.produce_next_sample(), Some(1));
}
