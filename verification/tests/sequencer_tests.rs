//! Tests of the sequencer: advancing, dispatch order, tempo handling,
//! song-length precomputation, seeking and end of sequence.

use key_dash::midi_sequencer::MidiSequencer;
use key_dash::sink::{RecordingSink, SinkCommand};
use key_dash::{EventPayload, FrameRate, MidiEvent, Song, TimeDivision};

fn note_on(tick: u64, key: u8) -> MidiEvent {
    MidiEvent { tick, payload: EventPayload::NoteOn { channel: 0, key, velocity: 100 } }
}

fn note_off(tick: u64, key: u8) -> MidiEvent {
    MidiEvent { tick, payload: EventPayload::Voice { channel: 0, command: 0x8, data1: key, data2: 0 } }
}

fn set_tempo(tick: u64, micros_per_quarter: u32) -> MidiEvent {
    MidiEvent { tick, payload: EventPayload::SetTempo { micros_per_quarter } }
}

/// The spec's concrete scenario: ppq 480, tempo set at tick 0 to 500000
/// microseconds per quarter (120 BPM), a note-on at tick 480 on track 0.
fn scenario_song() -> Song {
    Song {
        division: TimeDivision::TicksPerQuarterNote(480),
        tracks: vec![
            vec![set_tempo(0, 500_000), note_on(480, 60)],
            vec![note_off(960, 60)],
        ],
    }
}

fn count_note_ons(sink: &RecordingSink) -> usize {
    sink.recorded()
        .iter()
        .filter(|c| matches!(c, SinkCommand::Event(e) if matches!(e.payload, EventPayload::NoteOn { .. })))
        .count()
}

/// One tick at 120 BPM and 480 ticks per quarter note, in nanoseconds.
const TICK_120_480: u64 = 500_000_000 / 480;

#[test]
fn half_second_single_advance_reaches_tick_480() {
    let mut seq = MidiSequencer::new();
    seq.play(scenario_song());
    let mut sink = RecordingSink::new();
    seq.update_events(&mut sink, 500_000_000);
    assert_eq!(seq.current_tick(), 480);
    assert_eq!(count_note_ons(&sink), 1);
}

#[test]
fn half_second_chunked_advance_reaches_tick_480() {
    let mut seq = MidiSequencer::new();
    seq.play(scenario_song());
    let mut sink = RecordingSink::new();
    for _ in 0..5 {
        seq.update_events(&mut sink, 100_000_000);
    }
    assert_eq!(seq.current_tick(), 480);
    assert_eq!(seq.song_position(), 500_000_000);
    assert_eq!(count_note_ons(&sink), 1);
}

#[test]
fn chunking_dispatches_the_same_commands_in_the_same_order() {
    let mut seq_a = MidiSequencer::new();
    seq_a.play(scenario_song());
    let mut sink_a = RecordingSink::new();
    seq_a.update_events(&mut sink_a, 700_000_000);

    let mut seq_b = MidiSequencer::new();
    seq_b.play(scenario_song());
    let mut sink_b = RecordingSink::new();
    for _ in 0..7000 {
        seq_b.update_events(&mut sink_b, 100_000);
    }

    assert_eq!(sink_a.recorded(), sink_b.recorded());
    assert_eq!(seq_a.current_tick(), seq_b.current_tick());
    assert_eq!(seq_a.song_position(), seq_b.song_position());
    assert_eq!(seq_a.tempo_micros(), seq_b.tempo_micros());
}

#[test]
fn chunking_is_exact_across_a_tempo_change() {
    // The tempo doubles at tick 10: a chunk boundary near the change must
    // not alter which ticks see which tempo.
    let song = || Song {
        division: TimeDivision::TicksPerQuarterNote(480),
        tracks: vec![vec![set_tempo(0, 1_000_000), set_tempo(10, 500_000), note_on(20, 60)]],
    };
    let mut seq_a = MidiSequencer::new();
    seq_a.play(song());
    let mut sink_a = RecordingSink::new();
    seq_a.update_events(&mut sink_a, 40_000_000);

    let mut seq_b = MidiSequencer::new();
    seq_b.play(song());
    let mut sink_b = RecordingSink::new();
    for _ in 0..40 {
        seq_b.update_events(&mut sink_b, 1_000_000);
    }

    assert_eq!(sink_a.recorded(), sink_b.recorded());
    assert_eq!(seq_a.current_tick(), seq_b.current_tick());
    assert_eq!(seq_a.song_position(), seq_b.song_position());
    assert_eq!(seq_a.tempo_micros(), seq_b.tempo_micros());
}

#[test]
fn song_length_single_tempo() {
    // Last event at tick 960, one tick lasting 500000000 / 480 ns.
    let mut seq = MidiSequencer::new();
    seq.play(scenario_song());
    assert_eq!(seq.song_length(), 960 * TICK_120_480);
}

#[test]
fn song_length_with_slower_tempo_event() {
    // Tempo set to 1000000 us per quarter (60 BPM) at tick 0: each of the
    // 480 ticks lasts 1000000000 / 480 ns.
    let song = Song {
        division: TimeDivision::TicksPerQuarterNote(480),
        tracks: vec![vec![set_tempo(0, 1_000_000), note_on(480, 60)]],
    };
    let mut seq = MidiSequencer::new();
    seq.play(song);
    assert_eq!(seq.song_length(), 480 * (1_000_000_000 / 480));
}

#[test]
fn song_length_empty_song_is_zero() {
    let song = Song { division: TimeDivision::TicksPerQuarterNote(480), tracks: vec![] };
    let mut seq = MidiSequencer::new();
    seq.play(song);
    assert_eq!(seq.song_length(), 0);
    assert!(seq.end_of_sequence());
}

#[test]
fn time_code_division_is_tempo_independent() {
    // 25 fps, 40 ticks per frame: exactly 1000000 ns per tick, whatever
    // tempo events say.
    let song = Song {
        division: TimeDivision::TimeCode {
            frames_per_second: FrameRate::Fps25,
            ticks_per_frame: 40,
        },
        tracks: vec![vec![set_tempo(0, 1), note_on(10, 60)]],
    };
    let mut seq = MidiSequencer::new();
    seq.play(song);
    assert_eq!(seq.song_length(), 10 * 1_000_000);
    let mut sink = RecordingSink::new();
    seq.update_events(&mut sink, 10_000_000);
    assert_eq!(seq.current_tick(), 10);
    assert_eq!(count_note_ons(&sink), 1);
}

#[test]
fn late_events_are_delivered_not_dropped() {
    // The second event's timestamp lies before the first one's; it is
    // delivered late, right after its blocking predecessor, never lost.
    let song = Song {
        division: TimeDivision::TicksPerQuarterNote(480),
        tracks: vec![vec![note_on(5, 60), note_on(3, 61)]],
    };
    let mut seq = MidiSequencer::new();
    seq.play(song);
    let mut sink = RecordingSink::new();
    seq.update_events(&mut sink, 10 * TICK_120_480);
    let keys: Vec<u8> = sink
        .recorded()
        .iter()
        .filter_map(|c| match c {
            SinkCommand::Event(e) => match e.payload {
                EventPayload::NoteOn { key, .. } => Some(key),
                _ => None,
            },
            _ => None,
        })
        .collect();
    assert_eq!(keys, vec![60, 61]);
    assert!(seq.end_of_sequence());
}

#[test]
fn end_of_sequence_becomes_true_and_stays_true() {
    let mut seq = MidiSequencer::new();
    seq.play(scenario_song());
    let mut sink = RecordingSink::new();
    assert!(!seq.end_of_sequence());
    seq.update_events(&mut sink, 500_000_000);
    assert!(!seq.end_of_sequence());
    seq.update_events(&mut sink, 600_000_000);
    assert!(seq.end_of_sequence());
    seq.update_events(&mut sink, 100_000_000);
    assert!(seq.end_of_sequence());
    seq.update_events(&mut sink, 3_600_000_000_000);
    assert!(seq.end_of_sequence());
}

#[test]
fn empty_sequencer_reports_end_of_sequence() {
    let seq = MidiSequencer::new();
    assert!(seq.end_of_sequence());
    assert_eq!(seq.song_length(), 0);
    assert_eq!(seq.song_position(), 0);
}

#[test]
fn seek_forward_lands_within_one_tick_of_the_target() {
    let mut seq = MidiSequencer::new();
    seq.play(scenario_song());
    let mut sink = RecordingSink::new();
    let target = 250_000_000;
    seq.seek_to(&mut sink, target);
    let position = seq.song_position();
    assert!(position >= target);
    assert!(position < target + TICK_120_480);
    // 241 quiet steps of 1041666 ns each reach the target first.
    assert_eq!(position, 241 * TICK_120_480);
    assert_eq!(seq.current_tick(), 241);
}

#[test]
fn seek_backward_resets_the_sink_and_suppresses_note_on() {
    let mut seq = MidiSequencer::new();
    seq.play(scenario_song());
    let mut sink = RecordingSink::new();
    seq.update_events(&mut sink, 700_000_000);
    assert_eq!(count_note_ons(&sink), 1);
    let mut seek_sink = RecordingSink::new();
    seq.seek_to(&mut seek_sink, 600_000_000);
    // The rewind resets the sink once; the quiet replay then withholds
    // every note-on while passing the tempo event to the sequencer only.
    assert_eq!(seek_sink.recorded().first(), Some(&SinkCommand::Reset));
    assert_eq!(count_note_ons(&seek_sink), 0);
    assert!(seq.song_position() >= 600_000_000);
}

#[test]
fn seek_back_then_forward_reproduces_tempo_and_cursor_state() {
    let mut seq_a = MidiSequencer::new();
    seq_a.play(scenario_song());
    let mut sink = RecordingSink::new();
    seq_a.seek_to(&mut sink, 500_000_000);
    let tick_once = seq_a.current_tick();
    let position_once = seq_a.song_position();
    let tempo_once = seq_a.tempo_micros();

    let mut seq_b = MidiSequencer::new();
    seq_b.play(scenario_song());
    let mut sink_b = RecordingSink::new();
    seq_b.seek_to(&mut sink_b, 500_000_000);
    seq_b.seek_to(&mut sink_b, 200_000_000);
    seq_b.seek_to(&mut sink_b, 500_000_000);
    assert_eq!(seq_b.current_tick(), tick_once);
    assert_eq!(seq_b.song_position(), position_once);
    assert_eq!(seq_b.tempo_micros(), tempo_once);

    // Playback from here on behaves identically too.
    let mut after_a = RecordingSink::new();
    let mut after_b = RecordingSink::new();
    seq_a.update_events(&mut after_a, 300_000_000);
    seq_b.update_events(&mut after_b, 300_000_000);
    assert_eq!(after_a.recorded(), after_b.recorded());
    assert_eq!(seq_a.current_tick(), seq_b.current_tick());
}

#[test]
fn tempo_event_changes_tick_rate_mid_song() {
    // 60 BPM from tick 0; at tick 10 the tempo doubles to 120 BPM.  The
    // first 10 ticks last 1000000000/480 ns each, later ones half that.
    let song = Song {
        division: TimeDivision::TicksPerQuarterNote(480),
        tracks: vec![vec![set_tempo(0, 1_000_000), set_tempo(10, 500_000), note_on(20, 60)]],
    };
    let slow = 1_000_000_000u64 / 480;
    let fast = 500_000_000u64 / 480;
    let mut seq = MidiSequencer::new();
    seq.play(song);
    assert_eq!(seq.song_length(), 10 * slow + 10 * fast);
    let mut sink = RecordingSink::new();
    seq.update_events(&mut sink, 10 * slow);
    assert_eq!(seq.current_tick(), 10);
    assert_eq!(seq.tempo_micros(), 500_000);
}

#[test]
fn mode_and_voice_messages_are_forwarded_meta_is_not() {
    let song = Song {
        division: TimeDivision::TicksPerQuarterNote(480),
        tracks: vec![vec![
            MidiEvent { tick: 0, payload: EventPayload::Mode { channel: 1, control: 120, value: 0 } },
            MidiEvent { tick: 0, payload: EventPayload::MetaOther },
            MidiEvent { tick: 0, payload: EventPayload::SystemOther },
            note_off(0, 42),
        ]],
    };
    let mut seq = MidiSequencer::new();
    seq.play(song);
    let mut sink = RecordingSink::new();
    seq.update_events(&mut sink, 1);
    let recorded = sink.recorded();
    assert_eq!(recorded.len(), 2);
    assert!(matches!(recorded[0], SinkCommand::Event(e) if matches!(e.payload, EventPayload::Mode { .. })));
    assert!(matches!(recorded[1], SinkCommand::Event(e) if matches!(e.payload, EventPayload::Voice { .. })));
}

#[test]
fn zero_tempo_clamps_to_one_nanosecond_ticks() {
    // A tempo of zero microseconds per quarter would make ticks last no
    // time at all; the engine clamps a tick to one nanosecond so that
    // time always advances.
    let song = Song {
        division: TimeDivision::TicksPerQuarterNote(480),
        tracks: vec![vec![set_tempo(0, 0), note_on(5, 60)]],
    };
    let mut seq = MidiSequencer::new();
    seq.play(song);
    assert_eq!(seq.song_length(), 5);
    let mut sink = RecordingSink::new();
    seq.update_events(&mut sink, 5);
    assert_eq!(seq.current_tick(), 5);
    assert!(seq.end_of_sequence());
}

#[test]
fn largest_timestamp_is_accepted_and_larger_is_not() {
    let at_bound = Song {
        division: TimeDivision::TicksPerQuarterNote(480),
        tracks: vec![vec![note_on(1_000_000_000, 60)]],
    };
    assert!(at_bound.is_well_formed());
    let past_bound = Song {
        division: TimeDivision::TicksPerQuarterNote(480),
        tracks: vec![vec![note_on(1_000_000_001, 60)]],
    };
    assert!(!past_bound.is_well_formed());
}

#[test]
fn well_formedness_check_accepts_and_rejects() {
    assert!(scenario_song().is_well_formed());
    let zero_division = Song { division: TimeDivision::TicksPerQuarterNote(0), tracks: vec![] };
    assert!(!zero_division.is_well_formed());
    let huge_tick = Song {
        division: TimeDivision::TicksPerQuarterNote(480),
        tracks: vec![vec![note_on(1_000_000_001, 60)]],
    };
    assert!(!huge_tick.is_well_formed());
    let huge_tempo = Song {
        division: TimeDivision::TicksPerQuarterNote(480),
        tracks: vec![vec![set_tempo(0, 16_777_216)]],
    };
    assert!(!huge_tempo.is_well_formed());
}

#[test]
fn loading_a_new_song_replaces_all_state() {
    let mut seq = MidiSequencer::new();
    seq.play(scenario_song());
    let mut sink = RecordingSink::new();
    seq.update_events(&mut sink, 700_000_000);
    let replacement = Song {
        division: TimeDivision::TicksPerQuarterNote(96),
        tracks: vec![vec![note_on(96, 50)]],
    };
    seq.play(replacement);
    assert_eq!(seq.song_position(), 0);
    assert_eq!(seq.current_tick(), 0);
    assert_eq!(seq.tempo_micros(), 500_000);
    assert_eq!(seq.song_length(), 96 * (500_000_000 / 96));
    assert!(!seq.end_of_sequence());
}
