//! The audio-source adapter: presents a sequencer plus a tone generator as
//! a pull-based sample stream whose consumer pulls one channel value at a
//! time, although the generator renders a whole stereo frame at once.  On
//! a left pull the sequencer advances by one sample period and a frame is
//! rendered; the right channel value is cached, attenuated, and served on
//! the next pull, so the sequencer advances exactly once per stereo frame.

use vstd::prelude::*;

use crate::midi_sequencer::MidiSequencer;
use crate::model::{advance_model, all_done, forwarded, initial_state, seek_model, SeqState, SongView};
use crate::sink::{to_commands, RecordingSink, SinkCommand};
use crate::song::{MidiEvent, Song, MAX_TICK_NANOS};

verus! {

/// Which channel the next pull serves.
#[derive(Clone, Copy, PartialEq, Eq, Structural, Debug)]
pub enum Channel {
    L,
    R,
}

/// How many whole samples fit into the play time remaining before the
/// precomputed song end, at the given sample rate.
pub open spec fn samples_remaining(length: int, position: int, rate: int) -> int {
    let remaining = if position <= length {
        length - position
    } else {
        0
    };
    remaining * rate / 1_000_000_000
}

/// The tone-generator capability: consume channel-voice and channel-mode
/// events, render stereo sample frames, apply a master attenuation, and
/// reset all voice state on a rewind.  `commands` is the ghost record of
/// every event interaction and `frames` that of every rendered frame, so
/// that a caller's contract can name exactly which events the generator
/// was given and which sample values it served; consuming events never
/// renders, and rendering never consumes.
pub trait ToneGenerator<S> {
    /// Every event interaction so far, oldest first.  A backend outside
    /// verified code can leave this ghost record at its default; nothing
    /// verified depends on such a backend's record.
    open spec fn commands(&self) -> Seq<SinkCommand> {
        Seq::empty()
    }

    /// Every stereo frame rendered so far, oldest first.
    open spec fn frames(&self) -> Seq<(S, S)> {
        Seq::empty()
    }

    /// What `attenuate` returns for a sample.
    open spec fn attenuated(&self, sample: S) -> S {
        sample
    }

    /// Consume one event and update voice state.  `Err` means the event
    /// could not be used; callers treat that as non-fatal.
    fn receive_event(&mut self, event: &MidiEvent) -> (r: Result<(), ()>)
        ensures
            final(self).commands() == old(self).commands().push(SinkCommand::Event(*event)),
            final(self).frames() == old(self).frames(),
    ;

    /// Silence every voice and clear controller state.
    fn reset(&mut self)
        ensures
            final(self).commands() == old(self).commands().push(SinkCommand::Reset),
            final(self).frames() == old(self).frames(),
    ;

    /// Render the next stereo frame.
    fn render(&mut self) -> (r: (S, S))
        ensures
            final(self).frames() == old(self).frames().push(r),
            final(self).commands() == old(self).commands(),
    ;

    /// Apply the generator's master attenuation to one sample.
    fn attenuate(&self, sample: S) -> (r: S)
        ensures
            r == self.attenuated(sample),
    ;
}

/// A tone generator that records what it is given and renders a
/// deterministic ramp of samples: the recording stub for exercising the
/// audio source without a synthesis backend.  The `n`-th frame is
/// `(2 n, 2 n + 101)`, wrapping well before any overflow, and the master
/// attenuation halves a sample, so left and right values stay told apart
/// through the attenuation.
pub struct RecordingToneGenerator {
    record: Vec<SinkCommand>,
    rendered: Vec<(i64, i64)>,
    next_value: i64,
}

impl RecordingToneGenerator {
    /// A generator with nothing recorded and the ramp at zero.
    pub fn new() -> (r: RecordingToneGenerator)
        ensures
            r.commands() == Seq::<SinkCommand>::empty(),
            r.frames() == Seq::<(i64, i64)>::empty(),
    {
        RecordingToneGenerator { record: Vec::new(), rendered: Vec::new(), next_value: 0 }
    }

    /// The event interactions seen so far, oldest first.
    pub fn recorded(&self) -> (r: &Vec<SinkCommand>)
        ensures
            r@ == self.commands(),
    {
        &self.record
    }

    /// The frames rendered so far, oldest first.
    pub fn rendered_frames(&self) -> (r: &Vec<(i64, i64)>)
        ensures
            r@ == self.frames(),
    {
        &self.rendered
    }
}

impl ToneGenerator<i64> for RecordingToneGenerator {
    closed spec fn commands(&self) -> Seq<SinkCommand> {
        self.record@
    }

    closed spec fn frames(&self) -> Seq<(i64, i64)> {
        self.rendered@
    }

    open spec fn attenuated(&self, sample: i64) -> i64 {
        if sample < 0 {
            0
        } else {
            (sample / 2) as i64
        }
    }

    fn receive_event(&mut self, event: &MidiEvent) -> (r: Result<(), ()>) {
        self.record.push(SinkCommand::Event(*event));
        Ok(())
    }

    fn reset(&mut self) {
        self.record.push(SinkCommand::Reset);
        self.next_value = 0;
    }

    fn render(&mut self) -> (r: (i64, i64)) {
        let current = self.next_value;
        let v: i64 = if current < 0 || current > 1_000_000 {
            0
        } else {
            current
        };
        self.next_value = v + 2;
        let frame = (v, v + 101);
        self.rendered.push(frame);
        frame
    }

    fn attenuate(&self, sample: i64) -> (r: i64) {
        if sample < 0 {
            0
        } else {
            sample / 2
        }
    }
}

/// Replay a recorded command sequence into a tone generator, in order.
fn forward_to_generator<S, G: ToneGenerator<S>>(generator: &mut G, commands: &Vec<SinkCommand>)
    ensures
        final(generator).commands() == old(generator).commands() + commands@,
        final(generator).frames() == old(generator).frames(),
{
    proof {
        assert(old(generator).commands() + commands@.take(0) =~= old(generator).commands());
    }
    let mut j: usize = 0;
    while j < commands.len()
        invariant
            0 <= j <= commands@.len(),
            generator.commands() == old(generator).commands() + commands@.take(j as int),
            generator.frames() == old(generator).frames(),
        decreases commands@.len() - j,
    {
        match commands[j] {
            SinkCommand::Event(event) => {
                let _ = generator.receive_event(&event);
            },
            SinkCommand::Reset => {
                generator.reset();
            },
        }
        proof {
            assert(commands@.take(j + 1 as int) =~= commands@.take(j as int).push(commands@[
                j as int
            ]));
            assert(generator.commands() =~= old(generator).commands() + commands@.take(
                j + 1 as int,
            ));
        }
        j += 1;
    }
    proof {
        assert(commands@.take(commands@.len() as int) =~= commands@);
    }
}

/// Audio source over a sequencer and a tone generator.  The disposable
/// value is consumed by one playback session per song.
pub struct MidiSource<S: Copy, G: ToneGenerator<S>> {
    /// The actual audio generator.
    synthesizer: G,
    /// The MIDI file sequencer.
    sequencer: MidiSequencer,
    /// One sample's worth of time, nanoseconds.
    delta: u64,
    /// Samples per second, fixed at construction.
    sample_rate: u32,
    /// The cached, already-attenuated right-channel sample.
    cached_sample: Option<S>,
    /// Which channel the next pull serves.
    next_channel: Channel,
}

/// Samples per second used when none is given.
pub const DEFAULT_SAMPLE_RATE: u32 = 44100;

impl<S: Copy, G: ToneGenerator<S>> MidiSource<S, G> {
    /// The loaded song, as the model sees it.
    pub closed spec fn song_view(&self) -> SongView {
        self.sequencer.song_view()
    }

    /// The sequencer's playback state, as the model sees it.
    pub closed spec fn seq_state(&self) -> SeqState {
        self.sequencer.state()
    }

    /// One sample period, nanoseconds.
    pub closed spec fn delta_spec(&self) -> int {
        self.delta as int
    }

    /// The fixed sample rate.
    pub closed spec fn rate_spec(&self) -> int {
        self.sample_rate as int
    }

    /// Which channel the next pull serves.
    pub closed spec fn channel_spec(&self) -> Channel {
        self.next_channel
    }

    /// The cached right-channel sample, already attenuated.
    pub closed spec fn cached_spec(&self) -> Option<S> {
        self.cached_sample
    }

    /// The generator's interaction record.
    pub closed spec fn commands(&self) -> Seq<SinkCommand> {
        self.synthesizer.commands()
    }

    /// The generator's rendered frames.
    pub closed spec fn frames(&self) -> Seq<(S, S)> {
        self.synthesizer.frames()
    }

    /// What the generator's attenuation does to one sample.
    pub closed spec fn attenuated_of(&self, sample: S) -> S {
        self.synthesizer.attenuated(sample)
    }

    /// The invariant: a song is loaded, the sequencer is sound, the sample
    /// period is one to one second, and a right pull always has a cached
    /// sample to serve.
    pub closed spec fn inv(&self) -> bool {
        &&& self.sequencer.inv()
        &&& self.sequencer.loaded()
        &&& 1 <= self.delta <= 1_000_000_000
        &&& (self.next_channel == Channel::R ==> match self.cached_sample {
            Option::Some(_) => true,
            Option::None => false,
        })
    }

    /// A source over the given generator and song, at the default sample
    /// rate, that immediately starts playing from the top.
    pub fn new(synthesizer: G, midi_file: Song) -> (r: Self)
        requires
            midi_file.well_formed(),
        ensures
            r.inv(),
            r.song_view() == midi_file@,
            r.seq_state() == initial_state(midi_file@),
            r.rate_spec() == DEFAULT_SAMPLE_RATE as int,
            r.delta_spec() == 1_000_000_000int / (DEFAULT_SAMPLE_RATE as int),
            r.channel_spec() == Channel::L,
            r.commands() == synthesizer.commands(),
            r.frames() == synthesizer.frames(),
    {
        Self::with_sample_rate(synthesizer, midi_file, DEFAULT_SAMPLE_RATE)
    }

    /// A source at an explicit sample rate.
    fn with_sample_rate(synthesizer: G, midi_file: Song, sample_rate: u32) -> (r: Self)
        requires
            midi_file.well_formed(),
            1 <= sample_rate <= 1_000_000_000,
        ensures
            r.inv(),
            r.song_view() == midi_file@,
            r.seq_state() == initial_state(midi_file@),
            r.rate_spec() == sample_rate as int,
            r.delta_spec() == 1_000_000_000int / (sample_rate as int),
            r.channel_spec() == Channel::L,
            r.commands() == synthesizer.commands(),
            r.frames() == synthesizer.frames(),
    {
        proof {
            assert(1 <= 1_000_000_000int / (sample_rate as int) <= 1_000_000_000)
                by (nonlinear_arith)
                requires
                    1 <= sample_rate <= 1_000_000_000,
            ;
        }
        let delta: u64 = 1_000_000_000u64 / (sample_rate as u64);
        let mut sequencer = MidiSequencer::new();
        sequencer.play(midi_file);
        MidiSource {
            synthesizer,
            sequencer,
            delta,
            sample_rate,
            cached_sample: None,
            next_channel: Channel::L,
        }
    }

    /// Precomputed duration of the song, nanoseconds.
    pub fn song_length(&self) -> (r: u64)
        requires
            self.inv(),
        ensures
            r as int == crate::model::song_length_model(self.song_view()),
    {
        self.sequencer.song_length()
    }

    /// Elapsed playback time, nanoseconds.
    pub fn song_position(&self) -> (r: u64)
        ensures
            r as int == self.seq_state().position,
    {
        self.sequencer.song_position()
    }

    /// The channel count of the stream: always stereo.
    pub fn channels(&self) -> (r: u16)
        ensures
            r == 2,
    {
        2
    }

    /// Samples per second, as fixed at construction.
    pub fn sample_rate(&self) -> (r: u32)
        ensures
            r as int == self.rate_spec(),
    {
        self.sample_rate
    }

    /// Borrow the tone generator, to inspect what it has been given.
    pub fn generator(&self) -> (r: &G)
        ensures
            r.commands() == self.commands(),
            r.frames() == self.frames(),
            forall|s: S| #[trigger] r.attenuated(s) == self.attenuated_of(s),
    {
        &self.synthesizer
    }

    /// An estimate of the samples still to come: the remaining play time
    /// times the sample rate, rounded down, saturated at `usize::MAX`.
    pub fn current_frame_len(&self) -> (r: usize)
        requires
            self.inv(),
        ensures
            r as int == ({
                let estimate = samples_remaining(
                    crate::model::song_length_model(self.song_view()),
                    self.seq_state().position,
                    self.rate_spec(),
                );
                if estimate > usize::MAX as int {
                    usize::MAX as int
                } else {
                    estimate
                }
            }),
    {
        let length = self.sequencer.song_length();
        let position = self.sequencer.song_position();
        let remaining: u64 = if position <= length {
            length - position
        } else {
            0
        };
        proof {
            assert((remaining as int) * (self.sample_rate as int) <= (u64::MAX as int) * (
            u32::MAX as int)) by (nonlinear_arith)
                requires
                    0 <= remaining <= u64::MAX,
                    0 <= self.sample_rate <= u32::MAX,
            ;
        }
        let estimate: u128 = (remaining as u128) * (self.sample_rate as u128) / 1_000_000_000u128;
        if estimate > usize::MAX as u128 {
            usize::MAX
        } else {
            estimate as usize
        }
    }

    /// Produce the next channel sample.  `None` once every track of the
    /// song is fully consumed: the stream ends.  A left pull advances the
    /// sequencer by one sample period with the generator as the event
    /// sink, renders one stereo frame, serves the attenuated left value
    /// and caches the attenuated right value; a right pull serves the
    /// cache and touches nothing else, so the sequencer advances exactly
    /// once per two pulls.
    pub fn produce_next_sample(&mut self) -> (r: Option<S>)
        requires
            old(self).inv(),
            old(self).seq_state().position + old(self).delta_spec() <= u64::MAX,
        ensures
            final(self).inv(),
            final(self).song_view() == old(self).song_view(),
            final(self).delta_spec() == old(self).delta_spec(),
            final(self).rate_spec() == old(self).rate_spec(),
            all_done(old(self).song_view(), old(self).seq_state().cursors) ==> {
                &&& r is None
                &&& final(self).seq_state() == old(self).seq_state()
                &&& final(self).commands() == old(self).commands()
                &&& final(self).frames() == old(self).frames()
                &&& final(self).channel_spec() == old(self).channel_spec()
            },
            !all_done(old(self).song_view(), old(self).seq_state().cursors) && old(
                self,
            ).channel_spec() == Channel::L ==> {
                &&& final(self).seq_state() == advance_model(
                    old(self).song_view(),
                    old(self).seq_state(),
                    old(self).delta_spec(),
                ).0
                &&& final(self).commands() == old(self).commands() + to_commands(
                    forwarded(
                        advance_model(
                            old(self).song_view(),
                            old(self).seq_state(),
                            old(self).delta_spec(),
                        ).1,
                        false,
                    ),
                )
                &&& final(self).frames() == old(self).frames().push(
                    final(self).frames().last(),
                )
                &&& r == Option::Some(final(self).attenuated_of(final(self).frames().last().0))
                &&& final(self).cached_spec() == Option::Some(
                    final(self).attenuated_of(final(self).frames().last().1),
                )
                &&& final(self).channel_spec() == Channel::R
            },
            !all_done(old(self).song_view(), old(self).seq_state().cursors) && old(
                self,
            ).channel_spec() == Channel::R ==> {
                &&& r == old(self).cached_spec()
                &&& r is Some
                &&& final(self).seq_state() == old(self).seq_state()
                &&& final(self).commands() == old(self).commands()
                &&& final(self).frames() == old(self).frames()
                &&& final(self).channel_spec() == Channel::L
            },
    {
        if self.sequencer.end_of_sequence() {
            return None;
        }
        match self.next_channel {
            Channel::L => {
                self.next_channel = Channel::R;
                let mut collector = RecordingSink::new();
                self.sequencer.update_events(&mut collector, self.delta);
                forward_to_generator(&mut self.synthesizer, collector.recorded());
                let frame = self.synthesizer.render();
                let (left, right) = frame;
                let cached = self.synthesizer.attenuate(right);
                let out = self.synthesizer.attenuate(left);
                self.cached_sample = Some(cached);
                Some(out)
            },
            Channel::R => {
                self.next_channel = Channel::L;
                self.cached_sample
            },
        }
    }

    /// Seek to an absolute position, nanoseconds, forwarding to the
    /// sequencer with the generator as the sink.  The left/right cache is
    /// deliberately not reset: a seek between the two pulls of one frame
    /// serves at most one stale cached sample.
    pub fn try_seek(&mut self, position: u64)
        requires
            old(self).inv(),
            old(self).seq_state().position + MAX_TICK_NANOS <= u64::MAX,
            position + MAX_TICK_NANOS <= u64::MAX,
        ensures
            final(self).inv(),
            final(self).song_view() == old(self).song_view(),
            final(self).delta_spec() == old(self).delta_spec(),
            final(self).rate_spec() == old(self).rate_spec(),
            final(self).channel_spec() == old(self).channel_spec(),
            final(self).cached_spec() == old(self).cached_spec(),
            final(self).seq_state() == seek_model(
                old(self).song_view(),
                old(self).seq_state(),
                position as int,
            ).0,
            final(self).commands() == old(self).commands() + (if (position as int) < old(
                self,
            ).seq_state().position {
                seq![SinkCommand::Reset]
            } else {
                Seq::<SinkCommand>::empty()
            }) + to_commands(
                forwarded(
                    seek_model(old(self).song_view(), old(self).seq_state(), position as int).1,
                    true,
                ),
            ),
    {
        let mut collector = RecordingSink::new();
        self.sequencer.seek_to(&mut collector, position);
        forward_to_generator(&mut self.synthesizer, collector.recorded());
    }
}

} // verus!
