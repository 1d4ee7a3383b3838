//! The event-sink capability the sequencer requires of its consumer: accept
//! one MIDI event (failure is non-fatal), and reset all voice and
//! controller state on a rewind.  A sink's behaviour is modelled as the
//! sequence of interactions it has seen, so that the sequencer's contracts
//! can say exactly which events were delivered, and in which order.

use vstd::prelude::*;

use crate::song::MidiEvent;

verus! {

/// One interaction between the sequencer and a sink.
#[derive(Clone, Copy, PartialEq, Eq, Structural, Debug)]
pub enum SinkCommand {
    /// An event was delivered.
    Event(MidiEvent),
    /// The sink was told to silence all voices and clear controller state.
    Reset,
}

/// Events wrapped as delivered sink commands, in order.
pub open spec fn to_commands(events: Seq<MidiEvent>) -> Seq<SinkCommand> {
    events.map_values(|e: MidiEvent| SinkCommand::Event(e))
}

/// Ability to receive messages.  `commands` is the ghost record of every
/// interaction, oldest first; both operations append to it, so a caller's
/// contract can name exactly what the sink was given.
pub trait MidiSink {
    /// Every interaction this sink has seen, oldest first.
    spec fn commands(&self) -> Seq<SinkCommand>;

    /// Accept one event.  `Err` means the event could not be used; the
    /// sequencer treats that as non-fatal and plays on.
    fn receive_midi(&mut self, event: &MidiEvent) -> (r: Result<(), ()>)
        ensures
            final(self).commands() == old(self).commands().push(SinkCommand::Event(*event)),
    ;

    /// Silence every sounding voice and clear controller state.
    fn reset(&mut self)
        ensures
            final(self).commands() == old(self).commands().push(SinkCommand::Reset),
    ;
}

/// A sink that simply records what it is given: the recording stub for
/// tests, and a collector for unverified hosts that forward the events to a
/// real synthesizer themselves.
pub struct RecordingSink {
    record: Vec<SinkCommand>,
}

impl RecordingSink {
    /// A sink with an empty record.
    pub fn new() -> (r: RecordingSink)
        ensures
            r.commands() == Seq::<SinkCommand>::empty(),
    {
        RecordingSink { record: Vec::new() }
    }

    /// The interactions seen so far, oldest first.
    pub fn recorded(&self) -> (r: &Vec<SinkCommand>)
        ensures
            r@ == self.commands(),
    {
        &self.record
    }

    /// Hand out the record and leave the sink empty.
    pub fn take_recorded(&mut self) -> (r: Vec<SinkCommand>)
        ensures
            r@ == old(self).commands(),
            final(self).commands() == Seq::<SinkCommand>::empty(),
    {
        let mut taken = Vec::new();
        core::mem::swap(&mut taken, &mut self.record);
        taken
    }
}

impl MidiSink for RecordingSink {
    closed spec fn commands(&self) -> Seq<SinkCommand> {
        self.record@
    }

    fn receive_midi(&mut self, event: &MidiEvent) -> (r: Result<(), ()>) {
        self.record.push(SinkCommand::Event(*event));
        Ok(())
    }

    fn reset(&mut self) {
        self.record.push(SinkCommand::Reset);
    }
}

} // verus!
