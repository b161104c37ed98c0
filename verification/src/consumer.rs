//! The snapshot consumer: what is captured of one snapshot, and where, and
//! what follows when capturing fails.
//!
//! The consumer's driver receives snapshots until the channel is closed. For
//! each it measures the distances, asks here what to write, and writes it in
//! three steps: create the file, serialise the pilots, write the bytes. The
//! consumer decides what comes after each step. A snapshot that cannot be
//! captured is given up and the next one is taken: nothing but the end of the
//! stream ends the run.

use crate::airport::Airport;
use crate::capture::{capture_name, capture_path};
use crate::filter::{filter_pilots_by_distance_and_field, relevant_pilots, CAPTURE_RANGE_NM};
use crate::pilot::{PilotData, Snapshot};
use vstd::prelude::*;

verus! {

/// The capture of one snapshot: the pilots to be written, and the path of
/// the file that takes them.
#[derive(Clone, Debug, PartialEq, Eq)]
pub struct CaptureWrite {
    pub path: String,
    pub pilots: Vec<PilotData>,
}

/// Decides what is captured of a snapshot: the pilots within the capture
/// range of the event's airports or bound to or from them, in a file named by
/// the snapshot's version key.
///
/// `distances[i]` holds the distances in whole metres from pilot `i` of the
/// snapshot to the airports.
pub fn process_datafeed(
    datafeed: Snapshot,
    airports: &[&Airport],
    distances: &[Vec<u64>],
    captures_dir: &str,
) -> (write: CaptureWrite)
    ensures
        write.path@ == captures_dir@ + "/"@ + capture_name(datafeed.update@),
        write.pilots@ == relevant_pilots(
            datafeed.pilots@,
            airports@,
            distances@,
            CAPTURE_RANGE_NM,
            datafeed.pilots@.len() as int,
        ),
{
    let path = capture_path(captures_dir, datafeed.update.as_str());
    let pilots = filter_pilots_by_distance_and_field(
        datafeed.pilots,
        airports,
        distances,
        CAPTURE_RANGE_NM,
    );
    CaptureWrite { path, pilots }
}

/// Where the consumer stands.
#[derive(Clone, Copy, Debug, PartialEq, Eq, Structural)]
pub enum ConsumerPhase {
    /// Waiting for the next snapshot.
    Receiving,
    /// The file for a snapshot is being created.
    Creating,
    /// The pilots of a snapshot are being serialised.
    Serializing,
    /// The bytes of a snapshot are being written.
    Writing,
    /// The stream has ended.
    Finished,
}

/// What the driver reports to the consumer.
#[derive(Clone, Copy, Debug, PartialEq, Eq, Structural)]
pub enum ConsumerEvent {
    /// A snapshot has come out of the channel.
    Received,
    /// The channel is closed and empty.
    Closed,
    /// The file has been created.
    Created,
    /// The file could not be created.
    CreateFailed,
    /// The pilots have been serialised.
    Serialized,
    /// The pilots could not be serialised.
    SerializeFailed,
    /// The bytes are in the file.
    Written,
    /// The bytes could not be written.
    WriteFailed,
}

/// What the consumer asks of the driver.
#[derive(Clone, Copy, Debug, PartialEq, Eq, Structural)]
pub enum ConsumerAction {
    /// Take the next snapshot from the channel.
    Receive,
    /// Create the file for the snapshot at hand.
    CreateFile,
    /// Serialise the pilots of the snapshot at hand.
    Serialize,
    /// Write the serialised pilots to the file.
    Write,
    /// End: there is nothing more to consume.
    Finish,
}

impl ConsumerPhase {
    /// The events that the driver may report in this phase.
    pub open spec fn awaits(self, event: ConsumerEvent) -> bool {
        match self {
            ConsumerPhase::Receiving => event == ConsumerEvent::Received || event
                == ConsumerEvent::Closed,
            ConsumerPhase::Creating => event == ConsumerEvent::Created || event
                == ConsumerEvent::CreateFailed,
            ConsumerPhase::Serializing => event == ConsumerEvent::Serialized || event
                == ConsumerEvent::SerializeFailed,
            ConsumerPhase::Writing => event == ConsumerEvent::Written || event
                == ConsumerEvent::WriteFailed,
            ConsumerPhase::Finished => false,
        }
    }

    /// The step of the consumer: the phase after `event`, and what the driver
    /// is to do next.
    ///
    /// A snapshot is captured step by step, and the first step that fails
    /// gives the snapshot up. The end of the stream finishes the run, and so
    /// does an event that the phase does not await: the driver has lost step.
    pub open spec fn next(self, event: ConsumerEvent) -> (ConsumerPhase, ConsumerAction) {
        if !self.awaits(event) {
            (ConsumerPhase::Finished, ConsumerAction::Finish)
        } else {
            match event {
                ConsumerEvent::Received => (ConsumerPhase::Creating, ConsumerAction::CreateFile),
                ConsumerEvent::Closed => (ConsumerPhase::Finished, ConsumerAction::Finish),
                ConsumerEvent::Created => (ConsumerPhase::Serializing, ConsumerAction::Serialize),
                ConsumerEvent::Serialized => (ConsumerPhase::Writing, ConsumerAction::Write),
                ConsumerEvent::CreateFailed
                | ConsumerEvent::SerializeFailed
                | ConsumerEvent::WriteFailed
                | ConsumerEvent::Written => (ConsumerPhase::Receiving, ConsumerAction::Receive),
            }
        }
    }
}

/// A failure to capture a snapshot never ends the run: the consumer goes on
/// to receive the next snapshot.
pub proof fn lemma_failure_gives_up_one_snapshot_only(phase: ConsumerPhase, event: ConsumerEvent)
    requires
        phase.awaits(event),
        event == ConsumerEvent::CreateFailed || event == ConsumerEvent::SerializeFailed || event
            == ConsumerEvent::WriteFailed,
    ensures
        phase.next(event) == (ConsumerPhase::Receiving, ConsumerAction::Receive),
{
}

/// Of the events that a phase awaits, only the end of the stream finishes the
/// run.
pub proof fn lemma_only_the_end_of_stream_finishes(phase: ConsumerPhase, event: ConsumerEvent)
    requires
        phase.awaits(event),
    ensures
        phase.next(event).0 == ConsumerPhase::Finished <==> event == ConsumerEvent::Closed,
        phase.next(event).1 == ConsumerAction::Finish <==> event == ConsumerEvent::Closed,
{
}

/// The consumer of one run.
#[derive(Debug)]
pub struct Consumer {
    phase: ConsumerPhase,
}

impl View for Consumer {
    type V = ConsumerPhase;

    closed spec fn view(&self) -> ConsumerPhase {
        self.phase
    }
}

impl Consumer {
    /// A consumer that is about to receive its first snapshot.
    pub fn new() -> (consumer: Consumer)
        ensures
            consumer@ == ConsumerPhase::Receiving,
    {
        Consumer { phase: ConsumerPhase::Receiving }
    }

    /// Where the consumer stands.
    pub fn phase(&self) -> (phase: ConsumerPhase)
        ensures
            phase == self@,
    {
        self.phase
    }

    /// Takes the step of the consumer on `event`.
    pub fn step(&mut self, event: ConsumerEvent) -> (action: ConsumerAction)
        ensures
            (final(self)@, action) == old(self)@.next(event),
    {
        let (phase, action) = match (self.phase, event) {
            (ConsumerPhase::Receiving, ConsumerEvent::Received) => (
                ConsumerPhase::Creating,
                ConsumerAction::CreateFile,
            ),
            (ConsumerPhase::Creating, ConsumerEvent::Created) => (
                ConsumerPhase::Serializing,
                ConsumerAction::Serialize,
            ),
            (ConsumerPhase::Serializing, ConsumerEvent::Serialized) => (
                ConsumerPhase::Writing,
                ConsumerAction::Write,
            ),
            (ConsumerPhase::Creating, ConsumerEvent::CreateFailed)
            | (ConsumerPhase::Serializing, ConsumerEvent::SerializeFailed)
            | (ConsumerPhase::Writing, ConsumerEvent::Written)
            | (ConsumerPhase::Writing, ConsumerEvent::WriteFailed) => (
                ConsumerPhase::Receiving,
                ConsumerAction::Receive,
            ),
            _ => (ConsumerPhase::Finished, ConsumerAction::Finish),
        };
        self.phase = phase;
        action
    }
}

} // verus!
