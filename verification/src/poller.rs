//! The feed poller as a state machine.
//!
//! The poller itself does nothing but decide. Its driver performs what a step
//! asks for (wait, request the feed, send a snapshot down the channel, close
//! the channel) and reports what came of it as the next event.

use crate::event::{EventConfig, EVENT_POST_TIME_MINUTES, EVENT_PRE_TIME_MINUTES};
use crate::time::{parse_rfc3339, parsed_instant, Delay, Instant};
use vstd::prelude::*;

verus! {

/// Nanoseconds to wait before the feed is asked again after a request that
/// failed or brought nothing new.
pub const RETRY_NANOS: u128 = 1_000_000_000;

/// Nanoseconds from one poll to the next while snapshots keep coming.
pub const CADENCE_NANOS: u128 = 5_000_000_000;

/// The most that one iteration's own duration takes off the next wait.
pub const LONG_ITERATION_NANOS: u128 = 4_000_000_000;

/// Snapshots that the channel between poller and consumer holds before a send
/// has to wait.
pub const CHANNEL_CAPACITY: usize = 32;

/// Where the poller stands.
#[derive(Clone, Copy, Debug, PartialEq, Eq, Structural)]
pub enum Phase {
    /// Created; the capture window may not have opened yet.
    AwaitingWindow,
    /// Asking the feed, or waiting to ask again.
    Polling,
    /// A snapshot is on its way into the channel; the send completes once the
    /// consumer has drained room for it.
    Draining,
    /// Done. The channel is to be closed, and nothing more will be forwarded.
    Stopped,
}

/// What the driver reports to the poller.
#[derive(Clone, Debug, PartialEq, Eq)]
pub enum Event {
    /// The driver has started, at the instant `now`.
    Started { now: Instant },
    /// The request to the feed failed.
    FetchFailed,
    /// The feed answered with a snapshot that has this version key and this
    /// update timestamp.
    Fetched { update: String, update_timestamp: String },
    /// The snapshot is in the channel; `elapsed` has passed since the request
    /// for it was made.
    Sent { elapsed: Delay },
    /// The channel is closed: nobody receives any more.
    SendFailed,
}

/// What the poller asks of the driver.
#[derive(Clone, Copy, Debug, PartialEq, Eq, Structural)]
pub enum Action {
    /// Wait for `after` in one piece, then request the feed.
    Poll { after: Delay },
    /// Send the snapshot that was just reported down the channel.
    Forward,
    /// Close the channel and end.
    Stop,
}

/// An event as a mathematical value.
pub enum EventView {
    Started { now: Instant },
    FetchFailed,
    Fetched { update: Seq<char>, update_timestamp: Seq<char> },
    Sent { elapsed: Delay },
    SendFailed,
}

impl View for Event {
    type V = EventView;

    open spec fn view(&self) -> EventView {
        match *self {
            Event::Started { now } => EventView::Started { now },
            Event::FetchFailed => EventView::FetchFailed,
            Event::Fetched { update, update_timestamp } => EventView::Fetched {
                update: update@,
                update_timestamp: update_timestamp@,
            },
            Event::Sent { elapsed } => EventView::Sent { elapsed },
            Event::SendFailed => EventView::SendFailed,
        }
    }
}

/// The poller as a mathematical value.
pub struct PollerView {
    pub phase: Phase,
    /// The advertised start of the event.
    pub start: Instant,
    /// The advertised end of the event.
    pub end: Instant,
    /// The version key of the snapshot forwarded last; empty before the first.
    pub last_seen: Seq<char>,
}

/// Seconds before the advertised start at which the capture window opens.
pub open spec fn pre_roll_secs() -> int {
    60 * EVENT_PRE_TIME_MINUTES
}

/// Seconds after the advertised end at which the capture window closes.
pub open spec fn post_roll_secs() -> int {
    60 * EVENT_POST_TIME_MINUTES
}

/// The wait after a forwarded snapshot whose iteration took `elapsed`: the
/// cadence less the time already spent, but never less than the cadence less
/// the long-iteration bound.
pub open spec fn pacing_nanos(elapsed: Delay) -> int {
    if elapsed.nanos < LONG_ITERATION_NANOS {
        CADENCE_NANOS - elapsed.nanos
    } else {
        CADENCE_NANOS - LONG_ITERATION_NANOS
    }
}

impl PollerView {
    /// The poller of an event before its driver has started.
    pub open spec fn initial(start: Instant, end: Instant) -> PollerView {
        PollerView { phase: Phase::AwaitingWindow, start, end, last_seen: Seq::empty() }
    }

    /// This poller, stopped.
    pub open spec fn stopped(self) -> PollerView {
        PollerView { phase: Phase::Stopped, ..self }
    }

    /// The step on a snapshot with version key `update` whose update
    /// timestamp was read as `stamp`.
    ///
    /// A poller that is not polling stops. A snapshot with the key seen last
    /// is no news, and one whose timestamp could not be read is passed over:
    /// the feed is asked again after the retry delay. A snapshot stamped after
    /// the close of the capture window ends the run. Any other snapshot is
    /// forwarded, and its key becomes the key seen last.
    pub open spec fn on_snapshot(self, update: Seq<char>, stamp: Option<Instant>) -> (
        PollerView,
        Action,
    ) {
        if self.phase != Phase::Polling {
            (self.stopped(), Action::Stop)
        } else if update == self.last_seen {
            (self, Action::Poll { after: Delay { nanos: RETRY_NANOS } })
        } else {
            match stamp {
                None => (self, Action::Poll { after: Delay { nanos: RETRY_NANOS } }),
                Some(at) => if at.is_after(self.end, post_roll_secs()) {
                    (self.stopped(), Action::Stop)
                } else {
                    (
                        PollerView { phase: Phase::Draining, last_seen: update, ..self },
                        Action::Forward,
                    )
                },
            }
        }
    }

    /// The step of the machine: the poller after `event`, and what the driver
    /// is to do next.
    ///
    /// An event that the phase does not await means that the driver has lost
    /// step with the machine, and stops it.
    pub open spec fn next(self, event: EventView) -> (PollerView, Action) {
        match event {
            EventView::Started { now } => if self.phase == Phase::AwaitingWindow {
                (
                    PollerView { phase: Phase::Polling, ..self },
                    Action::Poll {
                        after: Delay {
                            nanos: now.nanos_until(self.start, -pre_roll_secs()) as u128,
                        },
                    },
                )
            } else {
                (self.stopped(), Action::Stop)
            },
            EventView::FetchFailed => if self.phase == Phase::Polling {
                (self, Action::Poll { after: Delay { nanos: RETRY_NANOS } })
            } else {
                (self.stopped(), Action::Stop)
            },
            EventView::Fetched { update, update_timestamp } => self.on_snapshot(
                update,
                parsed_instant(update_timestamp),
            ),
            EventView::Sent { elapsed } => if self.phase == Phase::Draining {
                (
                    PollerView { phase: Phase::Polling, ..self },
                    Action::Poll { after: Delay { nanos: pacing_nanos(elapsed) as u128 } },
                )
            } else {
                (self.stopped(), Action::Stop)
            },
            EventView::SendFailed => (self.stopped(), Action::Stop),
        }
    }
}

/// The poller after the events of a run, one after the other.
pub open spec fn run(state: PollerView, events: Seq<EventView>) -> PollerView
    decreases events.len(),
{
    if events.len() == 0 {
        state
    } else {
        run(state.next(events[0]).0, events.drop_first())
    }
}

/// The snapshots that a run forwards, in order: the version key and the
/// update timestamp of each.
pub open spec fn forwarded(state: PollerView, events: Seq<EventView>) -> Seq<
    (Seq<char>, Seq<char>),
>
    decreases events.len(),
{
    if events.len() == 0 {
        Seq::empty()
    } else {
        let (after, action) = state.next(events[0]);
        let rest = forwarded(after, events.drop_first());
        match events[0] {
            EventView::Fetched { update, update_timestamp } if action == Action::Forward => seq![
                (update, update_timestamp),
            ] + rest,
            _ => rest,
        }
    }
}

/// A step forwards only a snapshot that was fetched while polling, whose key
/// differs from the key seen last and whose timestamp reads as an instant not
/// after the close of the capture window. Its key is then the key seen last.
pub proof fn lemma_forward(state: PollerView, event: EventView)
    requires
        state.next(event).1 == Action::Forward,
    ensures
        state.phase == Phase::Polling,
        event is Fetched,
        event->update != state.last_seen,
        parsed_instant(event->update_timestamp) is Some,
        !parsed_instant(event->update_timestamp).unwrap().is_after(state.end, post_roll_secs()),
        state.next(event).0.last_seen == event->update,
        state.next(event).0.phase == Phase::Draining,
{
}

/// A step never changes the event's times, and changes the key seen last
/// only when it forwards.
pub proof fn lemma_step_keeps(state: PollerView, event: EventView)
    ensures
        state.next(event).0.start == state.start,
        state.next(event).0.end == state.end,
        state.next(event).1 != Action::Forward ==> state.next(event).0.last_seen
            == state.last_seen,
{
}

/// While polling, a fresh snapshot stamped after the close of the capture
/// window stops the poller.
pub proof fn lemma_late_snapshot_stops(
    state: PollerView,
    update: Seq<char>,
    update_timestamp: Seq<char>,
)
    requires
        state.phase == Phase::Polling,
        update != state.last_seen,
        parsed_instant(update_timestamp) is Some,
        parsed_instant(update_timestamp).unwrap().is_after(state.end, post_roll_secs()),
    ensures
        state.next(EventView::Fetched { update, update_timestamp }) == (
            state.stopped(),
            Action::Stop,
        ),
{
}

/// A poller awaits its window only before its first step.
pub proof fn lemma_never_awaits_again(state: PollerView, event: EventView)
    ensures
        state.next(event).0.phase != Phase::AwaitingWindow,
{
}

/// A stopped poller stays stopped and forwards nothing, whatever is reported
/// to it.
pub proof fn lemma_stopped_is_final(state: PollerView, events: Seq<EventView>)
    requires
        state.phase == Phase::Stopped,
    ensures
        run(state, events) == state,
        forwarded(state, events).len() == 0,
        forall|i: int|
            0 <= i < events.len() ==> run(state, events.take(i)).next(#[trigger] events[i]).1
                == Action::Stop,
    decreases events.len(),
{
    if events.len() > 0 {
        let rest = events.drop_first();
        assert(state.next(events[0]) == (state, Action::Stop));
        lemma_stopped_is_final(state, rest);
        assert forall|i: int| 0 <= i < events.len() implies run(state, events.take(i)).next(
            #[trigger] events[i],
        ).1 == Action::Stop by {
            lemma_stopped_is_final(state, events.take(i));
        }
    }
}

/// No run forwards two snapshots in a row with the same version key, nor
/// first a snapshot with the key that was seen last before the run.
pub proof fn lemma_no_key_forwarded_twice_in_a_row(state: PollerView, events: Seq<EventView>)
    ensures
        forwarded(state, events).len() > 0 ==> forwarded(state, events)[0].0 != state.last_seen,
        forall|i: int|
            0 < i < forwarded(state, events).len() ==> (#[trigger] forwarded(state, events)[i]).0
                != forwarded(state, events)[i - 1].0,
    decreases events.len(),
{
    if events.len() > 0 {
        let (after, action) = state.next(events[0]);
        let rest = forwarded(after, events.drop_first());
        lemma_no_key_forwarded_twice_in_a_row(after, events.drop_first());
        lemma_step_keeps(state, events[0]);
        if action == Action::Forward {
            lemma_forward(state, events[0]);
            let head = (events[0]->update, events[0]->update_timestamp);
            assert(forwarded(state, events) == seq![head] + rest);
            assert forall|i: int| 0 < i < forwarded(state, events).len() implies (
            #[trigger] forwarded(state, events)[i]).0 != forwarded(state, events)[i - 1].0 by {
                assert(forwarded(state, events)[i] == rest[i - 1]);
                if i > 1 {
                    assert(forwarded(state, events)[i - 1] == rest[i - 2]);
                }
            }
        } else {
            assert(forwarded(state, events) == rest);
        }
    }
}

/// Every snapshot that a run forwards is stamped no later than the close of
/// the capture window.
pub proof fn lemma_forwarded_within_window(state: PollerView, events: Seq<EventView>)
    ensures
        forall|i: int|
            0 <= i < forwarded(state, events).len() ==> {
                let stamp = parsed_instant((#[trigger] forwarded(state, events)[i]).1);
                stamp is Some && !stamp.unwrap().is_after(state.end, post_roll_secs())
            },
    decreases events.len(),
{
    if events.len() > 0 {
        let (after, action) = state.next(events[0]);
        let rest = forwarded(after, events.drop_first());
        lemma_forwarded_within_window(after, events.drop_first());
        lemma_step_keeps(state, events[0]);
        if action == Action::Forward {
            lemma_forward(state, events[0]);
            let head = (events[0]->update, events[0]->update_timestamp);
            assert(forwarded(state, events) == seq![head] + rest);
            assert forall|i: int| 0 <= i < forwarded(state, events).len() implies {
                let stamp = parsed_instant((#[trigger] forwarded(state, events)[i]).1);
                stamp is Some && !stamp.unwrap().is_after(state.end, post_roll_secs())
            } by {
                if i > 0 {
                    assert(forwarded(state, events)[i] == rest[i - 1]);
                }
            }
        } else {
            assert(forwarded(state, events) == rest);
        }
    }
}

/// The poller of one event.
pub struct Poller {
    phase: Phase,
    start: Instant,
    end: Instant,
    last_seen: String,
}

impl View for Poller {
    type V = PollerView;

    closed spec fn view(&self) -> PollerView {
        PollerView {
            phase: self.phase,
            start: self.start,
            end: self.end,
            last_seen: self.last_seen@,
        }
    }
}

/// The wait after a forwarded snapshot whose iteration took `elapsed`.
pub fn pacing_delay(elapsed: Delay) -> (wait: Delay)
    ensures
        wait.nanos == pacing_nanos(elapsed),
        CADENCE_NANOS - LONG_ITERATION_NANOS <= wait.nanos <= CADENCE_NANOS,
{
    if elapsed.nanos < LONG_ITERATION_NANOS {
        Delay { nanos: CADENCE_NANOS - elapsed.nanos }
    } else {
        Delay { nanos: CADENCE_NANOS - LONG_ITERATION_NANOS }
    }
}

/// Whether an iteration that took `elapsed` was a long one: longer than the
/// pacing can make up for, so that the cadence slips.
pub fn is_long_iteration(elapsed: Delay) -> (long: bool)
    ensures
        long == (elapsed.nanos > LONG_ITERATION_NANOS),
{
    elapsed.nanos > LONG_ITERATION_NANOS
}

impl Poller {
    /// The poller of `config`, before its driver has started.
    pub fn new(config: &EventConfig) -> (poller: Poller)
        ensures
            poller@ == PollerView::initial(
                config.advertised_start_time,
                config.advertised_end_time,
            ),
    {
        Poller {
            phase: Phase::AwaitingWindow,
            start: config.advertised_start_time,
            end: config.advertised_end_time,
            last_seen: String::new(),
        }
    }

    /// Where the poller stands.
    pub fn phase(&self) -> (phase: Phase)
        ensures
            phase == self@.phase,
    {
        self.phase
    }

    /// The version key of the snapshot forwarded last.
    pub fn last_seen(&self) -> (key: &str)
        ensures
            key@ == self@.last_seen,
    {
        self.last_seen.as_str()
    }

    /// Stops the poller.
    fn halt(&mut self) -> (action: Action)
        ensures
            final(self)@ == old(self)@.stopped(),
            action == Action::Stop,
    {
        self.phase = Phase::Stopped;
        Action::Stop
    }

    /// Takes the step on a snapshot with version key `update` whose update
    /// timestamp was read as `stamp`.
    pub fn on_snapshot(&mut self, update: String, stamp: Option<Instant>) -> (action: Action)
        ensures
            (final(self)@, action) == old(self)@.on_snapshot(update@, stamp),
    {
        if self.phase != Phase::Polling {
            return self.halt();
        }
        if update == self.last_seen {
            return Action::Poll { after: Delay { nanos: RETRY_NANOS } };
        }
        match stamp {
            None => Action::Poll { after: Delay { nanos: RETRY_NANOS } },
            Some(at) => {
                if at.after(&self.end, 60 * EVENT_POST_TIME_MINUTES as i64) {
                    self.halt()
                } else {
                    self.phase = Phase::Draining;
                    self.last_seen = update;
                    Action::Forward
                }
            },
        }
    }

    /// Takes the step of the machine on `event`.
    ///
    /// The update timestamp of a fetched snapshot is read as an RFC 3339 date
    /// and time; `on_snapshot` says what follows from each reading.
    pub fn step(&mut self, event: Event) -> (action: Action)
        ensures
            (final(self)@, action) == old(self)@.next(event@),
    {
        match event {
            Event::Started { now } => {
                if self.phase == Phase::AwaitingWindow {
                    self.phase = Phase::Polling;
                    Action::Poll {
                        after: now.delay_until(&self.start, -(60 * EVENT_PRE_TIME_MINUTES as i64)),
                    }
                } else {
                    self.halt()
                }
            },
            Event::FetchFailed => {
                if self.phase == Phase::Polling {
                    Action::Poll { after: Delay { nanos: RETRY_NANOS } }
                } else {
                    self.halt()
                }
            },
            Event::Fetched { update, update_timestamp } => {
                let stamp = parse_rfc3339(update_timestamp.as_str());
                self.on_snapshot(update, stamp)
            },
            Event::Sent { elapsed } => {
                if self.phase == Phase::Draining {
                    self.phase = Phase::Polling;
                    Action::Poll { after: pacing_delay(elapsed) }
                } else {
                    self.halt()
                }
            },
            Event::SendFailed => self.halt(),
        }
    }
}

} // verus!
