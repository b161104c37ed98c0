use traffic_replay::event::EventConfig;
use traffic_replay::poller::{
    is_long_iteration, pacing_delay, Action, Event, Phase, Poller, CADENCE_NANOS,
    CHANNEL_CAPACITY, LONG_ITERATION_NANOS, RETRY_NANOS,
};
use traffic_replay::time::{Delay, Instant};

// 2024-05-04T18:00:00Z
const START: i64 = 1_714_845_600;
// 2024-05-04T22:00:00Z
const END: i64 = 1_714_860_000;

fn config() -> EventConfig {
    EventConfig {
        name: "Test".to_owned(),
        artccs: vec![],
        airports: vec!["KSFO".to_owned()],
        advertised_start_time: Instant { secs: START, nanos: 0 },
        advertised_end_time: Instant { secs: END, nanos: 0 },
    }
}

fn polling() -> Poller {
    let mut poller = Poller::new(&config());
    poller.step(Event::Started { now: Instant { secs: START, nanos: 0 } });
    poller
}

fn fetched(update: &str, update_timestamp: &str) -> Event {
    Event::Fetched { update: update.to_owned(), update_timestamp: update_timestamp.to_owned() }
}

fn retry() -> Action {
    Action::Poll { after: Delay { nanos: 1_000_000_000 } }
}

#[test]
fn duplicate_version_key_is_not_forwarded() {
    let mut poller = polling();
    let first = poller.step(fetched("abc", "2024-05-04T19:00:00.1234567Z"));
    assert_eq!(first, Action::Forward);
    assert_eq!(poller.phase(), Phase::Draining);
    let paced = poller.step(Event::Sent { elapsed: Delay { nanos: 1_500_000_000 } });
    assert_eq!(paced, Action::Poll { after: Delay { nanos: 3_500_000_000 } });
    let second = poller.step(fetched("abc", "2024-05-04T19:00:05.1234567Z"));
    assert_eq!(second, retry());
    assert_eq!(poller.phase(), Phase::Polling);
    assert_eq!(poller.last_seen(), "abc");
}

#[test]
fn new_poller_awaits_the_window() {
    let poller = Poller::new(&config());
    assert_eq!(poller.phase(), Phase::AwaitingWindow);
    assert_eq!(poller.last_seen(), "");
}

#[test]
fn start_before_the_window_waits_until_five_minutes_before_the_start() {
    let mut poller = Poller::new(&config());
    let action = poller.step(Event::Started { now: Instant { secs: START - 1000, nanos: 250 } });
    assert_eq!(action, Action::Poll { after: Delay { nanos: 699_999_999_750 } });
    assert_eq!(poller.phase(), Phase::Polling);
}

#[test]
fn start_within_the_window_polls_at_once() {
    let mut poller = Poller::new(&config());
    let action = poller.step(Event::Started { now: Instant { secs: START - 300, nanos: 0 } });
    assert_eq!(action, Action::Poll { after: Delay { nanos: 0 } });
    let mut late = Poller::new(&config());
    let action = late.step(Event::Started { now: Instant { secs: END + 10_000, nanos: 0 } });
    assert_eq!(action, Action::Poll { after: Delay { nanos: 0 } });
    assert_eq!(late.phase(), Phase::Polling);
}

#[test]
fn failed_request_is_retried_after_a_second() {
    let mut poller = polling();
    for _ in 0..5 {
        assert_eq!(poller.step(Event::FetchFailed), retry());
        assert_eq!(poller.phase(), Phase::Polling);
    }
}

#[test]
fn unreadable_timestamp_is_passed_over() {
    let mut poller = polling();
    assert_eq!(poller.step(fetched("k1", "soon")), retry());
    assert_eq!(poller.phase(), Phase::Polling);
    assert_eq!(poller.last_seen(), "");
    assert_eq!(poller.step(fetched("k1", "2024-05-04T19:00:00Z")), Action::Forward);
    assert_eq!(poller.last_seen(), "k1");
}

#[test]
fn snapshot_after_the_window_stops_the_poller() {
    let mut poller = polling();
    assert_eq!(poller.step(fetched("k1", "2024-05-04T22:05:00Z")), Action::Forward);
    assert_eq!(poller.step(Event::Sent { elapsed: Delay { nanos: 0 } }),
        Action::Poll { after: Delay { nanos: 5_000_000_000 } });
    assert_eq!(poller.step(fetched("k2", "2024-05-04T22:05:00.000000001Z")), Action::Stop);
    assert_eq!(poller.phase(), Phase::Stopped);
    assert_eq!(poller.last_seen(), "k1");
}

#[test]
fn on_snapshot_decides_by_the_instant_it_is_given() {
    let mut poller = polling();
    let end = Instant { secs: END + 300, nanos: 0 };
    assert_eq!(poller.on_snapshot("a".to_owned(), Some(end)), Action::Forward);
    assert_eq!(poller.phase(), Phase::Draining);
    assert_eq!(poller.on_snapshot("b".to_owned(), Some(end)), Action::Stop);
    assert_eq!(poller.phase(), Phase::Stopped);

    let mut poller = polling();
    let past = Instant { secs: END + 300, nanos: 1 };
    assert_eq!(poller.on_snapshot("a".to_owned(), Some(past)), Action::Stop);

    let mut poller = polling();
    assert_eq!(poller.on_snapshot("a".to_owned(), None), retry());
    assert_eq!(poller.on_snapshot(String::new(), Some(end)), retry());
    assert_eq!(poller.on_snapshot("a".to_owned(), Some(Instant { secs: 0, nanos: 0 })),
        Action::Forward);
}

#[test]
fn closed_channel_stops_the_poller() {
    let mut poller = polling();
    assert_eq!(poller.step(fetched("k1", "2024-05-04T19:00:00Z")), Action::Forward);
    assert_eq!(poller.step(Event::SendFailed), Action::Stop);
    assert_eq!(poller.phase(), Phase::Stopped);
}

#[test]
fn stopped_poller_stays_stopped() {
    let mut poller = polling();
    poller.step(Event::SendFailed);
    let events = vec![
        Event::Started { now: Instant { secs: START, nanos: 0 } },
        Event::FetchFailed,
        fetched("k9", "2024-05-04T19:00:00Z"),
        Event::Sent { elapsed: Delay { nanos: 1 } },
        Event::SendFailed,
    ];
    for event in events {
        assert_eq!(poller.step(event), Action::Stop);
        assert_eq!(poller.phase(), Phase::Stopped);
    }
}

#[test]
fn event_out_of_turn_stops_the_poller() {
    let mut waiting = Poller::new(&config());
    assert_eq!(waiting.step(Event::FetchFailed), Action::Stop);
    assert_eq!(waiting.phase(), Phase::Stopped);

    let mut polling_poller = polling();
    assert_eq!(polling_poller.step(Event::Sent { elapsed: Delay { nanos: 1 } }), Action::Stop);

    let mut draining = polling();
    draining.step(fetched("k1", "2024-05-04T19:00:00Z"));
    assert_eq!(draining.step(fetched("k2", "2024-05-04T19:00:05Z")), Action::Stop);
    assert_eq!(draining.phase(), Phase::Stopped);
}

#[test]
fn consecutive_forwards_have_different_keys() {
    let mut poller = polling();
    let keys = ["a", "a", "b", "b", "b", "a", "c", "c"];
    let mut forwarded: Vec<&str> = Vec::new();
    for key in keys {
        if poller.step(fetched(key, "2024-05-04T19:00:00Z")) == Action::Forward {
            forwarded.push(key);
            poller.step(Event::Sent { elapsed: Delay { nanos: 0 } });
        }
    }
    assert_eq!(forwarded, vec!["a", "b", "a", "c"]);
}

#[test]
fn pacing_makes_up_for_the_time_spent() {
    assert_eq!(pacing_delay(Delay { nanos: 0 }), Delay { nanos: 5_000_000_000 });
    assert_eq!(pacing_delay(Delay { nanos: 1_250_000_000 }), Delay { nanos: 3_750_000_000 });
    assert_eq!(pacing_delay(Delay { nanos: 3_999_999_999 }), Delay { nanos: 1_000_000_001 });
    assert_eq!(pacing_delay(Delay { nanos: 4_000_000_000 }), Delay { nanos: 1_000_000_000 });
    assert_eq!(pacing_delay(Delay { nanos: 60_000_000_000 }), Delay { nanos: 1_000_000_000 });
    assert_eq!(pacing_delay(Delay { nanos: u128::MAX }), Delay { nanos: 1_000_000_000 });
}

#[test]
fn iteration_over_four_seconds_is_long() {
    assert!(!is_long_iteration(Delay { nanos: 4_000_000_000 }));
    assert!(is_long_iteration(Delay { nanos: 4_000_000_001 }));
    assert!(!is_long_iteration(Delay { nanos: 0 }));
}

#[test]
fn poller_constants() {
    assert_eq!(RETRY_NANOS, 1_000_000_000);
    assert_eq!(CADENCE_NANOS, 5_000_000_000);
    assert_eq!(LONG_ITERATION_NANOS, 4_000_000_000);
    assert_eq!(CHANNEL_CAPACITY, 32);
}

#[test]
fn full_channel_takes_no_snapshot_until_one_is_received() {
    let (tx, mut rx) = tokio::sync::mpsc::channel::<u32>(CHANNEL_CAPACITY);
    for n in 0..32 {
        assert!(tx.try_send(n).is_ok());
    }
    assert!(matches!(tx.try_send(32), Err(tokio::sync::mpsc::error::TrySendError::Full(32))));
    assert_eq!(rx.try_recv().ok(), Some(0));
    assert!(tx.try_send(32).is_ok());
    assert!(matches!(tx.try_send(33), Err(tokio::sync::mpsc::error::TrySendError::Full(33))));
    drop(tx);
    let mut received = Vec::new();
    while let Ok(n) = rx.try_recv() {
        received.push(n);
    }
    assert_eq!(received, (1..=32).collect::<Vec<u32>>());
}
