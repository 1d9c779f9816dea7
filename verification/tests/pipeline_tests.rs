use slot_race::adapter::{
    adapter_step, AdapterAction, AdapterState, StreamEvent, RETRY_DELAY_MS,
};
use slot_race::channel::{ArrivalEvent, EventChannel, DEFAULT_CHANNEL_CAPACITY};
use slot_race::key::{slot_key, Milestone};
use slot_race::supervisor::{RunDecision, Supervisor};
use slot_race::tracker::{RaceTracker, Verdict};

#[test]
fn channel_is_fifo() {
    let mut c = EventChannel::new(10);
    let e1 = ArrivalEvent { key: slot_key(1), instant_ms: 10 };
    let e2 = ArrivalEvent { key: slot_key(2), instant_ms: 20 };
    assert!(c.try_send(e1).is_ok());
    assert!(c.try_send(e2).is_ok());
    assert_eq!(c.try_recv(), Some(e1));
    assert_eq!(c.try_recv(), Some(e2));
    assert_eq!(c.try_recv(), None);
}

#[test]
fn full_channel_hands_the_event_back() {
    // Backpressure: a slow consumer makes the producer hold the event and
    // retry; nothing is dropped.
    let mut c = EventChannel::new(2);
    let e1 = ArrivalEvent { key: slot_key(1), instant_ms: 1 };
    let e2 = ArrivalEvent { key: slot_key(2), instant_ms: 2 };
    let e3 = ArrivalEvent { key: slot_key(3), instant_ms: 3 };
    assert!(c.try_send(e1).is_ok());
    assert!(c.try_send(e2).is_ok());
    assert_eq!(c.try_send(e3), Err(e3));
    assert_eq!(c.occupancy(), 2);
    // The consumer catches up; the producer's retry now succeeds and the
    // event arrives in order.
    assert_eq!(c.try_recv(), Some(e1));
    assert!(c.try_send(e3).is_ok());
    assert_eq!(c.try_recv(), Some(e2));
    assert_eq!(c.try_recv(), Some(e3));
}

#[test]
fn default_capacity_is_a_thousand() {
    assert_eq!(DEFAULT_CHANNEL_CAPACITY, 1000);
}

#[test]
fn adapter_reconnects_then_resumes() {
    // An adapter that fails three times, then connects, resumes forwarding.
    let mut st = AdapterState::Disconnected { attempts: 0 };
    for _ in 0..3 {
        let (s1, a1) = adapter_step(st, StreamEvent::RetryElapsed, Milestone::SlotReported);
        assert_eq!(a1, AdapterAction::Connect);
        let (s2, a2) = adapter_step(s1, StreamEvent::ConnectFailed, Milestone::SlotReported);
        assert_eq!(a2, AdapterAction::Wait { delay_ms: RETRY_DELAY_MS });
        st = s2;
    }
    assert_eq!(st, AdapterState::Disconnected { attempts: 3 });
    let (s1, _) = adapter_step(st, StreamEvent::RetryElapsed, Milestone::SlotReported);
    let (s2, _) = adapter_step(s1, StreamEvent::Connected, Milestone::SlotReported);
    assert_eq!(s2, AdapterState::Streaming);
    let (s3, a) = adapter_step(
        s2,
        StreamEvent::SlotReceived { slot: 42, instant_ms: 900 },
        Milestone::SlotReported,
    );
    assert_eq!(s3, AdapterState::Streaming);
    assert_eq!(
        a,
        AdapterAction::Forward {
            event: ArrivalEvent { key: slot_key(42), instant_ms: 900 }
        }
    );
}

#[test]
fn malformed_message_forces_reconnect_not_crash() {
    for ev in [StreamEvent::EmptyUpdate, StreamEvent::StreamError, StreamEvent::StreamClosed] {
        let (st, a) = adapter_step(AdapterState::Streaming, ev, Milestone::SlotReported);
        assert_eq!(st, AdapterState::Disconnected { attempts: 0 });
        assert_eq!(a, AdapterAction::Wait { delay_ms: RETRY_DELAY_MS });
    }
}

#[test]
fn pings_and_pongs_are_ignored_while_streaming() {
    for ev in [StreamEvent::Ping, StreamEvent::Pong] {
        let (st, a) = adapter_step(AdapterState::Streaming, ev, Milestone::SlotReported);
        assert_eq!(st, AdapterState::Streaming);
        assert_eq!(a, AdapterAction::Ignore);
    }
}

#[test]
fn cancel_is_terminal_for_the_adapter() {
    let (st, a) = adapter_step(AdapterState::Streaming, StreamEvent::Cancel, Milestone::SlotReported);
    assert_eq!(st, AdapterState::Cancelled);
    assert_eq!(a, AdapterAction::Stop);
    // Whatever arrives afterwards, the adapter stays stopped.
    let (st2, a2) = adapter_step(
        st,
        StreamEvent::SlotReceived { slot: 1, instant_ms: 1 },
        Milestone::SlotReported,
    );
    assert_eq!(st2, AdapterState::Cancelled);
    assert_eq!(a2, AdapterAction::Stop);
}

#[test]
fn outage_keys_are_simply_absent() {
    // Keys the outage swallowed never reach the tracker; later keys race
    // normally and nothing is corrupted.
    let mut tracker = RaceTracker::new();
    assert_eq!(tracker.observe(slot_key(10), "A", 100), Verdict::FirstArrival);
    // Slots 11..14 were lost during A's outage; B delivers 15 first.
    assert_eq!(tracker.observe(slot_key(15), "B", 160), Verdict::FirstArrival);
    let v = tracker.observe(slot_key(15), "A", 175);
    assert_eq!(v, Verdict::Loser { winner: String::from("B"), delta_ms: 15 });
    assert_eq!(tracker.len(), 2);
}

#[test]
fn supervisor_continues_on_partial_failure() {
    let mut s = Supervisor::new(2);
    assert_eq!(s.poll(), RunDecision::Continue);
    assert_eq!(s.on_source_terminated(0), RunDecision::Continue);
    assert_eq!(s.on_source_terminated(1), RunDecision::Stop);
}

#[test]
fn supervisor_stops_on_cancel() {
    let mut s = Supervisor::new(2);
    assert_eq!(s.on_cancel(), RunDecision::Stop);
    // Cancellation dominates any later source event.
    assert_eq!(s.on_source_terminated(0), RunDecision::Stop);
    assert_eq!(s.poll(), RunDecision::Stop);
}

#[test]
fn supervisor_with_no_sources_stops_at_once() {
    let s = Supervisor::new(0);
    assert_eq!(s.poll(), RunDecision::Stop);
}
