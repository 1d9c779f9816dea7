use slot_race::key::{created_bank_key, slot_key, EventKey, Milestone, SlotUpdateKind};
use slot_race::report::{decimal_string, key_label, log_slot, verdict_line, winner_line};
use slot_race::tracker::{delta_ms, RaceTracker, Verdict};

#[test]
fn first_arrival_then_loser() {
    let mut t = RaceTracker::new();
    let k = slot_key(100);
    let v1 = t.observe(k, "alpha", 5000);
    assert_eq!(v1, Verdict::FirstArrival);
    let v2 = t.observe(k, "beta", 5012);
    assert_eq!(
        v2,
        Verdict::Loser { winner: String::from("alpha"), delta_ms: 12 }
    );
}

#[test]
fn duplicate_delivery_counts_as_loser() {
    // The winner's own duplicate still loses, referencing itself.
    let mut t = RaceTracker::new();
    let k = slot_key(7);
    assert_eq!(t.observe(k, "alpha", 100), Verdict::FirstArrival);
    let v = t.observe(k, "alpha", 103);
    assert_eq!(
        v,
        Verdict::Loser { winner: String::from("alpha"), delta_ms: 3 }
    );
}

#[test]
fn stored_record_is_never_corrected() {
    // An out-of-order earlier reading does not rewrite the stored record:
    // first writer wins, and the late "should-have-been-first" event loses
    // with a saturated margin of zero.
    let mut t = RaceTracker::new();
    let k = slot_key(55);
    assert_eq!(t.observe(k, "alpha", 2000), Verdict::FirstArrival);
    let v = t.observe(k, "beta", 1990);
    assert_eq!(
        v,
        Verdict::Loser { winner: String::from("alpha"), delta_ms: 0 }
    );
    // A third arrival still races against the original record.
    let v3 = t.observe(k, "gamma", 2500);
    assert_eq!(
        v3,
        Verdict::Loser { winner: String::from("alpha"), delta_ms: 500 }
    );
}

#[test]
fn distinct_keys_race_independently() {
    let mut t = RaceTracker::new();
    assert_eq!(t.observe(slot_key(1), "alpha", 10), Verdict::FirstArrival);
    assert_eq!(t.observe(slot_key(2), "beta", 11), Verdict::FirstArrival);
    // Same slot number at a different milestone is a different key.
    assert_eq!(
        t.observe(created_bank_key(1), "beta", 12),
        Verdict::FirstArrival
    );
    assert_eq!(t.len(), 3);
}

#[test]
fn scenario_two_slots_two_winners() {
    // Source A reports slot 100 at instant T; source B reports it 12 ms
    // later. Source B reports slot 101 first; A trails by 1 ms. The margins
    // come from the stored first instants, not from call order.
    let t0: u64 = 700_000;
    let mut tracker = RaceTracker::new();

    assert_eq!(
        tracker.observe(slot_key(100), "A", t0),
        Verdict::FirstArrival
    );
    let v = tracker.observe(slot_key(100), "B", t0 + 12);
    assert_eq!(v, Verdict::Loser { winner: String::from("A"), delta_ms: 12 });
    let line = verdict_line(&slot_key(100), &v);
    assert_eq!(line.as_deref(), Some("slot 100 winner A, 12 ms faster"));

    assert_eq!(
        tracker.observe(slot_key(101), "B", t0 + 5),
        Verdict::FirstArrival
    );
    let v2 = tracker.observe(slot_key(101), "A", t0 + 5 + 1);
    assert_eq!(v2, Verdict::Loser { winner: String::from("B"), delta_ms: 1 });
    let line2 = verdict_line(&slot_key(101), &v2);
    assert_eq!(line2.as_deref(), Some("slot 101 winner B, 1 ms faster"));
}

#[test]
fn first_arrival_logs_nothing() {
    let mut t = RaceTracker::new();
    let v = t.observe(slot_key(3), "alpha", 1);
    assert_eq!(verdict_line(&slot_key(3), &v), None);
}

#[test]
fn delta_saturates_at_zero() {
    assert_eq!(delta_ms(10, 3), 7);
    assert_eq!(delta_ms(3, 10), 0);
    assert_eq!(delta_ms(5, 5), 0);
    assert_eq!(delta_ms(u64::MAX, 0), u64::MAX);
}

#[test]
fn decimal_rendering_is_exact() {
    assert_eq!(decimal_string(0), "0");
    assert_eq!(decimal_string(7), "7");
    assert_eq!(decimal_string(42), "42");
    assert_eq!(decimal_string(1000), "1000");
    assert_eq!(decimal_string(18446744073709551615), "18446744073709551615");
}

#[test]
fn key_labels() {
    assert_eq!(key_label(&slot_key(123)), "123");
    assert_eq!(key_label(&created_bank_key(123)), "123-create-bank");
}

#[test]
fn winner_line_is_exact() {
    let k = EventKey { slot: 100, milestone: Milestone::SlotReported };
    assert_eq!(winner_line(&k, "east", 12), "slot 100 winner east, 12 ms faster");
    let kb = EventKey { slot: 9, milestone: Milestone::BankCreated };
    assert_eq!(
        winner_line(&kb, "west", 0),
        "slot 9-create-bank winner west, 0 ms faster"
    );
}

#[test]
fn log_slot_line() {
    assert_eq!(log_slot("east", 31), "Logging slot 31 for endpoint east");
}

#[test]
fn websocket_filter_keeps_only_created_bank() {
    assert_eq!(
        slot_race::key::websocket_race_key(&SlotUpdateKind::CreatedBank { slot: 8 }),
        Some(created_bank_key(8))
    );
    assert_eq!(
        slot_race::key::websocket_race_key(&SlotUpdateKind::FirstShredReceived { slot: 8 }),
        None
    );
    assert_eq!(
        slot_race::key::websocket_race_key(&SlotUpdateKind::Completed { slot: 8 }),
        None
    );
    assert_eq!(
        slot_race::key::websocket_race_key(&SlotUpdateKind::OptimisticConfirmation { slot: 8 }),
        None
    );
    assert_eq!(slot_race::key::websocket_race_key(&SlotUpdateKind::Other), None);
}
