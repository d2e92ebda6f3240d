use mvu_core::signal::{FlushSignals, Signal};

#[test]
fn read_sees_the_stored_value() {
    let mut sig = Signal::new(5u64);
    assert_eq!(*sig.read(), 5);
    sig.set(9);
    assert_eq!(*sig.read(), 9);
}

#[test]
fn update_applies_under_exclusive_access_and_returns() {
    let mut sig = Signal::new(10u64);
    let old = sig.update(|v: &u64| (*v + 1, *v));
    assert_eq!(old, 10);
    assert_eq!(*sig.read(), 11);
}

#[test]
fn three_sets_one_flush_one_notification() {
    let mut sig = Signal::new(0u64);
    let id = sig.subscribe();
    sig.set(1);
    sig.set(2);
    sig.set(3);
    sig.flush();
    // Coalescing: exactly one pending notification, not three.
    assert!(sig.take_notification(id));
    assert!(!sig.take_notification(id));
}

#[test]
fn flush_of_a_clean_signal_notifies_nobody() {
    let mut sig = Signal::new(0u64);
    let id = sig.subscribe();
    sig.flush();
    assert!(!sig.take_notification(id));
    // Once dirty, one flush delivers; a second flush without mutation
    // delivers nothing more.
    sig.set(4);
    sig.flush();
    assert!(sig.take_notification(id));
    sig.flush();
    assert!(!sig.take_notification(id));
}

#[test]
fn a_full_slot_swallows_further_notifications() {
    let mut sig = Signal::new(0u64);
    let id = sig.subscribe();
    sig.set(1);
    sig.flush();
    sig.set(2);
    sig.flush();
    // Two flushes of a never-polled subscriber still leave one pending
    // notification.
    assert!(sig.take_notification(id));
    assert!(!sig.take_notification(id));
}

#[test]
fn each_subscriber_gets_its_own_notification() {
    let mut sig = Signal::new(0u64);
    let first = sig.subscribe();
    let second = sig.subscribe();
    sig.set(1);
    sig.flush();
    assert!(sig.take_notification(first));
    assert!(sig.take_notification(second));
    assert!(!sig.take_notification(first));
    assert!(!sig.take_notification(second));
}

#[test]
fn a_new_subscriber_has_nothing_pending() {
    let mut sig = Signal::new(0u64);
    sig.set(1);
    sig.flush();
    let late = sig.subscribe();
    assert!(!sig.take_notification(late));
}

#[test]
fn closed_subscribers_are_dropped_at_the_next_flush() {
    let mut sig = Signal::new(0u64);
    let id = sig.subscribe();
    sig.close_subscriber(id);
    sig.set(1);
    sig.flush();
    assert_eq!(sig.subscribers.len(), 0);
    assert!(!sig.take_notification(id));
}

#[test]
fn polling_an_unknown_handle_reports_nothing() {
    let mut sig = Signal::new(0u64);
    let _ = sig.subscribe();
    assert!(!sig.take_notification(99));
}

#[test]
fn flush_signals_is_the_signal_flush() {
    let mut sig = Signal::new(0u64);
    let id = sig.subscribe();
    sig.set(2);
    sig.flush_signals();
    assert!(sig.take_notification(id));
}

#[test]
fn handles_stay_distinct_across_flushes() {
    let mut sig = Signal::new(0u64);
    let early = sig.subscribe();
    sig.set(1);
    sig.flush();
    let late = sig.subscribe();
    sig.set(2);
    sig.flush();
    // The early subscriber's slot was already full: still one pending.
    // The late one gets its own, under its own handle.
    assert_ne!(early, late);
    assert!(sig.take_notification(early));
    assert!(sig.take_notification(late));
    assert!(!sig.take_notification(early));
    assert!(!sig.take_notification(late));
}
