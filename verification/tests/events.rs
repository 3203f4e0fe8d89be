use sage_hot_lib::{ChangedEvent, LibReloadNotifier, LibReloadObserver};

fn hub_with(n: usize) -> (LibReloadNotifier, Vec<LibReloadObserver>) {
    let mut hub = LibReloadNotifier::new();
    let mut observers = Vec::new();
    for _ in 0..n {
        observers.push(hub.subscribe());
    }
    (hub, observers)
}

#[test]
fn new_notifier_is_empty_and_clear() {
    let hub = LibReloadNotifier::new();
    assert_eq!(hub.subscriber_count(), 0);
    assert_eq!(hub.blocks_pending(), 0);
    assert!(hub.blocks_clear());
    assert_eq!(hub.cycle_number(), 0);
    let hub = LibReloadNotifier::default();
    assert_eq!(hub.subscriber_count(), 0);
    assert!(hub.blocks_clear());
}

#[test]
fn announcement_without_subscribers_is_clear_at_once() {
    let mut hub = LibReloadNotifier::new();
    assert!(hub.send_about_to_reload_event_and_wait_for_blocks());
    assert!(hub.blocks_clear());
    assert_eq!(hub.cycle_number(), 1);
}

#[test]
fn each_subscriber_gets_a_token() {
    let (mut hub, observers) = hub_with(3);
    assert_eq!(hub.subscriber_count(), 3);
    for o in &observers {
        assert!(!o.ready(&hub, false));
        assert!(!o.ready(&hub, true));
    }
    assert!(!hub.send_about_to_reload_event_and_wait_for_blocks());
    assert_eq!(hub.blocks_pending(), 3);
    for o in &observers {
        assert!(o.ready(&hub, false));
        assert!(!o.ready(&hub, true));
    }
    let mut tokens = Vec::new();
    for o in &observers {
        let token = o.wait_for_about_to_reload(&mut hub);
        assert_eq!(token.cycle_number(), 1);
        tokens.push(token);
    }
    // Taking a token out of the queue gives up nothing.
    assert_eq!(hub.blocks_pending(), 3);
    for (i, token) in tokens.into_iter().enumerate() {
        token.release(&mut hub);
        assert_eq!(hub.blocks_pending(), 2 - i);
    }
    assert!(hub.blocks_clear());
}

#[test]
fn duplicate_holds_the_reload_too() {
    let (mut hub, observers) = hub_with(1);
    hub.send_about_to_reload_event_and_wait_for_blocks();
    let token = observers[0].wait_for_about_to_reload(&mut hub);
    let second = token.duplicate(&mut hub);
    assert_eq!(second.cycle_number(), token.cycle_number());
    assert_eq!(hub.blocks_pending(), 2);
    token.release(&mut hub);
    assert!(!hub.blocks_clear());
    second.release(&mut hub);
    assert!(hub.blocks_clear());
}

#[test]
fn token_of_an_earlier_cycle_holds_nothing() {
    let (mut hub, observers) = hub_with(1);
    hub.send_about_to_reload_event_and_wait_for_blocks();
    let old = observers[0].wait_for_about_to_reload(&mut hub);
    hub.send_about_to_reload_event_and_wait_for_blocks();
    assert_eq!(hub.cycle_number(), 2);
    assert_eq!(hub.blocks_pending(), 1);
    let again = old.duplicate(&mut hub);
    assert_eq!(again.cycle_number(), 1);
    assert_eq!(hub.blocks_pending(), 1);
    old.release(&mut hub);
    again.release(&mut hub);
    assert_eq!(hub.blocks_pending(), 1);
    let new = observers[0].wait_for_about_to_reload(&mut hub);
    assert_eq!(new.cycle_number(), 2);
    new.release(&mut hub);
    assert!(hub.blocks_clear());
}

#[test]
fn waiting_without_an_event_times_out() {
    let (mut hub, observers) = hub_with(1);
    assert!(observers[0].wait_for_about_to_reload_timeout(&mut hub).is_none());
    assert!(!observers[0].wait_for_reload_timeout(&mut hub));
    hub.send_reloaded_event();
    // The end of a reload is no announcement: it is taken off the queue and the wait times out.
    assert!(observers[0].ready(&hub, true));
    assert!(observers[0].wait_for_about_to_reload_timeout(&mut hub).is_none());
    assert!(!observers[0].ready(&hub, true));
    assert!(!observers[0].wait_for_reload_timeout(&mut hub));
}

#[test]
fn events_come_out_in_the_order_sent() {
    let (mut hub, observers) = hub_with(1);
    let o = &observers[0];
    hub.send_about_to_reload_event_and_wait_for_blocks();
    hub.send_reloaded_event();
    hub.send_about_to_reload_event_and_wait_for_blocks();
    hub.send_reloaded_event();
    let first = o.wait_for_about_to_reload_timeout(&mut hub).unwrap();
    assert_eq!(first.cycle_number(), 1);
    let second = o.wait_for_about_to_reload_timeout(&mut hub).unwrap();
    assert_eq!(second.cycle_number(), 2);
    assert!(o.wait_for_reload_timeout(&mut hub));
    assert!(!o.wait_for_reload_timeout(&mut hub));
    assert!(o.wait_for_about_to_reload_timeout(&mut hub).is_none());
}

#[test]
fn waiting_for_the_reload_gives_up_skipped_tokens() {
    let (mut hub, observers) = hub_with(2);
    hub.send_about_to_reload_event_and_wait_for_blocks();
    assert_eq!(hub.blocks_pending(), 2);
    // The first subscriber only waits for the end of the reload.
    assert!(!observers[0].wait_for_reload_timeout(&mut hub));
    assert_eq!(hub.blocks_pending(), 1);
    assert!(!observers[0].ready(&hub, false));
    let token = observers[1].wait_for_about_to_reload(&mut hub);
    token.release(&mut hub);
    assert!(hub.blocks_clear());
    hub.send_reloaded_event();
    observers[0].wait_for_reload(&mut hub);
    observers[1].wait_for_reload(&mut hub);
    assert!(!observers[0].ready(&hub, true));
    assert!(!observers[1].ready(&hub, true));
}

#[test]
fn gone_subscriber_is_removed_with_the_next_event() {
    let (mut hub, mut observers) = hub_with(3);
    hub.send_about_to_reload_event_and_wait_for_blocks();
    assert_eq!(hub.blocks_pending(), 3);
    let gone = observers.remove(1);
    gone.disconnect(&mut hub);
    // Its token went with its queue; it is still listed.
    assert_eq!(hub.blocks_pending(), 2);
    assert_eq!(hub.subscriber_count(), 3);
    hub.send_reloaded_event();
    assert_eq!(hub.subscriber_count(), 2);
    for o in &observers {
        o.wait_for_about_to_reload(&mut hub).release(&mut hub);
        assert!(o.wait_for_reload_timeout(&mut hub));
    }
    assert!(hub.blocks_clear());
    assert!(!hub.send_about_to_reload_event_and_wait_for_blocks());
    assert_eq!(hub.blocks_pending(), 2);
}

#[test]
fn late_subscriber_sees_later_events_only() {
    let (mut hub, observers) = hub_with(1);
    hub.send_reloaded_event();
    let late = hub.subscribe();
    assert!(!late.ready(&hub, true));
    assert!(observers[0].ready(&hub, true));
    hub.send_reloaded_event();
    assert!(late.wait_for_reload_timeout(&mut hub));
    assert!(!late.wait_for_reload_timeout(&mut hub));
    assert!(observers[0].wait_for_reload_timeout(&mut hub));
    assert!(observers[0].wait_for_reload_timeout(&mut hub));
    assert!(!observers[0].wait_for_reload_timeout(&mut hub));
}

#[test]
fn release_without_a_hold_changes_nothing() {
    let (mut hub, observers) = hub_with(1);
    hub.send_about_to_reload_event_and_wait_for_blocks();
    let token = observers[0].wait_for_about_to_reload(&mut hub);
    let copy = token.duplicate(&mut hub);
    token.release(&mut hub);
    copy.release(&mut hub);
    assert_eq!(hub.blocks_pending(), 0);
    // A subscriber that leaves with an empty queue gives up nothing.
    let o = hub.subscribe();
    o.disconnect(&mut hub);
    assert_eq!(hub.blocks_pending(), 0);
}

#[test]
fn attempt_on_a_notifier_in_use_is_skipped() {
    // Nobody is told, and the reload may begin.
    assert!(LibReloadNotifier::notify(None, false));
    assert!(LibReloadNotifier::notify(None, true));
}

#[test]
fn attempt_on_a_free_notifier_sends_the_event() {
    let (mut hub, observers) = hub_with(2);
    assert!(!LibReloadNotifier::notify(Some(&mut hub), false));
    assert_eq!(hub.cycle_number(), 1);
    assert_eq!(hub.blocks_pending(), 2);
    // The end of a reload changes no hold.
    assert!(!LibReloadNotifier::notify(Some(&mut hub), true));
    assert_eq!(hub.blocks_pending(), 2);
    for o in &observers {
        o.wait_for_about_to_reload(&mut hub).release(&mut hub);
        assert!(o.ready(&hub, true));
    }
    assert!(LibReloadNotifier::notify(Some(&mut hub), true));
    assert!(hub.can_subscribe());
}

#[test]
fn oldest_event_is_received_first() {
    let (mut hub, observers) = hub_with(2);
    let o = &observers[0];
    assert!(o.try_recv(&mut hub).is_none());
    hub.send_reloaded_event();
    hub.send_about_to_reload_event_and_wait_for_blocks();
    hub.send_reloaded_event();
    assert!(matches!(o.try_recv(&mut hub), Some(ChangedEvent::LibReloaded)));
    let token = match o.try_recv(&mut hub) {
        Some(ChangedEvent::LibAboutToReload(token)) => token,
        other => panic!("unexpected event {other:?}"),
    };
    assert_eq!(token.cycle_number(), 1);
    // The token came out with its event and is still held.
    assert_eq!(hub.blocks_pending(), 2);
    token.release(&mut hub);
    assert_eq!(hub.blocks_pending(), 1);
    assert!(matches!(o.try_recv(&mut hub), Some(ChangedEvent::LibReloaded)));
    assert!(o.try_recv(&mut hub).is_none());
    // The other queue was not touched.
    assert!(observers[1].ready(&hub, false));
    assert!(observers[1].wait_for_reload_timeout(&mut hub));
    assert_eq!(hub.blocks_pending(), 1);
    // The second wait passes over the announcement and gives its token up.
    assert!(observers[1].wait_for_reload_timeout(&mut hub));
    assert_eq!(hub.blocks_pending(), 0);
    assert!(observers[1].try_recv(&mut hub).is_none());
}
