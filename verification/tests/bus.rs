use chat_relay::bus::{EventBus, PublishError, SubscriptionHandle};

fn drain(bus: &mut EventBus<String>, handle: &SubscriptionHandle) -> Vec<String> {
    let mut out = Vec::new();
    while let Some(message) = bus.take(handle) {
        out.push((*message).clone());
    }
    out
}

#[test]
fn publish_without_subscribers_does_nothing() {
    let mut bus: EventBus<String> = EventBus::new(4);
    assert_eq!(bus.publish("lost".to_string()), Ok(()));
    assert_eq!(bus.publish("lost too".to_string()), Ok(()));
    let late = bus.subscribe();
    assert_eq!(bus.pending(&late), 0);
    assert!(bus.take(&late).is_none());
}

#[test]
fn subscriber_gets_messages_in_publish_order() {
    let mut bus: EventBus<String> = EventBus::new(16);
    let handle = bus.subscribe();
    for n in 0..10 {
        assert_eq!(bus.publish(format!("m{}", n)), Ok(()));
    }
    assert_eq!(bus.pending(&handle), 10);
    let expected: Vec<String> = (0..10).map(|n| format!("m{}", n)).collect();
    assert_eq!(drain(&mut bus, &handle), expected);
    assert_eq!(bus.pending(&handle), 0);
}

#[test]
fn every_subscriber_gets_every_message_once() {
    let mut bus: EventBus<String> = EventBus::new(16);
    let first = bus.subscribe();
    let second = bus.subscribe();
    let third = bus.subscribe();
    assert_eq!(bus.publish("a".to_string()), Ok(()));
    assert_eq!(bus.publish("b".to_string()), Ok(()));
    assert_eq!(drain(&mut bus, &second), vec!["a".to_string(), "b".to_string()]);
    assert_eq!(bus.publish("c".to_string()), Ok(()));
    assert_eq!(drain(&mut bus, &first), vec!["a".to_string(), "b".to_string(), "c".to_string()]);
    assert_eq!(drain(&mut bus, &second), vec!["c".to_string()]);
    assert_eq!(drain(&mut bus, &third), vec!["a".to_string(), "b".to_string(), "c".to_string()]);
    assert!(bus.take(&first).is_none());
}

#[test]
fn late_subscriber_gets_nothing_of_what_came_before() {
    let mut bus: EventBus<String> = EventBus::new(16);
    let early = bus.subscribe();
    for n in 0..5 {
        assert_eq!(bus.publish(format!("old{}", n)), Ok(()));
    }
    let late = bus.subscribe();
    assert_eq!(bus.pending(&late), 0);
    assert_eq!(bus.publish("new".to_string()), Ok(()));
    assert_eq!(drain(&mut bus, &late), vec!["new".to_string()]);
    assert_eq!(drain(&mut bus, &early).len(), 6);
}

#[test]
fn unsubscribed_handle_gets_nothing_more() {
    let mut bus: EventBus<String> = EventBus::new(16);
    let staying = bus.subscribe();
    let leaving = bus.subscribe();
    assert!(bus.is_subscribed(&leaving));
    assert_eq!(bus.publish("a".to_string()), Ok(()));
    bus.unsubscribe(leaving);
    assert_eq!(bus.publish("b".to_string()), Ok(()));
    assert_eq!(drain(&mut bus, &staying), vec!["a".to_string(), "b".to_string()]);
    let next = bus.subscribe();
    assert!(bus.is_subscribed(&next));
    assert_eq!(bus.pending(&next), 0);
    assert_eq!(bus.publish("c".to_string()), Ok(()));
    assert_eq!(drain(&mut bus, &next), vec!["c".to_string()]);
    bus.unsubscribe(next);
    bus.unsubscribe(staying);
    assert_eq!(bus.publish("d".to_string()), Ok(()));
}

#[test]
fn full_queue_misses_the_message_and_the_others_get_it() {
    let mut bus: EventBus<String> = EventBus::new(2);
    let slow = bus.subscribe();
    let fast = bus.subscribe();
    assert_eq!(bus.publish("1".to_string()), Ok(()));
    assert_eq!(drain(&mut bus, &fast), vec!["1".to_string()]);
    assert_eq!(bus.publish("2".to_string()), Ok(()));
    assert_eq!(drain(&mut bus, &fast), vec!["2".to_string()]);
    assert_eq!(bus.publish("3".to_string()), Err(PublishError::Overflow));
    assert_eq!(drain(&mut bus, &fast), vec!["3".to_string()]);
    assert_eq!(bus.pending(&slow), 2);
    assert_eq!(drain(&mut bus, &slow), vec!["1".to_string(), "2".to_string()]);
    assert_eq!(bus.publish("4".to_string()), Ok(()));
    assert_eq!(drain(&mut bus, &slow), vec!["4".to_string()]);
    assert_eq!(drain(&mut bus, &fast), vec!["4".to_string()]);
}

#[test]
fn bus_without_room_drops_everything() {
    let mut bus: EventBus<u32> = EventBus::new(0);
    assert_eq!(bus.publish(1), Ok(()));
    let handle = bus.subscribe();
    assert_eq!(bus.publish(2), Err(PublishError::Overflow));
    assert_eq!(bus.pending(&handle), 0);
    assert!(bus.take(&handle).is_none());
}

#[test]
fn bus_carries_any_kind_of_message() {
    let mut bus: EventBus<(u8, Vec<bool>)> = EventBus::new(3);
    let handle = bus.subscribe();
    assert_eq!(bus.publish((7, vec![true, false])), Ok(()));
    let message = bus.take(&handle).unwrap();
    assert_eq!(*message, (7, vec![true, false]));
}

#[test]
fn handle_of_another_bus_changes_nothing() {
    let mut one: EventBus<String> = EventBus::new(4);
    let mut other: EventBus<String> = EventBus::new(4);
    let _first = one.subscribe();
    let _second = one.subscribe();
    let third = one.subscribe();
    let own = other.subscribe();
    assert!(!other.is_subscribed(&third));
    assert_eq!(other.publish("x".to_string()), Ok(()));
    assert!(other.take(&third).is_none());
    assert_eq!(other.pending(&third), 0);
    other.unsubscribe(third);
    assert_eq!(drain(&mut other, &own), vec!["x".to_string()]);
}
