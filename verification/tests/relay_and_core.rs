use mobile_bridge::core_slot::CoreSlot;
use mobile_bridge::relay::EventRelay;

#[test]
fn events_wait_until_a_listener_attaches() {
    let mut relay = EventRelay::new();
    relay.produce(Some("{\"event\":1}".to_string()));
    assert!(relay.deliver_next().is_none());
    relay.register(10);
    let delivery = relay.deliver_next().expect("queued event is delivered");
    assert_eq!(delivery.listener, 10);
    assert_eq!(delivery.text, "{\"event\":1}");
}

#[test]
fn second_registration_replaces_the_first_listener() {
    let mut relay = EventRelay::new();
    relay.register(1);
    relay.register(2);
    relay.produce(Some("{\"event\":\"x\"}".to_string()));
    let delivery = relay.deliver_next().expect("event is delivered");
    assert_eq!(delivery.listener, 2);
    // delivered exactly once: nothing is left for any listener
    assert!(relay.deliver_next().is_none());
}

#[test]
fn events_are_delivered_once_each_in_production_order() {
    let mut relay = EventRelay::new();
    relay.register(4);
    relay.produce(Some("\"first\"".to_string()));
    relay.produce(None); // serialization failed: dropped, the relay goes on
    relay.produce(Some("\"second\"".to_string()));
    relay.produce(Some("\"third\"".to_string()));
    let mut seen: Vec<String> = Vec::new();
    while let Some(delivery) = relay.deliver_next() {
        assert_eq!(delivery.listener, 4);
        seen.push(delivery.text);
    }
    assert_eq!(seen, vec!["\"first\"", "\"second\"", "\"third\""]);
}

#[test]
fn core_slot_constructs_once_across_callers() {
    let mut slot = CoreSlot::new();
    let mut constructions: u32 = 0;
    for _caller in 0..5 {
        // each caller runs the guarded check-or-create step
        match slot.get() {
            Some(handle) => assert_eq!(handle, 42),
            None => {
                constructions += 1;
                slot.install(42);
            }
        }
    }
    assert_eq!(constructions, 1);
    assert_eq!(slot.get(), Some(42));
}

#[test]
fn core_slot_starts_empty() {
    let slot = CoreSlot::new();
    assert_eq!(slot.get(), None);
}
