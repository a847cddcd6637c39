use mobile_bridge::subscriptions::SubscriptionRegistry;

#[test]
fn a_started_subscription_is_found_by_later_events() {
    let mut registry = SubscriptionRegistry::new();
    assert!(!registry.contains(1));
    registry.insert(1, 10);
    assert!(registry.contains(1));
    assert_eq!(registry.get(1), Some(10));
    assert_eq!(registry.get(2), None);
}

#[test]
fn reentering_a_subscription_replaces_its_entry() {
    let mut registry = SubscriptionRegistry::new();
    registry.insert(7, 70);
    registry.insert(7, 71);
    assert_eq!(registry.get(7), Some(71));
    registry.remove(7);
    assert!(!registry.contains(7));
}

#[test]
fn unsubscribe_removes_only_that_subscription() {
    let mut registry = SubscriptionRegistry::new();
    registry.insert(1, 10);
    registry.insert(2, 20);
    registry.insert(3, 30);
    registry.remove(2);
    assert_eq!(registry.get(1), Some(10));
    assert_eq!(registry.get(2), None);
    assert_eq!(registry.get(3), Some(30));
}

#[test]
fn removing_a_subscription_never_started_changes_nothing() {
    let mut registry = SubscriptionRegistry::new();
    registry.insert(5, 50);
    registry.remove(9);
    assert_eq!(registry.get(5), Some(50));
}
