use iii_core::pubsub_subscriptions::SubscriptionTable;

#[test]
fn register_skips_empty_topic_and_destroyed_worker() {
    let mut t = SubscriptionTable::new();
    assert!(!t.register("t1".to_string(), String::new(), "f".to_string(), false));
    assert!(t.entries().is_empty());
    assert!(!t.register("t1".to_string(), "orders".to_string(), "f".to_string(), true));
    assert!(t.entries().is_empty());
}

#[test]
fn register_replaces_and_unregister_removes() {
    let mut t = SubscriptionTable::new();
    assert!(t.register("t1".to_string(), "orders".to_string(), "f1".to_string(), false));
    assert!(t.register("t2".to_string(), "users".to_string(), "f2".to_string(), false));
    assert!(t.register("t1".to_string(), "payments".to_string(), "f3".to_string(), false));
    assert_eq!(t.entries().len(), 2);
    assert_eq!(t.entries()[0].id, "t1");
    assert_eq!(t.entries()[0].topic, "payments");
    assert_eq!(t.entries()[0].function_id, "f3");

    let removed = t.unregister("t1").expect("t1 was subscribed");
    assert_eq!(removed.topic, "payments");
    assert!(t.unregister("t1").is_none());
    assert_eq!(t.entries().len(), 1);
    assert_eq!(t.entries()[0].id, "t2");

    let all = t.drain();
    assert_eq!(all.len(), 1);
    assert_eq!(all[0].topic, "users");
    assert!(t.entries().is_empty());
}
