use jsonrpc_engine::error::{ErrorCode, Failure};
use jsonrpc_engine::pubsub::{Refusal, Registry, SubscriptionId};

fn number(id: &SubscriptionId) -> u64 {
    match id {
        SubscriptionId::Number(n) => *n,
        SubscriptionId::String(s) => panic!("unexpected identifier {:?}", s),
    }
}

fn invalid_params() -> Failure {
    Failure {
        code: ErrorCode::InvalidParams.code(),
        message: "Invalid parameters. Subscription rejected.".to_string(),
        data: None,
    }
}

#[test]
fn subscribe_hands_out_fresh_identifiers() {
    let mut registry: Registry<&str> = Registry::new();
    assert_eq!(registry.len(), 0);
    let a = registry.subscribe(1, "sink a", Ok(())).unwrap();
    let b = registry.subscribe(1, "sink b", Ok(())).unwrap();
    let c = registry.subscribe(2, "sink c", Ok(())).unwrap();
    assert_eq!((number(&a), number(&b), number(&c)), (0, 1, 2));
    assert_eq!(registry.len(), 3);
    assert!(registry.is_subscribed(&a) && registry.is_subscribed(&b) && registry.is_subscribed(&c));
    assert_eq!(registry.sink(&b), Some(&"sink b"));
    // An identifier is not handed out again after its subscription is gone.
    assert!(registry.unsubscribe(&b));
    let d = registry.subscribe(1, "sink d", Ok(())).unwrap();
    assert_eq!(number(&d), 3);
    assert!(!registry.is_subscribed(&b));
}

#[test]
fn rejected_subscription_leaves_the_registry_unchanged() {
    let mut registry: Registry<&str> = Registry::new();
    let first = registry.subscribe(1, "kept", Ok(())).unwrap();
    let before = registry.len();
    match registry.subscribe(1, "refused", Err(invalid_params())) {
        Err((Refusal::Rejected(failure), sink)) => {
            assert_eq!(failure.code, -32602);
            assert_eq!(failure.message, "Invalid parameters. Subscription rejected.");
            assert_eq!(sink, "refused");
        }
        _ => panic!("expected a rejection"),
    }
    assert_eq!(registry.len(), before);
    assert!(registry.is_subscribed(&first));
    // The rejection used no identifier up.
    let next = registry.subscribe(1, "next", Ok(())).unwrap();
    assert_eq!(number(&next), 1);
}

#[test]
fn unsubscribe_is_idempotent_and_touches_nothing_else() {
    let mut registry: Registry<&str> = Registry::new();
    let a = registry.subscribe(1, "a", Ok(())).unwrap();
    let b = registry.subscribe(2, "b", Ok(())).unwrap();
    // Never issued.
    assert!(!registry.unsubscribe(&SubscriptionId::Number(77)));
    assert!(!registry.unsubscribe(&SubscriptionId::String("0".to_string())));
    assert_eq!(registry.len(), 2);
    // Issued, then removed twice.
    assert!(registry.unsubscribe(&a));
    assert!(!registry.unsubscribe(&a));
    assert_eq!(registry.len(), 1);
    assert!(!registry.is_subscribed(&a));
    assert!(registry.is_subscribed(&b));
    assert_eq!(registry.sink(&b), Some(&"b"));
}

#[test]
fn notify_on_a_removed_identifier_is_a_no_op() {
    let mut registry: Registry<&str> = Registry::new();
    let a = registry.subscribe(1, "a", Ok(())).unwrap();
    assert!(registry.unsubscribe(&a));
    assert_eq!(registry.notify(&a, "hello", "[10]").unwrap(), None);
    assert_eq!(registry.notify(&SubscriptionId::Number(5), "hello", "[10]").unwrap(), None);
    assert_eq!(
        registry.notify(&SubscriptionId::String("x".into()), "hello", "[10]").unwrap(),
        None
    );
    assert_eq!(registry.sink(&a), None);
    assert_eq!(registry.len(), 0);
    assert!(!registry.delivered(&a, false));
}

#[test]
fn notify_names_the_subscription_and_carries_the_payload() {
    let mut registry: Registry<&str> = Registry::new();
    let _ = registry.subscribe(1, "zero", Ok(())).unwrap();
    let id = registry.subscribe(1, "one", Ok(())).unwrap();
    let (sink, text) = registry.notify(&id, "hello", "[10]").unwrap().unwrap();
    assert_eq!(*sink, "one");
    assert_eq!(
        text,
        r#"{"jsonrpc":"2.0","method":"hello","params":{"subscription":1,"result":[10]}}"#
    );
    let value: serde_json::Value = serde_json::from_str(&text).unwrap();
    assert!(value.get("id").is_none());
    assert_eq!(value["params"]["subscription"].as_u64(), Some(1));
    assert_eq!(value["params"]["result"][0].as_u64(), Some(10));
}

#[test]
fn peer_that_has_gone_ends_the_subscription() {
    let mut registry: Registry<&str> = Registry::new();
    let a = registry.subscribe(1, "a", Ok(())).unwrap();
    let b = registry.subscribe(1, "b", Ok(())).unwrap();
    assert!(registry.delivered(&a, false));
    assert_eq!(registry.len(), 2);
    assert!(!registry.delivered(&a, true));
    assert_eq!(registry.len(), 1);
    assert!(!registry.is_subscribed(&a));
    assert!(registry.is_subscribed(&b));
    assert_eq!(registry.notify(&a, "hello", "1").unwrap(), None);
}

#[test]
fn teardown_ends_every_subscription_of_the_session() {
    let mut registry: Registry<String> = Registry::new();
    let mut ids = Vec::new();
    for (session, sink) in [(1, "a"), (2, "b"), (1, "c"), (3, "d"), (1, "e")] {
        ids.push(registry.subscribe(session, sink.to_string(), Ok(())).unwrap());
    }
    let sinks = registry.teardown(1);
    assert_eq!(sinks, vec!["a".to_string(), "c".to_string(), "e".to_string()]);
    assert_eq!(registry.len(), 2);
    assert!(!registry.is_subscribed(&ids[0]));
    assert!(registry.is_subscribed(&ids[1]));
    assert!(!registry.is_subscribed(&ids[2]));
    assert!(registry.is_subscribed(&ids[3]));
    assert!(!registry.is_subscribed(&ids[4]));
    assert_eq!(registry.sink(&ids[3]).map(|s| s.as_str()), Some("d"));
    // A session without subscriptions: nothing happens.
    assert!(registry.teardown(9).is_empty());
    assert!(registry.teardown(1).is_empty());
    assert_eq!(registry.len(), 2);
}
