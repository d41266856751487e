use flowq::Broker;
use flowq::Error;
use flowq::MemoryStorage;
use flowq::Message;
use flowq::MessageId;
use flowq::Queue;
use flowq::QueueConfig;

// ==================== Identifier text ====================

#[test]
fn test_id_text_zero() {
    let id = MessageId(0);
    assert_eq!(id.text(), "00000000-0000-0000-0000-000000000000");
}

#[test]
fn test_id_text_nibble_order() {
    let id = MessageId(0x0123_4567_89ab_cdef_0123_4567_89ab_cdefu128);
    assert_eq!(id.text(), "01234567-89ab-cdef-0123-456789abcdef");
}

#[test]
fn test_message_not_found_carries_id_text() {
    let mut storage = MemoryStorage::new();
    storage.create_queue(Queue::new("t")).unwrap();
    let id = MessageId(0xffu128);
    match storage.ack_message("t", &id) {
        Err(Error::MessageNotFound(text)) => {
            assert_eq!(text, "00000000-0000-0000-0000-0000000000ff");
        }
        other => panic!("expected MessageNotFound, got {:?}", other),
    }
}

// ==================== Message helpers ====================

#[test]
fn test_body_as_str_rejects_invalid_utf8() {
    let msg = Message::new(vec![0xff, 0xfe, 0x80]);
    assert_eq!(msg.body_as_str(), None);
}

#[test]
fn test_priority_is_clamped() {
    let low = Message::new(b"x".to_vec()).with_priority(0);
    let high = Message::new(b"x".to_vec()).with_priority(11);
    let mid = Message::new(b"x".to_vec()).with_priority(7);
    assert_eq!(low.priority, 1);
    assert_eq!(high.priority, 10);
    assert_eq!(mid.priority, 7);
}

#[test]
fn test_attribute_insert_replaces() {
    let msg = Message::new(b"x".to_vec())
        .with_attribute("k", "v1")
        .with_attribute("k", "v2")
        .with_attribute("other", "w");
    assert_eq!(msg.attributes.get("k"), Some(&"v2".to_string()));
    assert_eq!(msg.attributes.get("other"), Some(&"w".to_string()));
    assert_eq!(msg.attributes.get("missing"), None);
    assert_eq!(msg.attributes.len(), 2);
}

#[test]
fn test_dedup_and_expiry_builders() {
    let msg = Message::new(b"x".to_vec())
        .with_dedup_id("dedup-1")
        .with_expiry(123456);
    assert_eq!(msg.dedup_id, Some("dedup-1".to_string()));
    assert_eq!(msg.expires_at, Some(123456));
    assert!(!msg.is_expired_at(123456));
    assert!(msg.is_expired_at(123457));
}

// ==================== Defaults ====================

#[test]
fn test_declared_defaults() {
    assert_eq!(flowq::queue::default_visibility_timeout(), 30);
    assert_eq!(flowq::queue::default_max_retries(), 5);
    assert_eq!(flowq::queue::default_dedup_window(), 300);
    assert_eq!(flowq::message::default_priority(), 5);
    assert_eq!(flowq::broker::default_max_messages(), 1);
    let config = QueueConfig::default();
    assert_eq!(config.max_messages, 0);
    assert_eq!(config.max_size_bytes, 0);
    assert_eq!(config.message_ttl_secs, 0);
    assert!(!config.dedup_enabled);
    assert_eq!(config.dead_letter_queue, None);
}

// ==================== Queue management errors ====================

#[test]
fn test_duplicate_queue_rejected() {
    let mut storage = MemoryStorage::new();
    storage.create_queue(Queue::new("dup")).unwrap();
    match storage.create_queue(Queue::new("dup")) {
        Err(Error::QueueAlreadyExists(name)) => assert_eq!(name, "dup"),
        other => panic!("expected QueueAlreadyExists, got {:?}", other),
    }
}

#[test]
fn test_missing_queue_errors() {
    let mut storage = MemoryStorage::new();
    assert!(matches!(
        storage.get_queue_stats("none"),
        Err(Error::QueueNotFound(_))
    ));
    assert!(matches!(
        storage.delete_queue("none"),
        Err(Error::QueueNotFound(_))
    ));
    assert!(matches!(
        storage.purge_queue("none"),
        Err(Error::QueueNotFound(_))
    ));
    assert!(matches!(
        storage.push_message("none", Message::new(b"x".to_vec())),
        Err(Error::QueueNotFound(_))
    ));
    assert!(matches!(
        storage.pop_message("none"),
        Err(Error::QueueNotFound(_))
    ));
    assert!(matches!(
        storage.peek_message("none"),
        Err(Error::QueueNotFound(_))
    ));
    assert!(storage.get_queue("none").unwrap().is_none());
}

#[test]
fn test_delete_queue_drops_messages() {
    let mut storage = MemoryStorage::new();
    storage.create_queue(Queue::new("gone")).unwrap();
    storage
        .push_message("gone", Message::new(b"x".to_vec()))
        .unwrap();
    storage.delete_queue("gone").unwrap();
    assert!(storage.get_queue("gone").unwrap().is_none());
    assert!(matches!(
        storage.pop_message("gone"),
        Err(Error::QueueNotFound(_))
    ));
}

#[test]
fn test_list_queues_in_creation_order() {
    let mut storage = MemoryStorage::new();
    storage.create_queue(Queue::new("one")).unwrap();
    storage.create_queue(Queue::new("two")).unwrap();
    let names: Vec<String> = storage
        .list_queues()
        .unwrap()
        .into_iter()
        .map(|q| q.name)
        .collect();
    assert_eq!(names, vec!["one".to_string(), "two".to_string()]);
}

// ==================== Peek, get, purge, stats ====================

#[test]
fn test_peek_does_not_mutate() {
    let mut storage = MemoryStorage::new();
    storage.create_queue(Queue::new("p")).unwrap();
    storage
        .push_message("p", Message::new(b"head".to_vec()))
        .unwrap();
    let peeked = storage.peek_message("p").unwrap().unwrap();
    assert_eq!(peeked.body_as_str(), Some("head"));
    assert_eq!(peeked.delivery_count, 0);
    let stats = storage.get_queue_stats("p").unwrap();
    assert_eq!(stats.pending_count, 1);
    assert_eq!(stats.in_flight_count, 0);
    let popped = storage.pop_message("p").unwrap().unwrap();
    assert_eq!(popped.id, peeked.id);
}

#[test]
fn test_get_message_in_both_places() {
    let mut storage = MemoryStorage::new();
    storage.create_queue(Queue::new("g")).unwrap();
    let pending_id = storage
        .push_message("g", Message::new(b"a".to_vec()))
        .unwrap();
    let flight = {
        storage
            .push_message("g", Message::new(b"b".to_vec()))
            .unwrap();
        // "a" is at the head, so it is delivered first.
        storage.pop_message("g").unwrap().unwrap()
    };
    assert_eq!(flight.id, pending_id);
    let found = storage.get_message("g", &flight.id).unwrap().unwrap();
    assert_eq!(found.delivery_count, 1);
    let second = storage.peek_message("g").unwrap().unwrap();
    let found = storage.get_message("g", &second.id).unwrap().unwrap();
    assert_eq!(found.delivery_count, 0);
    assert!(storage
        .get_message("g", &MessageId(7))
        .unwrap()
        .is_none());
}

#[test]
fn test_purge_counts_pending_only() {
    let mut storage = MemoryStorage::new();
    storage.create_queue(Queue::new("purge")).unwrap();
    storage
        .push_message("purge", Message::new(b"a".to_vec()))
        .unwrap();
    storage
        .push_message("purge", Message::new(b"b".to_vec()))
        .unwrap();
    storage.pop_message("purge").unwrap().unwrap();
    let purged = storage.purge_queue("purge").unwrap();
    assert_eq!(purged, 1);
    let stats = storage.get_queue_stats("purge").unwrap();
    assert_eq!(stats.pending_count, 0);
    assert_eq!(stats.in_flight_count, 0);
    assert_eq!(stats.message_count, 0);
}

#[test]
fn test_stats_size_bytes() {
    let mut storage = MemoryStorage::new();
    storage.create_queue(Queue::new("sz")).unwrap();
    storage
        .push_message("sz", Message::new(b"12345".to_vec()))
        .unwrap();
    storage
        .push_message("sz", Message::new(b"123".to_vec()))
        .unwrap();
    let stats = storage.get_queue_stats("sz").unwrap();
    assert_eq!(stats.size_bytes, 8);
    assert_eq!(stats.consumer_count, 0);
}

#[test]
fn test_broker_queue_with_config_and_maintenance() {
    let mut broker = Broker::new(MemoryStorage::default());
    let config = QueueConfig {
        message_ttl_secs: 60,
        ..Default::default()
    };
    let queue = broker.create_queue_with_config("cfg", config).unwrap();
    assert_eq!(queue.config.message_ttl_secs, 60);
    assert_eq!(broker.cleanup_expired().unwrap(), 0);
    assert!(broker.peek("cfg").unwrap().is_none());
    assert_eq!(broker.storage().queues.len(), 1);
}

// ==================== JSON bodies ====================

#[test]
fn test_json_body_roundtrip() {
    let mut obj = serde_json::Map::new();
    obj.insert(
        "name".to_string(),
        serde_json::Value::String("test".to_string()),
    );
    obj.insert(
        "value".to_string(),
        serde_json::Value::Number(serde_json::Number::from(42)),
    );
    let data = serde_json::Value::Object(obj);

    let body = serde_json::to_vec(&data).unwrap();
    let msg = Message::new(body).with_content_type("application/json");
    assert_eq!(msg.content_type, Some("application/json".to_string()));

    let parsed: serde_json::Value = serde_json::from_slice(&msg.body).unwrap();
    assert_eq!(parsed, data);
}
