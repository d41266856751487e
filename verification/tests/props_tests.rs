use flowq::Broker;
use flowq::Error;
use flowq::MemoryStorage;
use flowq::Message;
use flowq::MessageStatus;
use flowq::Queue;
use flowq::QueueConfig;

fn queue_with(config: QueueConfig) -> (MemoryStorage, &'static str) {
    let mut storage = MemoryStorage::new();
    storage
        .create_queue(Queue::with_config("q", config))
        .unwrap();
    (storage, "q")
}

// ==================== FIFO ordering ====================

#[test]
fn test_fifo_order_of_receives() {
    let mut storage = MemoryStorage::new();
    storage.create_queue(Queue::new("fifo")).unwrap();
    for body in ["first", "second", "third"] {
        storage
            .push_message("fifo", Message::new(body.as_bytes().to_vec()))
            .unwrap();
    }
    let a = storage.pop_message("fifo").unwrap().unwrap();
    let b = storage.pop_message("fifo").unwrap().unwrap();
    let c = storage.pop_message("fifo").unwrap().unwrap();
    assert_eq!(a.body_as_str(), Some("first"));
    assert_eq!(b.body_as_str(), Some("second"));
    assert_eq!(c.body_as_str(), Some("third"));
    assert!(storage.pop_message("fifo").unwrap().is_none());
}

// ==================== At-most-once visibility ====================

#[test]
fn test_at_most_once_across_receives() {
    let mut storage = MemoryStorage::new();
    storage.create_queue(Queue::new("once")).unwrap();
    let id1 = storage
        .push_message("once", Message::new(b"a".to_vec()))
        .unwrap();
    let id2 = storage
        .push_message("once", Message::new(b"b".to_vec()))
        .unwrap();
    assert_ne!(id1, id2);
    let m1 = storage.pop_message("once").unwrap().unwrap();
    let m2 = storage.pop_message("once").unwrap().unwrap();
    assert_ne!(m1.id, m2.id);
    assert!(storage.pop_message("once").unwrap().is_none());
}

// ==================== Lifecycle closure ====================

#[test]
fn test_acked_message_is_gone_for_good() {
    let mut storage = MemoryStorage::new();
    storage.create_queue(Queue::new("done")).unwrap();
    storage
        .push_message("done", Message::new(b"x".to_vec()))
        .unwrap();
    let m = storage.pop_message("done").unwrap().unwrap();
    storage.ack_message("done", &m.id).unwrap();
    assert!(storage.get_message("done", &m.id).unwrap().is_none());
    assert!(matches!(
        storage.ack_message("done", &m.id),
        Err(Error::MessageNotFound(_))
    ));
    assert!(matches!(
        storage.nack_message("done", &m.id),
        Err(Error::MessageNotFound(_))
    ));
}

// ==================== Retry ceiling ====================

#[test]
fn test_retry_ceiling_discards_at_limit() {
    // With a retry limit of 1, the first delivery brings the count to the
    // limit, so the first negative acknowledgement already discards the
    // message instead of requeueing it.
    let (mut storage, q) = queue_with(QueueConfig {
        max_retries: 1,
        ..Default::default()
    });
    storage.push_message(q, Message::new(b"x".to_vec())).unwrap();
    let m = storage.pop_message(q).unwrap().unwrap();
    assert_eq!(m.delivery_count, 1);
    storage.nack_message(q, &m.id).unwrap();
    let stats = storage.get_queue_stats(q).unwrap();
    assert_eq!(stats.message_count, 0);
    assert!(storage.get_message(q, &m.id).unwrap().is_none());
}

#[test]
fn test_retry_then_exhaustion() {
    // Receive, requeue once, receive again (second delivery), then the next
    // negative acknowledgement reaches the limit and the message is gone.
    let (mut storage, q) = queue_with(QueueConfig {
        max_retries: 2,
        ..Default::default()
    });
    storage.push_message(q, Message::new(b"x".to_vec())).unwrap();
    let m = storage.pop_message(q).unwrap().unwrap();
    assert_eq!(m.delivery_count, 1);
    storage.nack_message(q, &m.id).unwrap();
    let m = storage.pop_message(q).unwrap().unwrap();
    assert_eq!(m.delivery_count, 2);
    assert_eq!(m.status, MessageStatus::Delivered);
    storage.nack_message(q, &m.id).unwrap();
    let stats = storage.get_queue_stats(q).unwrap();
    assert_eq!(stats.message_count, 0);
}

#[test]
fn test_nack_requeues_at_head() {
    let mut storage = MemoryStorage::new();
    storage.create_queue(Queue::new("head")).unwrap();
    storage
        .push_message("head", Message::new(b"a".to_vec()))
        .unwrap();
    storage
        .push_message("head", Message::new(b"b".to_vec()))
        .unwrap();
    let a = storage.pop_message("head").unwrap().unwrap();
    assert_eq!(a.body_as_str(), Some("a"));
    storage.nack_message("head", &a.id).unwrap();
    // The requeued message goes to the head, ahead of "b".
    let again = storage.pop_message("head").unwrap().unwrap();
    assert_eq!(again.id, a.id);
    assert_eq!(again.delivery_count, 2);
    assert_eq!(again.status, MessageStatus::Delivered);
}

// ==================== Expiry ====================

#[test]
fn test_expired_message_skipped_by_pop() {
    let mut storage = MemoryStorage::new();
    storage.create_queue(Queue::new("exp")).unwrap();
    let now: i64 = 1_000_000;
    storage
        .push_message("exp", Message::new(b"old".to_vec()).with_expiry(now - 1))
        .unwrap();
    storage
        .push_message("exp", Message::new(b"live".to_vec()).with_expiry(now + 1))
        .unwrap();
    let m = storage.pop_message_at("exp", now).unwrap().unwrap();
    assert_eq!(m.body_as_str(), Some("live"));
    // The expired head was discarded while scanning.
    let stats = storage.get_queue_stats("exp").unwrap();
    assert_eq!(stats.pending_count, 0);
    assert_eq!(stats.in_flight_count, 1);
}

#[test]
fn test_pop_on_all_expired_returns_none() {
    let mut storage = MemoryStorage::new();
    storage.create_queue(Queue::new("exp")).unwrap();
    let now: i64 = 1_000_000;
    storage
        .push_message("exp", Message::new(b"old".to_vec()).with_expiry(now - 5))
        .unwrap();
    assert!(storage.pop_message_at("exp", now).unwrap().is_none());
    let stats = storage.get_queue_stats("exp").unwrap();
    assert_eq!(stats.message_count, 0);
}

#[test]
fn test_cleanup_counts_expired() {
    let mut storage = MemoryStorage::new();
    storage.create_queue(Queue::new("a")).unwrap();
    storage.create_queue(Queue::new("b")).unwrap();
    let now: i64 = 1_000_000;
    storage
        .push_message("a", Message::new(b"gone".to_vec()).with_expiry(now - 1))
        .unwrap();
    storage
        .push_message("a", Message::new(b"keep".to_vec()))
        .unwrap();
    storage
        .push_message("b", Message::new(b"gone too".to_vec()).with_expiry(now - 2))
        .unwrap();
    let removed = storage.cleanup_expired_at(now).unwrap();
    assert_eq!(removed, 2);
    assert_eq!(storage.get_queue_stats("a").unwrap().pending_count, 1);
    assert_eq!(storage.get_queue_stats("b").unwrap().pending_count, 0);
}

#[test]
fn test_expiry_boundary_is_strict() {
    // A message whose expiry equals "now" is not yet expired.
    let mut storage = MemoryStorage::new();
    storage.create_queue(Queue::new("edge")).unwrap();
    let now: i64 = 42;
    storage
        .push_message("edge", Message::new(b"x".to_vec()).with_expiry(now))
        .unwrap();
    assert_eq!(storage.cleanup_expired_at(now).unwrap(), 0);
    let m = storage.pop_message_at("edge", now).unwrap();
    assert!(m.is_some());
}

// ==================== Capacity ====================

#[test]
fn test_capacity_scenario() {
    // Queue with capacity one: the first publish succeeds, the second is
    // rejected; receiving and acknowledging the first frees the slot.
    let (mut storage, q) = queue_with(QueueConfig {
        max_messages: 1,
        ..Default::default()
    });
    storage
        .push_message(q, Message::new(b"first".to_vec()))
        .unwrap();
    let second = Message::new(b"second".to_vec());
    assert!(matches!(
        storage.push_message(q, second),
        Err(Error::QueueFull(_))
    ));
    let first = storage.pop_message(q).unwrap().unwrap();
    storage.ack_message(q, &first.id).unwrap();
    let second = Message::new(b"second".to_vec());
    assert!(storage.push_message(q, second).is_ok());
}

#[test]
fn test_zero_capacity_means_unlimited() {
    let (mut storage, q) = queue_with(QueueConfig {
        max_messages: 0,
        ..Default::default()
    });
    for i in 0..100 {
        storage
            .push_message(q, Message::new(format!("{}", i).into_bytes()))
            .unwrap();
    }
    assert_eq!(storage.get_queue_stats(q).unwrap().pending_count, 100);
}

// ==================== Batch scenario ====================

#[test]
fn test_scenario_orders_batch() {
    let mut broker = Broker::new(MemoryStorage::new());
    broker.create_queue("orders").unwrap();
    for body in ["A", "B", "C"] {
        broker
            .publish_bytes("orders", body.as_bytes().to_vec())
            .unwrap();
    }
    let batch = broker.receive_batch("orders", 2).unwrap();
    assert_eq!(batch.len(), 2);
    assert_eq!(batch[0].body_as_str(), Some("A"));
    assert_eq!(batch[1].body_as_str(), Some("B"));
    assert_eq!(batch[0].delivery_count, 1);
    assert_eq!(batch[1].delivery_count, 1);
    let stats = broker.get_queue_stats("orders").unwrap();
    assert_eq!(stats.pending_count, 1);
    assert_eq!(stats.in_flight_count, 2);
}

#[test]
fn test_batch_is_best_effort() {
    let mut storage = MemoryStorage::new();
    storage.create_queue(Queue::new("few")).unwrap();
    storage
        .push_message("few", Message::new(b"only".to_vec()))
        .unwrap();
    let batch = storage.pop_messages("few", 10).unwrap();
    assert_eq!(batch.len(), 1);
    let batch = storage.pop_messages("few", 10).unwrap();
    assert_eq!(batch.len(), 0);
}

#[test]
fn test_batch_of_zero_asks_nothing() {
    let mut storage = MemoryStorage::new();
    // Zero receives are requested, so even a missing queue is not an error.
    let batch = storage.pop_messages("nowhere", 0).unwrap();
    assert_eq!(batch.len(), 0);
}
