use flowq::Broker;
use flowq::MemoryStorage;

fn create_test_broker() -> Broker {
    Broker::new(MemoryStorage::new())
}

#[test]
fn test_create_queue() {
    let mut broker = create_test_broker();

    let queue = broker.create_queue("test-queue").unwrap();
    assert_eq!(queue.name, "test-queue");

    let queues = broker.list_queues().unwrap();
    assert_eq!(queues.len(), 1);
}

#[test]
fn test_publish_and_receive() {
    let mut broker = create_test_broker();
    broker.create_queue("test").unwrap();

    // Publish
    let msg_id = broker
        .publish_bytes("test", "Hello!".as_bytes().to_vec())
        .unwrap();

    // Receive
    let received = broker.receive("test").unwrap();
    assert!(received.is_some());

    let msg = received.unwrap();
    assert_eq!(msg.id, msg_id);
    assert_eq!(msg.body_as_str(), Some("Hello!"));

    // Ack
    broker.ack("test", &msg.id).unwrap();

    // Queue should be empty
    let stats = broker.get_queue_stats("test").unwrap();
    assert_eq!(stats.message_count, 0);
}

#[test]
fn test_receive_batch() {
    let mut broker = create_test_broker();
    broker.create_queue("test").unwrap();

    // Publish multiple messages
    for i in 0..5 {
        broker
            .publish_bytes("test", format!("Message {}", i).into_bytes())
            .unwrap();
    }

    // Receive batch
    let messages = broker.receive_batch("test", 3).unwrap();
    assert_eq!(messages.len(), 3);

    // Stats should show 2 pending, 3 in-flight
    let stats = broker.get_queue_stats("test").unwrap();
    assert_eq!(stats.pending_count, 2);
    assert_eq!(stats.in_flight_count, 3);
}

#[test]
fn test_nack_returns_to_queue() {
    let mut broker = create_test_broker();
    broker.create_queue("test").unwrap();

    broker
        .publish_bytes("test", "test message".as_bytes().to_vec())
        .unwrap();

    let msg = broker.receive("test").unwrap().unwrap();
    broker.nack("test", &msg.id).unwrap();

    // Message should be back in queue
    let stats = broker.get_queue_stats("test").unwrap();
    assert_eq!(stats.pending_count, 1);
    assert_eq!(stats.in_flight_count, 0);
}
