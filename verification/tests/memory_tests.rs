use flowq::MemoryStorage;
use flowq::Message;
use flowq::Queue;

#[test]
fn test_create_and_get_queue() {
    let mut storage = MemoryStorage::new();
    let queue = Queue::new("test-queue");

    storage.create_queue(queue.clone()).unwrap();

    let retrieved = storage.get_queue("test-queue").unwrap();
    assert!(retrieved.is_some());
    assert_eq!(retrieved.unwrap().name, "test-queue");
}

#[test]
fn test_push_and_pop_message() {
    let mut storage = MemoryStorage::new();
    storage.create_queue(Queue::new("test")).unwrap();

    let msg = Message::new("Hello, World!".as_bytes().to_vec());
    let msg_id = storage.push_message("test", msg).unwrap();

    let received = storage.pop_message("test").unwrap();
    assert!(received.is_some());

    let received = received.unwrap();
    assert_eq!(received.id, msg_id);
    assert_eq!(received.body_as_str(), Some("Hello, World!"));
    assert_eq!(received.delivery_count, 1);
}

#[test]
fn test_ack_message() {
    let mut storage = MemoryStorage::new();
    storage.create_queue(Queue::new("test")).unwrap();

    let msg = Message::new("test".as_bytes().to_vec());
    storage.push_message("test", msg).unwrap();

    let received = storage.pop_message("test").unwrap().unwrap();
    storage.ack_message("test", &received.id).unwrap();

    // Message should be gone
    let stats = storage.get_queue_stats("test").unwrap();
    assert_eq!(stats.message_count, 0);
}

#[test]
fn test_nack_message() {
    let mut storage = MemoryStorage::new();
    storage.create_queue(Queue::new("test")).unwrap();

    let msg = Message::new("test".as_bytes().to_vec());
    storage.push_message("test", msg).unwrap();

    let received = storage.pop_message("test").unwrap().unwrap();
    storage.nack_message("test", &received.id).unwrap();

    // Message should be back in queue
    let stats = storage.get_queue_stats("test").unwrap();
    assert_eq!(stats.pending_count, 1);
}
