use flowq::Message;
use flowq::MessageStatus;
use flowq::Queue;
use flowq::QueueConfig;

#[test]
fn test_message_creation() {
    let msg = Message::new("Hello, World!".as_bytes().to_vec());
    assert_eq!(msg.body_as_str(), Some("Hello, World!"));
    assert_eq!(msg.priority, 5);
    assert_eq!(msg.status, MessageStatus::Pending);
}

#[test]
fn test_message_builder() {
    let msg = Message::new("test".as_bytes().to_vec())
        .with_priority(8)
        .with_content_type("text/plain")
        .with_attribute("key", "value");

    assert_eq!(msg.priority, 8);
    assert_eq!(msg.content_type, Some("text/plain".to_string()));
    assert_eq!(msg.attributes.get("key"), Some(&"value".to_string()));
}

#[test]
fn test_queue_creation() {
    let queue = Queue::new("test-queue");
    assert_eq!(queue.name, "test-queue");
    assert_eq!(queue.config.visibility_timeout_secs, 30);
    assert_eq!(queue.config.max_retries, 5);
}

#[test]
fn test_queue_with_config() {
    let config = QueueConfig {
        max_messages: 1000,
        message_ttl_secs: 3600,
        ..Default::default()
    };
    let queue = Queue::with_config("my-queue", config);
    assert_eq!(queue.config.max_messages, 1000);
    assert_eq!(queue.config.message_ttl_secs, 3600);
}
