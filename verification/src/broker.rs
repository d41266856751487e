use vstd::prelude::*;

use crate::errors::Error;
use crate::ids::MessageId;
use crate::memory::ack_message_post;
use crate::memory::cleanup_expired_post;
use crate::memory::create_queue_post;
use crate::memory::delete_queue_post;
use crate::memory::get_queue_post;
use crate::memory::get_queue_stats_post;
use crate::memory::list_queues_post;
use crate::memory::nack_message_post;
use crate::memory::peek_message_post;
use crate::memory::pop_message_post;
use crate::memory::pop_messages_post;
use crate::memory::purge_queue_post;
use crate::memory::push_message_post;
use crate::memory::MemoryStorage;
use crate::message::Message;
use crate::queue::spec_default_config;
use crate::queue::Queue;
use crate::queue::QueueConfig;
use crate::queue::QueueStats;

verus! {

/// How many messages one receive request asks for when the caller names no
/// count.
pub fn default_max_messages() -> (r: usize)
    ensures
        r == 1,
{
    1
}

/// The central message broker: it coordinates every queue and message
/// operation by delegating to the storage engine it owns.
pub struct Broker {
    /// The storage backend.
    pub storage: MemoryStorage,
}

impl Broker {
    /// A broker over the given storage backend.
    pub fn new(storage: MemoryStorage) -> (r: Broker)
        requires
            storage.wf(),
        ensures
            r.storage == storage,
    {
        Broker { storage }
    }

    /// The storage engine.
    pub fn storage(&self) -> (r: &MemoryStorage)
        ensures
            r == self.storage,
    {
        &self.storage
    }

    // ==================== Queue operations ====================

    /// Create a queue with the given name and the default configuration.
    pub fn create_queue(&mut self, name: &str) -> (r: Result<Queue, Error>)
        requires
            old(self).storage.wf(),
        ensures
            final(self).storage.wf(),
            exists|q: Queue|
                {
                    &&& q.name@ == name@
                    &&& q.config == spec_default_config()
                    &&& #[trigger] create_queue_post(
                        old(self).storage,
                        final(self).storage,
                        q,
                        r,
                    )
                },
    {
        let queue = Queue::new(name);
        let ghost q = queue;
        let r = self.storage.create_queue(queue);
        proof {
            assert(create_queue_post(old(self).storage, self.storage, q, r));
        }
        r
    }

    /// Create a queue with the given name and configuration.
    pub fn create_queue_with_config(&mut self, name: &str, config: QueueConfig) -> (r: Result<
        Queue,
        Error,
    >)
        requires
            old(self).storage.wf(),
        ensures
            final(self).storage.wf(),
            exists|q: Queue|
                {
                    &&& q.name@ == name@
                    &&& q.config == config
                    &&& #[trigger] create_queue_post(
                        old(self).storage,
                        final(self).storage,
                        q,
                        r,
                    )
                },
    {
        let queue = Queue::with_config(name, config);
        let ghost q = queue;
        let r = self.storage.create_queue(queue);
        proof {
            assert(create_queue_post(old(self).storage, self.storage, q, r));
        }
        r
    }

    /// A copy of the queue registered under `name`, if any.
    pub fn get_queue(&self, name: &str) -> (r: Result<Option<Queue>, Error>)
        requires
            self.storage.wf(),
        ensures
            get_queue_post(self.storage, name@, r),
    {
        self.storage.get_queue(name)
    }

    /// Copies of all queues, in creation order.
    pub fn list_queues(&self) -> (r: Result<Vec<Queue>, Error>)
        ensures
            list_queues_post(self.storage, r),
    {
        self.storage.list_queues()
    }

    /// Delete the queue registered under `name` with all its messages.
    pub fn delete_queue(&mut self, name: &str) -> (r: Result<(), Error>)
        requires
            old(self).storage.wf(),
        ensures
            final(self).storage.wf(),
            delete_queue_post(old(self).storage, final(self).storage, name@, r),
    {
        self.storage.delete_queue(name)
    }

    /// A point-in-time summary of the queue registered under `name`.
    pub fn get_queue_stats(&self, name: &str) -> (r: Result<QueueStats, Error>)
        requires
            self.storage.wf(),
        ensures
            get_queue_stats_post(self.storage, name@, r),
    {
        self.storage.get_queue_stats(name)
    }

    /// Drop every message of the queue registered under `name`.
    pub fn purge_queue(&mut self, name: &str) -> (r: Result<u64, Error>)
        requires
            old(self).storage.wf(),
        ensures
            final(self).storage.wf(),
            purge_queue_post(old(self).storage, final(self).storage, name@, r),
    {
        self.storage.purge_queue(name)
    }

    // ==================== Message operations ====================

    /// Publish `message` to the queue registered under `queue_name`.
    pub fn publish(&mut self, queue_name: &str, message: Message) -> (r: Result<MessageId, Error>)
        requires
            old(self).storage.wf(),
            message.delivery_count < u32::MAX,
        ensures
            final(self).storage.wf(),
            push_message_post(old(self).storage, final(self).storage, queue_name@, message, r),
    {
        self.storage.push_message(queue_name, message)
    }

    /// Publish a fresh message holding `body` to the queue registered under
    /// `queue_name`.
    pub fn publish_bytes(&mut self, queue_name: &str, body: Vec<u8>) -> (r: Result<
        MessageId,
        Error,
    >)
        requires
            old(self).storage.wf(),
        ensures
            final(self).storage.wf(),
            exists|m: Message|
                {
                    &&& m.body == body
                    &&& m.delivery_count == 0
                    &&& m.status == crate::message::MessageStatus::Pending
                    &&& m.expires_at is None
                    &&& #[trigger] push_message_post(
                        old(self).storage,
                        final(self).storage,
                        queue_name@,
                        m,
                        r,
                    )
                },
    {
        let message = Message::new(body);
        let ghost m = message;
        let r = self.storage.push_message(queue_name, message);
        proof {
            assert(push_message_post(old(self).storage, self.storage, queue_name@, m, r));
        }
        r
    }

    /// Receive one message, judging expiry against the wall clock.
    pub fn receive(&mut self, queue_name: &str) -> (r: Result<Option<Message>, Error>)
        requires
            old(self).storage.wf(),
        ensures
            final(self).storage.wf(),
            exists|now: i64|
                pop_message_post(old(self).storage, final(self).storage, queue_name@, r, now),
    {
        self.storage.pop_message(queue_name)
    }

    /// Receive up to `max` messages, judging expiry against the wall clock.
    pub fn receive_batch(&mut self, queue_name: &str, max: usize) -> (r: Result<
        Vec<Message>,
        Error,
    >)
        requires
            old(self).storage.wf(),
        ensures
            final(self).storage.wf(),
            exists|now: i64|
                pop_messages_post(
                    old(self).storage,
                    final(self).storage,
                    queue_name@,
                    max as nat,
                    r,
                    now,
                ),
    {
        self.storage.pop_messages(queue_name, max)
    }

    /// A copy of the next pending message, without removing it.
    pub fn peek(&self, queue_name: &str) -> (r: Result<Option<Message>, Error>)
        requires
            self.storage.wf(),
        ensures
            peek_message_post(self.storage, queue_name@, r),
    {
        self.storage.peek_message(queue_name)
    }

    /// Acknowledge a delivered message: it is gone for good.
    pub fn ack(&mut self, queue_name: &str, message_id: &MessageId) -> (r: Result<(), Error>)
        requires
            old(self).storage.wf(),
        ensures
            final(self).storage.wf(),
            ack_message_post(
                old(self).storage,
                final(self).storage,
                queue_name@,
                *message_id,
                r,
            ),
    {
        self.storage.ack_message(queue_name, message_id)
    }

    /// Negatively acknowledge a delivered message: it returns to the head of
    /// the queue, or is discarded once the retry limit is reached.
    pub fn nack(&mut self, queue_name: &str, message_id: &MessageId) -> (r: Result<(), Error>)
        requires
            old(self).storage.wf(),
        ensures
            final(self).storage.wf(),
            nack_message_post(
                old(self).storage,
                final(self).storage,
                queue_name@,
                *message_id,
                r,
            ),
    {
        self.storage.nack_message(queue_name, message_id)
    }

    // ==================== Maintenance ====================

    /// One maintenance sweep: drop every pending message already expired,
    /// judged against one wall-clock instant shared by all queues.
    pub fn cleanup_expired(&mut self) -> (r: Result<u64, Error>)
        requires
            old(self).storage.wf(),
        ensures
            final(self).storage.wf(),
            exists|now: i64|
                cleanup_expired_post(old(self).storage, final(self).storage, r, now),
    {
        self.storage.cleanup_expired()
    }
}

} // verus!
