use vstd::prelude::*;

use crate::clock::now_micros;
use crate::ids::QueueId;
use crate::message::clone_opt_string;

verus! {

/// The default visibility timeout, in seconds.
pub fn default_visibility_timeout() -> (r: u64)
    ensures
        r == 30,
{
    30
}

/// The default retry limit.
pub fn default_max_retries() -> (r: u32)
    ensures
        r == 5,
{
    5
}

/// The default deduplication window, in seconds.
pub fn default_dedup_window() -> (r: u64)
    ensures
        r == 300,
{
    300
}

/// Queue configuration. `max_size_bytes`, `message_ttl_secs`,
/// `visibility_timeout_secs`, `dead_letter_queue`, `dedup_enabled` and
/// `dedup_window_secs` are declared knobs that the engine stores but does not
/// enforce; only `max_messages` and `max_retries` drive behaviour.
#[derive(Debug)]
pub struct QueueConfig {
    /// Capacity: most messages allowed in the pending sequence (0 = unlimited).
    pub max_messages: u64,
    /// Most bytes allowed in the queue (0 = unlimited; not enforced).
    pub max_size_bytes: u64,
    /// Default message time-to-live in seconds (0 = no expiry; not applied
    /// automatically).
    pub message_ttl_secs: u64,
    /// How long a delivered message stays hidden, in seconds (not enforced).
    pub visibility_timeout_secs: u64,
    /// How many deliveries a message may see before a negative
    /// acknowledgement marks it failed.
    pub max_retries: u32,
    /// Name of a dead-letter queue (declared; routing not implemented).
    pub dead_letter_queue: Option<String>,
    /// Whether deduplication is enabled (not enforced).
    pub dedup_enabled: bool,
    /// Deduplication window in seconds (unused).
    pub dedup_window_secs: u64,
}

/// The default queue configuration.
pub open spec fn spec_default_config() -> QueueConfig {
    QueueConfig {
        max_messages: 0,
        max_size_bytes: 0,
        message_ttl_secs: 0,
        visibility_timeout_secs: 30,
        max_retries: 5,
        dead_letter_queue: None,
        dedup_enabled: false,
        dedup_window_secs: 300,
    }
}

impl Default for QueueConfig {
    fn default() -> (r: Self)
        ensures
            r == spec_default_config(),
    {
        QueueConfig {
            max_messages: 0,
            max_size_bytes: 0,
            message_ttl_secs: 0,
            visibility_timeout_secs: default_visibility_timeout(),
            max_retries: default_max_retries(),
            dead_letter_queue: None,
            dedup_enabled: false,
            dedup_window_secs: default_dedup_window(),
        }
    }
}

impl Clone for QueueConfig {
    fn clone(&self) -> (r: Self)
        ensures
            r == *self,
    {
        QueueConfig {
            max_messages: self.max_messages,
            max_size_bytes: self.max_size_bytes,
            message_ttl_secs: self.message_ttl_secs,
            visibility_timeout_secs: self.visibility_timeout_secs,
            max_retries: self.max_retries,
            dead_letter_queue: clone_opt_string(&self.dead_letter_queue),
            dedup_enabled: self.dedup_enabled,
            dedup_window_secs: self.dedup_window_secs,
        }
    }
}

/// Queue metadata. The name is the primary lookup key, globally unique within
/// one engine. Timestamps are microseconds since the Unix epoch.
#[derive(Debug)]
pub struct Queue {
    /// Unique queue identifier.
    pub id: QueueId,
    /// Queue name.
    pub name: String,
    /// Configuration.
    pub config: QueueConfig,
    /// When the queue was created.
    pub created_at: i64,
    /// When the queue was last updated.
    pub updated_at: i64,
}

impl Queue {
    /// A fresh queue with the given name and the default configuration, with
    /// a random identifier and both timestamps taken from the wall clock.
    pub fn new(name: &str) -> (r: Queue)
        ensures
            r.name@ == name@,
            r.config == spec_default_config(),
            r.created_at == r.updated_at,
    {
        let now = now_micros();
        Queue {
            id: QueueId::new(),
            name: name.to_owned(),
            config: QueueConfig::default(),
            created_at: now,
            updated_at: now,
        }
    }

    /// A fresh queue with the given name and configuration.
    pub fn with_config(name: &str, config: QueueConfig) -> (r: Queue)
        ensures
            r.name@ == name@,
            r.config == config,
            r.created_at == r.updated_at,
    {
        let now = now_micros();
        Queue {
            id: QueueId::new(),
            name: name.to_owned(),
            config,
            created_at: now,
            updated_at: now,
        }
    }
}

impl Clone for Queue {
    fn clone(&self) -> (r: Self)
        ensures
            r == *self,
    {
        Queue {
            id: self.id,
            name: self.name.clone(),
            config: self.config.clone(),
            created_at: self.created_at,
            updated_at: self.updated_at,
        }
    }
}

/// A point-in-time summary of one queue, derived from its state, never
/// stored. Consumers and publish or consume rates are not tracked, so
/// `consumer_count` is always zero.
#[derive(Clone, Copy, Debug, PartialEq, Eq, Structural)]
pub struct QueueStats {
    /// Pending plus in-flight messages.
    pub message_count: u64,
    /// Messages waiting for delivery.
    pub pending_count: u64,
    /// Messages delivered and awaiting acknowledgement.
    pub in_flight_count: u64,
    /// Total size of the pending message bodies, in bytes.
    pub size_bytes: u64,
    /// Active consumers (not tracked, always zero).
    pub consumer_count: u64,
}

} // verus!
