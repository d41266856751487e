pub mod broker;
mod clock;
pub mod errors;
pub mod ids;
pub mod laws;
pub mod message;
pub mod memory;
pub mod queue;
mod text;

pub use broker::Broker;
pub use errors::Error;
pub use memory::MemoryStorage;
pub use ids::MessageId;
pub use ids::QueueId;
pub use message::Attributes;
pub use message::Message;
pub use message::MessageStatus;
pub use queue::Queue;
pub use queue::QueueConfig;
pub use queue::QueueStats;
