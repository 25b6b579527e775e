//! An in-memory publish-subscribe registry.
//!
//! Publishers get a topic id for a topic name; subscribers get a bounded
//! queue on a topic, each with its own depth and queue-full behaviour;
//! publishing hands a message to every queue of the topic. The bookkeeping
//! (`state`, `pubsub`) is verified against the abstract state in `state`,
//! and `laws` proves what holds across operations. The queues themselves are
//! `crossbeam_channel` channels, reached through the trusted items of
//! `channel`.
pub mod channel;
pub mod config;
pub mod ident;
pub mod laws;
pub mod message;
pub mod pubsub;
pub mod receiver;
pub mod state;
mod table;

pub use config::{Delivery, TopicConfig, Wait};
pub use message::MessageWrapper;
pub use pubsub::{dispatch, wait_for, PubSub};
pub use state::Dispatch;
pub use receiver::{serve_next, ManualReceiver};
