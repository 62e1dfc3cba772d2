//! Load generation and delivery accounting for publish/subscribe brokers.
//!
//! The library holds the verified core: the topic hierarchy model, topic and
//! message synthesis, the identity hash that correlates sent and received
//! messages, the publisher and subscriber bookkeeping, and the reconciliation
//! of both ledgers.
pub mod generator;
pub mod hierarchy;
pub mod identity;
pub mod message;
pub mod pipeline;
pub mod receiver;
pub mod reconcile;
pub mod sender;
pub mod sources;
pub mod text;
pub mod topic;
