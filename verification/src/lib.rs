//! Client library for a durable pub/sub message bus: typed event publication
//! with deduplication headers, a supervised consumer loop with
//! acknowledgement, retry backoff and graceful shutdown, and a
//! poison-message terminate protocol.
pub mod agent_id;
pub mod classroom_id;
pub mod client;
pub mod config;
pub mod consumer;
pub mod error;
pub mod event;
pub mod event_id;
pub mod headers;
pub mod subject;
pub mod test_helpers;
pub mod text;
pub mod wire;
