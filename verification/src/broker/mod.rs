//! Message brokers.

pub mod amqp;
pub mod consumer_tag;
pub mod prefetch;
pub mod redis;
