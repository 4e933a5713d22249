//! AMQP broker.

pub mod config;
pub mod consumer;
pub mod field;
pub mod message;
pub mod message_laws;
pub mod queue;
pub mod session;
pub mod shared;
pub mod uri;
