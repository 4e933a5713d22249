//! Redis broker.

pub mod acks;
pub mod batch;
pub mod command;
pub mod config;
pub mod consumer;
pub mod declare;
pub mod queue;
pub mod reader;
pub mod reader_laws;
pub mod reader_steps;
pub mod reconnect;
pub mod session;
pub mod shared;
pub mod stream;
pub mod url;
