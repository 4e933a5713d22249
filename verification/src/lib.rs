//! Verified core of a pair of Celery message brokers.

pub mod broker;
pub mod convert;
pub mod error;
pub mod protocol;
pub mod string_map;
pub mod task;
pub mod text;
pub mod utc_time;
