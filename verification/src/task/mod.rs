//! Tasks.

pub mod async_result;
