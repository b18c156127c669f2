//! Messages between the coordinator and the workers.
pub mod thread_message;
