//! The execution of requests.

pub mod retries;
pub mod speculative_execution;
