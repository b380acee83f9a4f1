//! Connections to the nodes.

pub mod stream_ids;
