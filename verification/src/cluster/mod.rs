//! What the driver knows of the cluster.

pub mod metadata;
pub mod node;
pub mod state;
