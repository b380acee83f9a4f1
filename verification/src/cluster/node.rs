//! The nodes of the cluster.

use crate::routing::sharding::Sharder;
use crate::routing::Token;
use uuid::Uuid;
use vstd::prelude::*;

verus! {

/// Whether a node is known to answer.
#[derive(Clone, Copy, Debug, PartialEq, Eq, Structural)]
pub enum NodeStatus {
    Up,
    Down,
}

/// A node of the cluster: its identity, where it stands, the tokens that it
/// owns and, where it is shard-aware, its shards.
#[derive(Debug)]
pub struct Node {
    pub host_id: Uuid,
    pub address: String,
    pub datacenter: Option<String>,
    pub rack: Option<String>,
    pub release_version: Option<String>,
    pub tokens: Vec<Token>,
    pub sharder: Option<Sharder>,
    pub shard_aware_port: Option<u16>,
    pub status: NodeStatus,
}

impl Node {
    /// Whether the node is known to answer.
    pub fn is_up(&self) -> (up: bool)
        ensures
            up == (self.status == NodeStatus::Up),
    {
        self.status == NodeStatus::Up
    }

    /// The number of shards of the node: one where the node is not
    /// shard-aware.
    pub fn shard_count(&self) -> (count: u16)
        ensures
            count == match self.sharder {
                Some(sharder) => sharder.shards(),
                None => 1,
            },
            count > 0,
    {
        match &self.sharder {
            Some(sharder) => sharder.nr_shards(),
            None => 1,
        }
    }
}

} // verus!
