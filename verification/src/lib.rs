//! The core of a driver for databases that speak CQL: the binding of values
//! to prepared statements, the partition keys and routing tokens of the
//! rows that they address, the token ring and the shards of the nodes, and
//! the rules by which requests are numbered, retried and attempted again.
//!
//! Every function is proved against its contract. Values are serialized by
//! the `scylla_cql` crate; what is relied on of it is stated in [`serialize`].

pub mod cloud;
pub mod cluster;
pub mod columns;
pub mod execution;
pub mod network;
pub mod routing;
pub mod serialize;
pub mod statement;
pub mod text;
pub mod value;
