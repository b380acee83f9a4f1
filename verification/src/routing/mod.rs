//! Routing of requests on the token ring.

pub mod murmur3;
pub mod partitioner;
pub mod ring;
pub mod sharding;

use vstd::prelude::*;

verus! {

/// Position of a partition on the token ring: a signed 64-bit integer.
#[derive(Clone, Copy, Debug, PartialEq, Eq, PartialOrd, Ord, Hash, Structural)]
pub struct Token {
    value: i64,
}

impl View for Token {
    type V = int;

    closed spec fn view(&self) -> int {
        self.value as int
    }
}

impl Token {
    /// Creates the token with the given value.
    pub fn new(value: i64) -> (token: Token)
        ensures
            token@ == value,
    {
        Token { value }
    }

    /// The value of the token.
    pub fn value(&self) -> (value: i64)
        ensures
            value == self@,
    {
        self.value
    }
}

} // verus!
