//! Shards: the execution units of a node, each of which owns a part of the
//! token range of the node.

use crate::routing::Token;
use vstd::prelude::*;

verus! {

/// The number of a shard of a node.
pub type Shard = u32;

/// The number of values of a 64-bit word.
pub open spec fn two_to_64() -> int {
    0x1_0000_0000_0000_0000
}

/// The value of a token read as an unsigned 64-bit word.
pub open spec fn unsigned_token(token: int) -> int {
    if token >= 0 {
        token
    } else {
        token + two_to_64()
    }
}

/// The shard that owns a token on a node with `nr_shards` shards: the token,
/// read as an unsigned 64-bit word, times the number of shards, without the
/// lower 64 bits of the product.
pub open spec fn shard_for(token: int, nr_shards: int) -> int {
    (unsigned_token(token) * nr_shards) / two_to_64()
}

/// Reading a signed word as unsigned adds 2^64 to a negative value.
proof fn lemma_unsigned_cast(value: i64)
    ensures
        value as u64 == unsigned_token(value as int),
{
    assert(value < 0 ==> value as u64 == value + 0x1_0000_0000_0000_0000) by (bit_vector);
}

/// The upper half of the product of a 64-bit word and a 16-bit number is
/// their product divided by 2^64, and less than the number.
proof fn lemma_upper_half(word: u64, count: u16)
    ensures
        (word as u128) * (count as u128) <= u128::MAX,
        (((word as u128) * (count as u128)) as u128 >> 64) == ((word as int) * (count as int))
            / two_to_64(),
        count > 0 ==> ((word as int) * (count as int)) / two_to_64() < count,
{
    assert((word as u128) * (count as u128) <= u128::MAX) by (bit_vector);
    let product: u128 = ((word as u128) * (count as u128)) as u128;
    assert(product >> 64 == product / 0x1_0000_0000_0000_0000) by (bit_vector);
    if count > 0 {
        assert(((word as int) * (count as int)) / two_to_64() < count) by (nonlinear_arith)
            requires
                0 <= word < two_to_64(),
                count > 0,
                two_to_64() > 0,
        ;
    }
}

/// Knows the number of shards of a node and finds the shard of a token.
#[derive(Clone, Copy, Debug, PartialEq, Eq, Structural)]
pub struct Sharder {
    nr_shards: u16,
}

impl Sharder {
    #[verifier::type_invariant]
    spec fn inv(self) -> bool {
        self.nr_shards > 0
    }

    /// The number of shards of the node.
    pub closed spec fn shards(self) -> int {
        self.nr_shards as int
    }

    /// A sharder for a node with the given number of shards. A node has at
    /// least one shard: there is no sharder for none.
    pub fn new(nr_shards: u16) -> (sharder: Option<Sharder>)
        ensures
            sharder is Some <==> nr_shards > 0,
            sharder matches Some(s) ==> s.shards() == nr_shards,
    {
        if nr_shards == 0 {
            None
        } else {
            Some(Sharder { nr_shards })
        }
    }

    /// The number of shards of the node.
    pub fn nr_shards(&self) -> (count: u16)
        ensures
            count == self.shards(),
            count > 0,
    {
        proof {
            use_type_invariant(self);
        }
        self.nr_shards
    }

    /// The shard that owns the token.
    pub fn shard_of(&self, token: Token) -> (shard: Shard)
        ensures
            shard == shard_for(token@, self.shards()),
            shard < self.shards(),
    {
        proof {
            use_type_invariant(self);
        }
        let value: i64 = token.value();
        let word: u64 = value as u64;
        proof {
            lemma_unsigned_cast(value);
            lemma_upper_half(word, self.nr_shards);
        }
        let product: u128 = (word as u128) * (self.nr_shards as u128);
        (product >> 64) as u32
    }
}

} // verus!
