//! Partitioners: the functions that map the bytes of a partition key to a
//! token, and the form in which the components of a key are handed to them.

use crate::routing::murmur3::{hash3_x64_128, murmur3_x64_128};
use crate::routing::Token;
use crate::text::str_eq;
use vstd::prelude::*;

verus! {

/// The partitioners that the driver can compute.
#[derive(Clone, Copy, Debug, PartialEq, Eq, Hash, Structural)]
pub enum PartitionerName {
    Murmur3,
    CDC,
}

/// The partitioner that a table is given under `name`, if the driver knows one
/// of that name.
pub open spec fn partitioner_named(name: Seq<char>) -> Option<PartitionerName> {
    if name == "org.apache.cassandra.dht.Murmur3Partitioner"@ {
        Some(PartitionerName::Murmur3)
    } else if name == "com.scylladb.dht.CDCPartitioner"@ {
        Some(PartitionerName::CDC)
    } else {
        None
    }
}

/// The 64-bit word that the eight bytes from `at` on spell, most significant first.
pub open spec fn be_word(bytes: Seq<u8>, at: int) -> u64 {
    ((bytes[at] as u64) << 56u64) | ((bytes[at + 1] as u64) << 48u64) | ((bytes[at + 2] as u64)
        << 40u64) | ((bytes[at + 3] as u64) << 32u64) | ((bytes[at + 4] as u64) << 24u64) | ((
    bytes[at + 5] as u64) << 16u64) | ((bytes[at + 6] as u64) << 8u64) | (bytes[at + 7] as u64)
}

/// The token of the Murmur3 partitioner: the first word of the hash, read as
/// a signed integer.
pub open spec fn murmur3_token(bytes: Seq<u8>) -> int {
    murmur3_x64_128(bytes).0 as i64 as int
}

/// The token of the CDC partitioner: the first eight bytes of the key, read
/// as a signed integer with the most significant byte first. A key of fewer
/// bytes gets the least token.
pub open spec fn cdc_token(bytes: Seq<u8>) -> int {
    if bytes.len() < 8 {
        i64::MIN as int
    } else {
        be_word(bytes, 0) as i64 as int
    }
}

impl Default for PartitionerName {
    fn default() -> (name: PartitionerName)
        ensures
            name == PartitionerName::Murmur3,
    {
        PartitionerName::Murmur3
    }
}

impl PartitionerName {
    /// The token that the partitioner gives to a key of these bytes.
    pub open spec fn token_of(self, bytes: Seq<u8>) -> int {
        match self {
            PartitionerName::Murmur3 => murmur3_token(bytes),
            PartitionerName::CDC => cdc_token(bytes),
        }
    }

    /// The partitioner of the given name, if the driver knows it.
    pub fn from_str(name: &str) -> (partitioner: Option<PartitionerName>)
        ensures
            partitioner == partitioner_named(name@),
    {
        if str_eq(name, "org.apache.cassandra.dht.Murmur3Partitioner") {
            Some(PartitionerName::Murmur3)
        } else if str_eq(name, "com.scylladb.dht.CDCPartitioner") {
            Some(PartitionerName::CDC)
        } else {
            None
        }
    }

    /// Computes the token of a key of the given bytes.
    pub fn hash_one(&self, data: &[u8]) -> (token: Token)
        ensures
            token@ == self.token_of(data@),
    {
        match self {
            PartitionerName::Murmur3 => {
                let hash = hash3_x64_128(data);
                Token::new(hash.0 as i64)
            },
            PartitionerName::CDC => {
                if data.len() < 8 {
                    Token::new(i64::MIN)
                } else {
                    let word: u64 = ((data[0] as u64) << 56u64) | ((data[1] as u64) << 48u64) | ((
                    data[2] as u64) << 40u64) | ((data[3] as u64) << 32u64) | ((data[4] as u64)
                        << 24u64) | ((data[5] as u64) << 16u64) | ((data[6] as u64) << 8u64) | (
                    data[7] as u64);
                    Token::new(word as i64)
                }
            },
        }
    }
}

/// One component of a composite key as it is hashed: its length in two bytes,
/// most significant first, then its bytes, then a zero byte.
pub open spec fn composite_component(value: Seq<u8>) -> Seq<u8> {
    seq![(value.len() / 256) as u8, (value.len() % 256) as u8] + value + seq![0u8]
}

/// The components that are present, each in its composite form, one after
/// the other.
pub open spec fn composite_bytes(components: Seq<Option<Seq<u8>>>) -> Seq<u8>
    decreases components.len(),
{
    if components.len() == 0 {
        Seq::empty()
    } else {
        composite_bytes(components.drop_last()) + match components.last() {
            Some(value) => composite_component(value),
            None => Seq::empty(),
        }
    }
}

/// The bytes that are hashed for a partition key with these components, a
/// component being `None` where its value is null or unset: the bytes of the
/// component itself where the key has one component, the composite form else.
pub open spec fn key_bytes(components: Seq<Option<Seq<u8>>>) -> Seq<u8> {
    if components.len() == 1 {
        match components[0] {
            Some(value) => value,
            None => Seq::empty(),
        }
    } else {
        composite_bytes(components)
    }
}

/// Whether a component is too long for the composite form.
pub open spec fn too_long(component: Option<Seq<u8>>) -> bool {
    component matches Some(value) && value.len() > u16::MAX
}

/// Whether the component at `i` is the first that is too long for the
/// composite form.
pub open spec fn first_too_long(components: Seq<Option<Seq<u8>>>, i: int) -> bool {
    &&& 0 <= i < components.len()
    &&& too_long(components[i])
    &&& forall|j: int| 0 <= j < i ==> !too_long(#[trigger] components[j])
}

/// An error that keeps a token from being computed.
#[derive(Clone, Copy, Debug, PartialEq, Eq, Structural)]
pub enum TokenCalculationError {
    /// A component of a composite key is longer than its two length bytes can say.
    ValueTooLong(usize),
}

/// What the components of a key and a partitioner give: the token, or the
/// length of the first component that is too long for the composite form.
pub open spec fn token_outcome(
    partitioner: PartitionerName,
    components: Seq<Option<Seq<u8>>>,
    outcome: Result<Token, TokenCalculationError>,
) -> bool {
    match outcome {
        Ok(token) => {
            &&& components.len() != 1 ==> forall|i: int|
                0 <= i < components.len() ==> !too_long(#[trigger] components[i])
            &&& token@ == partitioner.token_of(key_bytes(components))
        },
        Err(TokenCalculationError::ValueTooLong(len)) => {
            &&& components.len() != 1
            &&& exists|i: int| #[trigger]
                first_too_long(components, i) && components[i]->0.len() == len
        },
    }
}

/// The components of a key and a partitioner allow one outcome only: the
/// same key gives the same token, or fails for the same component.
pub proof fn lemma_token_outcome_unique(
    partitioner: PartitionerName,
    components: Seq<Option<Seq<u8>>>,
    a: Result<Token, TokenCalculationError>,
    b: Result<Token, TokenCalculationError>,
)
    requires
        token_outcome(partitioner, components, a),
        token_outcome(partitioner, components, b),
    ensures
        a == b,
{
    match (a, b) {
        (Ok(x), Ok(y)) => {},
        (Err(TokenCalculationError::ValueTooLong(m)), Err(TokenCalculationError::ValueTooLong(n))) => {
            let i = choose|i: int| #[trigger]
                first_too_long(components, i) && components[i]->0.len() == m;
            let j = choose|j: int| #[trigger]
                first_too_long(components, j) && components[j]->0.len() == n;
        },
        (Ok(_), Err(TokenCalculationError::ValueTooLong(n))) => {
            let j = choose|j: int| #[trigger]
                first_too_long(components, j) && components[j]->0.len() == n;
        },
        (Err(TokenCalculationError::ValueTooLong(m)), Ok(_)) => {
            let i = choose|i: int| #[trigger]
                first_too_long(components, i) && components[i]->0.len() == m;
        },
    }
}

/// What each of a sequence of borrowed components stands for, in order.
pub open spec fn component_views(components: Seq<Option<&[u8]>>) -> Seq<Option<Seq<u8>>> {
    Seq::new(
        components.len(),
        |i: int|
            match components[i] {
                Some(value) => Some(value@),
                None => None,
            },
    )
}

/// Appends the bytes of `value` to `buf`.
fn extend(buf: &mut Vec<u8>, value: &[u8])
    ensures
        final(buf)@ == old(buf)@ + value@,
{
    let n: usize = value.len();
    let mut i: usize = 0;
    while i < n
        invariant
            i <= n,
            n == value@.len(),
            buf@ == old(buf)@ + value@.take(i as int),
        decreases n - i,
    {
        buf.push(value[i]);
        i = i + 1;
    }
}

/// Computes the token of the partition key with the given components, in the
/// order of the key, a component being `None` where its value is null or unset.
pub fn calculate_token_for_partition_key(
    components: &[Option<&[u8]>],
    partitioner: &PartitionerName,
) -> (outcome: Result<Token, TokenCalculationError>)
    ensures
        token_outcome(*partitioner, component_views(components@), outcome),
{
    let ghost views = component_views(components@);
    if components.len() == 1 {
        match components[0] {
            Some(value) => Ok(partitioner.hash_one(value)),
            None => {
                let empty: Vec<u8> = Vec::new();
                Ok(partitioner.hash_one(empty.as_slice()))
            },
        }
    } else {
        let mut buf: Vec<u8> = Vec::new();
        let n: usize = components.len();
        let mut i: usize = 0;
        while i < n
            invariant
                i <= n,
                n != 1,
                n == components@.len(),
                views == component_views(components@),
                buf@ == composite_bytes(views.take(i as int)),
                forall|j: int| 0 <= j < i ==> !too_long(#[trigger] views[j]),
            decreases n - i,
        {
            proof {
                assert(views.take(i + 1).drop_last() == views.take(i as int));
            }
            match components[i] {
                Some(value) => {
                    let len: usize = value.len();
                    if len > 65535 {
                        proof {
                            assert(first_too_long(views, i as int));
                        }
                        return Err(TokenCalculationError::ValueTooLong(len));
                    }
                    buf.push((len / 256) as u8);
                    buf.push((len % 256) as u8);
                    extend(&mut buf, value);
                    buf.push(0u8);
                },
                None => {},
            }
            i = i + 1;
        }
        assert(views.take(n as int) == views);
        Ok(partitioner.hash_one(buf.as_slice()))
    }
}

} // verus!
