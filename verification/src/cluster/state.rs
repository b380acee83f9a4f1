//! The state of the cluster as the driver knows it: the tables of each
//! keyspace, and the tokens of partition keys in them.

use crate::cluster::metadata::{find_keyspace, find_table, Keyspace, Table};
use crate::cluster::node::Node;
use crate::routing::ring::{
    increasing, lemma_entries_below_divides, owner_of, with_entry, TokenRing,
};
use crate::routing::sharding::{shard_for, Shard};
use crate::columns::column_types;
use crate::routing::partitioner::{
    calculate_token_for_partition_key, component_views, lemma_token_outcome_unique,
    partitioner_named, token_outcome, PartitionerName, TokenCalculationError,
};
use crate::routing::Token;
use crate::serialize::{raw_cells, serialized_row, RawCell, RawValue, SerializedRow};
use crate::columns::{ColumnSpec, PartitionKeyIndex};
use crate::statement::bound::statement_token;
use crate::statement::prepared::{
    chosen_partitioner, extracted_key, key_components, lemma_every_place_is_named,
    lemma_extracted_key_places, names_place, place_is_named, valid_pk_indexes, PartitionKeyError,
    PreparedStatement,
};
use crate::value::{value_views, Value, ValueView};
use scylla_cql::serialize::SerializationError;
use vstd::prelude::*;

verus! {

/// An error that keeps the token of a partition key in a table from being
/// computed.
#[derive(Debug)]
pub enum ClusterStateTokenError {
    /// The token of the partition key cannot be computed.
    TokenCalculation(TokenCalculationError),
    /// A value cannot be serialized as the type of its column.
    Serialization(SerializationError),
    /// The cluster state knows no such table.
    UnknownTable { keyspace: String, table: String },
    /// The serialized values are not as many as the table has columns in its
    /// partition key.
    PartitionKeyCountMismatch { keyspace: String, table: String, received: usize, expected: usize },
    /// The driver cannot compute the partitioner of the table.
    UnsupportedPartitioner { name: String },
}

/// The component of a partition key that each serialized value gives: none
/// where the value is null or unset.
pub open spec fn cell_components(cells: Seq<RawCell>) -> Seq<Option<Seq<u8>>> {
    Seq::new(
        cells.len(),
        |i: int|
            match cells[i] {
                RawCell::Value(bytes) => Some(bytes),
                _ => None,
            },
    )
}

/// What computing the token of serialized partition-key values in a table
/// gives, where `found` is the table of that name, if there is one.
pub open spec fn token_for_cells(
    found: Option<Table>,
    keyspace: Seq<char>,
    table: Seq<char>,
    cells: Seq<RawCell>,
    outcome: Result<Token, ClusterStateTokenError>,
) -> bool {
    match outcome {
        Err(ClusterStateTokenError::UnknownTable { keyspace: k, table: t }) => {
            &&& found is None
            &&& k@ == keyspace
            &&& t@ == table
        },
        Err(
            ClusterStateTokenError::PartitionKeyCountMismatch {
                keyspace: k,
                table: t,
                received,
                expected,
            },
        ) => {
            &&& found is Some
            &&& k@ == keyspace
            &&& t@ == table
            &&& received == cells.len()
            &&& expected == found->0.pk_column_specs().len()
            &&& received != expected
        },
        Err(ClusterStateTokenError::UnsupportedPartitioner { name }) => {
            &&& found is Some
            &&& cells.len() == found->0.pk_column_specs().len()
            &&& found->0.partitioner_name() == Some(name@)
            &&& partitioner_named(name@) is None
        },
        Err(ClusterStateTokenError::TokenCalculation(e)) => {
            &&& found is Some
            &&& cells.len() == found->0.pk_column_specs().len()
            &&& chosen_partitioner(found->0.partitioner_name()) is Some
            &&& token_outcome(
                chosen_partitioner(found->0.partitioner_name())->0,
                cell_components(cells),
                Err(e),
            )
        },
        Ok(token) => {
            &&& found is Some
            &&& cells.len() == found->0.pk_column_specs().len()
            &&& chosen_partitioner(found->0.partitioner_name()) is Some
            &&& token_outcome(
                chosen_partitioner(found->0.partitioner_name())->0,
                cell_components(cells),
                Ok(token),
            )
        },
        Err(ClusterStateTokenError::Serialization(_)) => false,
    }
}

/// What computing the token of the values of a partition key in a table
/// gives, where `found` is the table of that name, if there is one: a
/// serialization error where the values cannot be serialized as the types of
/// the columns of the partition key, else what their serialized form gives.
pub open spec fn token_for_values(
    found: Option<Table>,
    keyspace: Seq<char>,
    table: Seq<char>,
    values: Seq<ValueView>,
    outcome: Result<Token, ClusterStateTokenError>,
) -> bool {
    match found {
        None => token_for_cells(found, keyspace, table, Seq::empty(), outcome),
        Some(t) => match serialized_row(values, column_types(t.pk_column_specs())) {
            None => outcome matches Err(ClusterStateTokenError::Serialization(_)),
            Some(cells) => token_for_cells(found, keyspace, table, cells, outcome),
        },
    }
}

/// Whether two outcomes of computing a token are the same: the same token,
/// or the same error with the same particulars.
pub open spec fn same_token_outcome(
    a: Result<Token, ClusterStateTokenError>,
    b: Result<Token, ClusterStateTokenError>,
) -> bool {
    match (a, b) {
        (Ok(x), Ok(y)) => x == y,
        (
            Err(ClusterStateTokenError::TokenCalculation(x)),
            Err(ClusterStateTokenError::TokenCalculation(y)),
        ) => x == y,
        (
            Err(ClusterStateTokenError::UnknownTable { keyspace: k1, table: t1 }),
            Err(ClusterStateTokenError::UnknownTable { keyspace: k2, table: t2 }),
        ) => k1@ == k2@ && t1@ == t2@,
        (
            Err(
                ClusterStateTokenError::PartitionKeyCountMismatch {
                    keyspace: k1,
                    table: t1,
                    received: r1,
                    expected: e1,
                },
            ),
            Err(
                ClusterStateTokenError::PartitionKeyCountMismatch {
                    keyspace: k2,
                    table: t2,
                    received: r2,
                    expected: e2,
                },
            ),
        ) => k1@ == k2@ && t1@ == t2@ && r1 == r2 && e1 == e2,
        (
            Err(ClusterStateTokenError::UnsupportedPartitioner { name: n1 }),
            Err(ClusterStateTokenError::UnsupportedPartitioner { name: n2 }),
        ) => n1@ == n2@,
        (
            Err(ClusterStateTokenError::Serialization(_)),
            Err(ClusterStateTokenError::Serialization(_)),
        ) => true,
        _ => false,
    }
}

/// The serialized values of a partition key and the table allow one outcome
/// only.
pub proof fn lemma_token_for_cells_unique(
    found: Option<Table>,
    keyspace: Seq<char>,
    table: Seq<char>,
    cells: Seq<RawCell>,
    a: Result<Token, ClusterStateTokenError>,
    b: Result<Token, ClusterStateTokenError>,
)
    requires
        token_for_cells(found, keyspace, table, cells, a),
        token_for_cells(found, keyspace, table, cells, b),
    ensures
        same_token_outcome(a, b),
{
    if found is Some && cells.len() == found->0.pk_column_specs().len() && chosen_partitioner(
        found->0.partitioner_name(),
    ) is Some {
        let partitioner = chosen_partitioner(found->0.partitioner_name())->0;
        let x: Result<Token, TokenCalculationError> = match a {
            Ok(t) => Ok(t),
            Err(ClusterStateTokenError::TokenCalculation(e)) => Err(e),
            _ => arbitrary(),
        };
        let y: Result<Token, TokenCalculationError> = match b {
            Ok(t) => Ok(t),
            Err(ClusterStateTokenError::TokenCalculation(e)) => Err(e),
            _ => arbitrary(),
        };
        lemma_token_outcome_unique(partitioner, cell_components(cells), x, y);
    }
}

/// The token computed from values that were serialized before is the token
/// computed from the values themselves: where `cells` is what serializing
/// `values` against the columns of the partition key of the table gives,
/// `ClusterState::compute_token_preserialized` on `cells` and
/// `ClusterState::compute_token` on `values` end in the same way.
pub proof fn lemma_preserialized_token_is_direct_token(
    state: ClusterState,
    keyspace: Seq<char>,
    table: Seq<char>,
    values: Seq<ValueView>,
    cells: Seq<RawCell>,
    direct: Result<Token, ClusterStateTokenError>,
    preserialized: Result<Token, ClusterStateTokenError>,
)
    requires
        state.table(keyspace, table) matches Some(t) ==> serialized_row(
            values,
            column_types(t.pk_column_specs()),
        ) == Some(cells),
        token_for_values(state.table(keyspace, table), keyspace, table, values, direct),
        token_for_cells(state.table(keyspace, table), keyspace, table, cells, preserialized),
    ensures
        same_token_outcome(direct, preserialized),
{
    let found = state.table(keyspace, table);
    match found {
        None => {},
        Some(t) => {
            lemma_token_for_cells_unique(found, keyspace, table, cells, direct, preserialized);
        },
    }
}

/// The components of the partition key that is taken from the values of a
/// statement are the components that the values of the key give by
/// themselves: where `key_cells` holds, in the order of the key, the values
/// of the bind markers that make up the key.
pub proof fn lemma_key_of_statement_is_key_of_cells(
    pk: Seq<PartitionKeyIndex>,
    specs: Seq<ColumnSpec>,
    cells: Seq<RawCell>,
    key_cells: Seq<RawCell>,
)
    requires
        valid_pk_indexes(pk, specs.len()),
        key_cells.len() == pk.len(),
        forall|k: int|
            0 <= k < pk.len() ==> key_cells[(#[trigger] pk[k]).sequence as int]
                == cells[pk[k].index as int],
    ensures
        key_components(extracted_key(pk, specs, cells)) == cell_components(key_cells),
{
    lemma_extracted_key_places(pk, specs, cells);
    lemma_every_place_is_named(pk, specs.len());
    let key = extracted_key(pk, specs, cells);
    assert forall|place: int| 0 <= place < pk.len() implies key_components(key)[place]
        == cell_components(key_cells)[place] by {
        assert(place_is_named(pk, place));
        let k = choose|k: int| names_place(pk, place, k);
    }
}

/// The token of a bound statement is the token that the cluster state
/// computes for the values of its partition key: where the statement is
/// token-aware, its table has the partitioner of the statement, and
/// `key_cells` holds, in the order of the key, the values of the bind
/// markers that make up the key, `BoundStatement::calculate_token` and
/// `ClusterState::compute_token_preserialized` give the same token, or fail
/// for the same component.
pub proof fn lemma_statement_token_is_table_token(
    prepared: PreparedStatement,
    cells: Seq<RawCell>,
    table: Table,
    keyspace_name: Seq<char>,
    table_name: Seq<char>,
    key_cells: Seq<RawCell>,
    of_statement: Result<Option<Token>, PartitionKeyError>,
    of_table: Result<Token, ClusterStateTokenError>,
)
    requires
        valid_pk_indexes(prepared.pk_indexes(), prepared.col_specs().len()),
        prepared.token_aware(),
        chosen_partitioner(table.partitioner_name()) == prepared.partitioner(),
        table.pk_column_specs().len() == prepared.pk_indexes().len(),
        key_cells.len() == prepared.pk_indexes().len(),
        forall|k: int|
            0 <= k < prepared.pk_indexes().len() ==> key_cells[(
            #[trigger] prepared.pk_indexes()[k]).sequence as int]
                == cells[prepared.pk_indexes()[k].index as int],
        statement_token(prepared, cells, of_statement),
        token_for_cells(Some(table), keyspace_name, table_name, key_cells, of_table),
    ensures
        match (of_statement, of_table) {
            (Ok(Some(a)), Ok(b)) => a == b,
            (
                Err(PartitionKeyError::TokenCalculation(a)),
                Err(ClusterStateTokenError::TokenCalculation(b)),
            ) => a == b,
            _ => false,
        },
{
    lemma_key_of_statement_is_key_of_cells(
        prepared.pk_indexes(),
        prepared.col_specs(),
        cells,
        key_cells,
    );
    let partitioner = prepared.partitioner()->0;
    let components = cell_components(key_cells);
    let a: Result<Token, TokenCalculationError> = match of_statement {
        Ok(Some(t)) => Ok(t),
        Err(PartitionKeyError::TokenCalculation(e)) => Err(e),
        _ => arbitrary(),
    };
    let b: Result<Token, TokenCalculationError> = match of_table {
        Ok(t) => Ok(t),
        Err(ClusterStateTokenError::TokenCalculation(e)) => Err(e),
        _ => arbitrary(),
    };
    lemma_token_outcome_unique(partitioner, components, a, b);
}

/// The ring after the first `k` of the given tokens went to `owner`.
pub open spec fn with_tokens(
    ring: Seq<(Token, usize)>,
    tokens: Seq<Token>,
    owner: usize,
    k: nat,
) -> Seq<(Token, usize)>
    decreases k,
{
    if k == 0 {
        ring
    } else {
        with_entry(with_tokens(ring, tokens, owner, (k - 1) as nat), tokens[k - 1], owner)
    }
}

/// The ring of the first `n` nodes: each token with the place of the node
/// that owns it. Where several nodes claim a token, the last of them owns it.
pub open spec fn ring_of(nodes: Seq<Node>, n: nat) -> Seq<(Token, usize)>
    decreases n,
{
    if n == 0 {
        Seq::empty()
    } else {
        with_tokens(
            ring_of(nodes, (n - 1) as nat),
            nodes[n - 1].tokens@,
            (n - 1) as usize,
            nodes[n - 1].tokens@.len(),
        )
    }
}

/// Whether every owner in the ring is one of `nodes` nodes.
pub open spec fn owners_below(ring: Seq<(Token, usize)>, nodes: nat) -> bool {
    forall|i: int| 0 <= i < ring.len() ==> (#[trigger] ring[i]).1 < nodes
}

/// A ring with one more entry has the owners that it had, and the new one.
pub proof fn lemma_with_entry_owners(
    ring: Seq<(Token, usize)>,
    token: Token,
    owner: usize,
    nodes: nat,
)
    requires
        increasing(ring),
        owners_below(ring, nodes),
        owner < nodes,
    ensures
        owners_below(with_entry(ring, token, owner), nodes),
{
    lemma_entries_below_divides(ring, token@);
}

/// The replica that a request for a token goes to first: the node that owns
/// the token and, where that node is shard-aware, the shard of the token.
pub open spec fn primary_replica_of(nodes: Seq<Node>, ring: Seq<(Token, usize)>, token: int) -> Option<
    (Node, Option<Shard>),
> {
    match owner_of(ring, token) {
        Some(owner) => Some(
            (
                nodes[owner as int],
                match nodes[owner as int].sharder {
                    Some(sharder) => Some(shard_for(token, sharder.shards()) as Shard),
                    None => None,
                },
            ),
        ),
        None => None,
    }
}

/// A snapshot of what the driver knows of the cluster.
#[derive(Debug)]
pub struct ClusterState {
    nodes: Vec<Node>,
    ring: TokenRing<usize>,
    keyspaces: Vec<Keyspace>,
}

impl ClusterState {
    #[verifier::type_invariant]
    spec fn inv(self) -> bool {
        &&& self.ring@ == ring_of(self.nodes@, self.nodes@.len())
        &&& owners_below(self.ring@, self.nodes@.len())
    }

    /// The nodes of the cluster.
    pub closed spec fn nodes(self) -> Seq<Node> {
        self.nodes@
    }

    /// The token ring: each token with the place of its owner among the nodes.
    pub closed spec fn ring(self) -> Seq<(Token, usize)> {
        self.ring@
    }

    /// The keyspaces of the cluster.
    pub closed spec fn keyspaces(self) -> Seq<Keyspace> {
        self.keyspaces@
    }

    /// The nodes of the cluster.
    pub fn get_nodes(&self) -> (nodes: &Vec<Node>)
        ensures
            nodes@ == self.nodes(),
    {
        &self.nodes
    }

    /// The token ring of the cluster.
    pub fn get_ring(&self) -> (ring: &TokenRing<usize>)
        ensures
            ring@ == self.ring(),
            self.ring() == ring_of(self.nodes(), self.nodes().len()),
            owners_below(self.ring(), self.nodes().len()),
    {
        proof {
            use_type_invariant(self);
        }
        &self.ring
    }

    /// The replica that a request for the given token goes to first.
    pub fn primary_replica(&self, token: Token) -> (replica: Option<(&Node, Option<Shard>)>)
        ensures
            match replica {
                Some((node, shard)) => primary_replica_of(self.nodes(), self.ring(), token@)
                    == Some((*node, shard)),
                None => primary_replica_of(self.nodes(), self.ring(), token@) is None,
            },
            replica is None <==> self.ring().len() == 0,
    {
        proof {
            use_type_invariant(self);
        }
        let ghost ring = self.ring@;
        let owner: usize = match self.ring.get_elem_for_token(token) {
            Some(owner) => *owner,
            None => {
                return None;
            },
        };
        let _ = self.ring.len();
        proof {
            lemma_entries_below_divides(ring, token@);
        }
        let node = &self.nodes[owner];
        let shard = match &node.sharder {
            Some(sharder) => Some(sharder.shard_of(token)),
            None => None,
        };
        Some((node, shard))
    }

    /// The table of the given name in the keyspace of the given name: the
    /// first of that name in the first keyspace of that name.
    pub open spec fn table(self, keyspace: Seq<char>, table: Seq<char>) -> Option<Table> {
        match find_keyspace(self.keyspaces(), keyspace) {
            Some(k) => find_table(k.tables(), table),
            None => None,
        }
    }

    /// A snapshot of the given nodes and keyspaces. Its ring is made of the
    /// tokens of the nodes.
    pub fn new(nodes: Vec<Node>, keyspaces: Vec<Keyspace>) -> (state: ClusterState)
        ensures
            state.nodes() == nodes@,
            state.keyspaces() == keyspaces@,
            state.ring() == ring_of(nodes@, nodes@.len()),
    {
        let mut ring: TokenRing<usize> = TokenRing::new();
        let n: usize = nodes.len();
        let mut i: usize = 0;
        while i < n
            invariant
                i <= n,
                n == nodes@.len(),
                ring@ == ring_of(nodes@, i as nat),
                owners_below(ring@, n as nat),
            decreases n - i,
        {
            let tokens = &nodes[i].tokens;
            let count: usize = tokens.len();
            let mut k: usize = 0;
            while k < count
                invariant
                    k <= count,
                    i < n,
                    n == nodes@.len(),
                    count == tokens@.len(),
                    tokens@ == nodes@[i as int].tokens@,
                    ring@ == with_tokens(ring_of(nodes@, i as nat), tokens@, i, k as nat),
                    owners_below(ring@, n as nat),
                decreases count - k,
            {
                let ghost before = ring@;
                let _ = ring.len();
                proof {
                    lemma_with_entry_owners(before, tokens@[k as int], i, n as nat);
                }
                ring = ring.insert(tokens[k], i);
                k = k + 1;
            }
            i = i + 1;
        }
        ClusterState { nodes, ring, keyspaces }
    }

    /// The keyspace of the given name.
    pub fn get_keyspace(&self, name: &str) -> (keyspace: Option<&Keyspace>)
        ensures
            match keyspace {
                Some(k) => find_keyspace(self.keyspaces(), name@) == Some(*k),
                None => find_keyspace(self.keyspaces(), name@) is None,
            },
    {
        let n: usize = self.keyspaces.len();
        let mut i: usize = 0;
        assert(self.keyspaces@.skip(0) == self.keyspaces@);
        while i < n
            invariant
                i <= n,
                n == self.keyspaces@.len(),
                find_keyspace(self.keyspaces@, name@) == find_keyspace(
                    self.keyspaces@.skip(i as int),
                    name@,
                ),
            decreases n - i,
        {
            let keyspace = &self.keyspaces[i];
            proof {
                assert(self.keyspaces@.skip(i as int).drop_first() == self.keyspaces@.skip(i + 1));
            }
            if keyspace.name_is(name) {
                return Some(keyspace);
            }
            i = i + 1;
        }
        None
    }

    /// The table of the given name in the keyspace of the given name.
    pub fn get_table(&self, keyspace: &str, table: &str) -> (found: Option<&Table>)
        ensures
            match found {
                Some(t) => self.table(keyspace@, table@) == Some(*t),
                None => self.table(keyspace@, table@) is None,
            },
    {
        match self.get_keyspace(keyspace) {
            Some(k) => k.get_table(table),
            None => None,
        }
    }

    /// Computes the token of the partition key with the given values in
    /// the given table.
    pub fn compute_token(&self, keyspace: &str, table: &str, partition_key: &[Value]) -> (outcome:
        Result<Token, ClusterStateTokenError>)
        ensures
            token_for_values(
                self.table(keyspace@, table@),
                keyspace@,
                table@,
                value_views(partition_key@),
                outcome,
            ),
    {
        let found = match self.get_table(keyspace, table) {
            Some(found) => found,
            None => {
                return Err(
                    ClusterStateTokenError::UnknownTable {
                        keyspace: keyspace.to_owned(),
                        table: table.to_owned(),
                    },
                );
            },
        };
        let values = match SerializedRow::from_serializable(
            found.get_pk_column_specs().as_slice(),
            partition_key,
        ) {
            Ok(values) => values,
            Err(e) => {
                return Err(ClusterStateTokenError::Serialization(e));
            },
        };
        let outcome = token_in_table(found, keyspace, table, &values);
        outcome
    }

    /// Computes the token of a partition key in the given table from the
    /// values of the key as they were serialized before.
    pub fn compute_token_preserialized(
        &self,
        keyspace: &str,
        table: &str,
        values: &SerializedRow,
    ) -> (outcome: Result<Token, ClusterStateTokenError>)
        ensures
            token_for_cells(self.table(keyspace@, table@), keyspace@, table@, values@, outcome),
    {
        let found = match self.get_table(keyspace, table) {
            Some(found) => found,
            None => {
                return Err(
                    ClusterStateTokenError::UnknownTable {
                        keyspace: keyspace.to_owned(),
                        table: table.to_owned(),
                    },
                );
            },
        };
        token_in_table(found, keyspace, table, values)
    }
}

/// Computes the token of serialized partition-key values in a table that
/// was found under the given names.
fn token_in_table(found: &Table, keyspace: &str, table: &str, values: &SerializedRow) -> (outcome:
    Result<Token, ClusterStateTokenError>)
    ensures
        token_for_cells(Some(*found), keyspace@, table@, values@, outcome),
{
    let received: usize = values.element_count() as usize;
    let expected: usize = found.get_pk_column_specs().len();
    if received != expected {
        return Err(
            ClusterStateTokenError::PartitionKeyCountMismatch {
                keyspace: keyspace.to_owned(),
                table: table.to_owned(),
                received,
                expected,
            },
        );
    }
    let partitioner = match found.get_partitioner() {
        Some(name) => match PartitionerName::from_str(name) {
            Some(partitioner) => partitioner,
            None => {
                return Err(ClusterStateTokenError::UnsupportedPartitioner { name: name.to_owned() });
            },
        },
        None => PartitionerName::Murmur3,
    };
    match calculate_token_for_serialized(values, &partitioner) {
        Ok(token) => Ok(token),
        Err(e) => Err(ClusterStateTokenError::TokenCalculation(e)),
    }
}

/// Computes the token of the partition key whose components are the given
/// serialized values, in order.
pub fn calculate_token_for_serialized(values: &SerializedRow, partitioner: &PartitionerName) -> (outcome:
    Result<Token, TokenCalculationError>)
    ensures
        token_outcome(*partitioner, cell_components(values@), outcome),
{
    let cells: Vec<RawValue<'_>> = values.raw_values();
    let n: usize = cells.len();
    let mut components: Vec<Option<&[u8]>> = Vec::new();
    let mut i: usize = 0;
    while i < n
        invariant
            i <= n,
            n == cells@.len(),
            raw_cells(cells@) == values@,
            components@.len() == i,
            component_views(components@) == cell_components(values@).take(i as int),
        decreases n - i,
    {
        match cells[i] {
            RawValue::Value(bytes) => components.push(Some(bytes)),
            _ => components.push(None),
        }
        i = i + 1;
    }
    assert(cell_components(values@).take(n as int) == cell_components(values@));
    calculate_token_for_partition_key(components.as_slice(), partitioner)
}

} // verus!
