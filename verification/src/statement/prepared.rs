//! Prepared statements and the partition keys of the rows bound to them.

use crate::columns::{column_types, ColumnSpec, PartitionKeyIndex};
use crate::routing::partitioner::{
    calculate_token_for_partition_key, component_views, partitioner_named, token_outcome,
    PartitionerName, TokenCalculationError,
};
use crate::routing::Token;
use crate::serialize::{raw_cells, serialized_row, RawCell, RawValue, SerializedRow};
use crate::statement::bound::{BoundStatement, StatementBinder};
use crate::value::{value_views, Value};
use scylla_cql::serialize::SerializationError;
use vstd::prelude::*;
use vstd::set_lib::{lemma_int_range, lemma_subset_equality, set_int_range};

verus! {

/// Whether `pk` describes a partition key over `columns` bind markers: each
/// entry names a marker that exists and a place in the key, and no place is
/// named twice.
pub open spec fn valid_pk_indexes(pk: Seq<PartitionKeyIndex>, columns: nat) -> bool {
    &&& forall|k: int|
        0 <= k < pk.len() ==> (#[trigger] pk[k]).index < columns && pk[k].sequence < pk.len()
    &&& forall|j: int, k: int|
        0 <= j < k < pk.len() ==> (#[trigger] pk[j]).sequence != (#[trigger] pk[k]).sequence
}

/// Whether the entry at `k` names the place `place` of the key.
pub open spec fn names_place(pk: Seq<PartitionKeyIndex>, place: int, k: int) -> bool {
    0 <= k < pk.len() && pk[k].sequence == place
}

/// Whether some entry names the place `place` of the key.
pub open spec fn place_is_named(pk: Seq<PartitionKeyIndex>, place: int) -> bool {
    exists|k: int| #[trigger] names_place(pk, place, k)
}

/// In a valid description of a partition key, each place of the key is
/// named by an entry: as many entries as places, and no place named twice.
pub proof fn lemma_every_place_is_named(pk: Seq<PartitionKeyIndex>, columns: nat)
    requires
        valid_pk_indexes(pk, columns),
    ensures
        forall|place: int| 0 <= place < pk.len() ==> #[trigger] place_is_named(pk, place),
{
    let places = Seq::new(pk.len(), |k: int| pk[k].sequence as int);
    places.unique_seq_to_set();
    lemma_int_range(0, pk.len() as int);
    let all = set_int_range(0, pk.len() as int);
    lemma_subset_equality(places.to_set(), all);
    assert forall|place: int| 0 <= place < pk.len() implies #[trigger] place_is_named(
        pk,
        place,
    ) by {
        assert(all.contains(place));
        let k = choose|k: int| 0 <= k < places.len() && places[k] == place;
        assert(names_place(pk, place, k));
    }
}

/// The partitioner of a statement on a table whose partitioner has the given
/// name: Murmur3 where the table names none, none where the name is unknown.
pub open spec fn chosen_partitioner(name: Option<Seq<char>>) -> Option<PartitionerName> {
    match name {
        None => Some(PartitionerName::Murmur3),
        Some(name) => partitioner_named(name),
    }
}

/// A statement that the server has prepared: its identifier, the identifier
/// of the metadata of its result set, its text, the columns of its bind
/// markers, the markers that make up the partition key, and the partitioner
/// of its table.
#[derive(Debug)]
pub struct PreparedStatement {
    id: Vec<u8>,
    result_metadata_id: Option<Vec<u8>>,
    statement: String,
    col_specs: Vec<ColumnSpec>,
    pk_indexes: Vec<PartitionKeyIndex>,
    partitioner_name: Option<PartitionerName>,
}

impl Clone for PreparedStatement {
    fn clone(&self) -> (copy: PreparedStatement)
        ensures
            copy.id() == self.id(),
            copy.result_metadata_id() == self.result_metadata_id(),
            copy.statement() == self.statement(),
            copy.col_specs() == self.col_specs(),
            copy.pk_indexes() == self.pk_indexes(),
            copy.partitioner() == self.partitioner(),
    {
        proof {
            use_type_invariant(self);
        }
        let id = self.id.clone();
        let result_metadata_id = match &self.result_metadata_id {
            Some(metadata_id) => Some(metadata_id.clone()),
            None => None,
        };
        let col_specs = self.col_specs.clone();
        let pk_indexes = self.pk_indexes.clone();
        PreparedStatement {
            id,
            result_metadata_id,
            statement: self.statement.clone(),
            col_specs,
            pk_indexes,
            partitioner_name: self.partitioner_name,
        }
    }
}

impl PreparedStatement {
    #[verifier::type_invariant]
    spec fn inv(self) -> bool {
        valid_pk_indexes(self.pk_indexes@, self.col_specs@.len())
    }

    /// The identifier that the server gave to the statement.
    pub closed spec fn id(self) -> Seq<u8> {
        self.id@
    }

    /// The identifier of the metadata of the result set, where the server
    /// gave one. It changes when the schema does.
    pub closed spec fn result_metadata_id(self) -> Option<Seq<u8>> {
        match self.result_metadata_id {
            Some(id) => Some(id@),
            None => None,
        }
    }

    /// The text of the statement.
    pub closed spec fn statement(self) -> Seq<char> {
        self.statement@
    }

    /// The columns of the bind markers, in the order of the markers.
    pub closed spec fn col_specs(self) -> Seq<ColumnSpec> {
        self.col_specs@
    }

    /// The bind markers that hold the components of the partition key.
    pub closed spec fn pk_indexes(self) -> Seq<PartitionKeyIndex> {
        self.pk_indexes@
    }

    /// The partitioner of the table, where the driver knows it.
    pub closed spec fn partitioner(self) -> Option<PartitionerName> {
        self.partitioner_name
    }

    /// Whether tokens can be computed for the statement: every component of
    /// the partition key is among the bind markers, and the partitioner is known.
    pub open spec fn token_aware(self) -> bool {
        self.pk_indexes().len() > 0 && self.partitioner() is Some
    }

    /// Makes a prepared statement of what the server answered to `PREPARE`.
    /// Returns `None` where `pk_indexes` is no valid description of a
    /// partition key over `col_specs`.
    pub fn new(
        id: Vec<u8>,
        statement: String,
        col_specs: Vec<ColumnSpec>,
        pk_indexes: Vec<PartitionKeyIndex>,
        partitioner: Option<&str>,
    ) -> (prepared: Option<PreparedStatement>)
        ensures
            prepared is Some <==> valid_pk_indexes(pk_indexes@, col_specs@.len()),
            prepared matches Some(p) ==> {
                &&& p.id() == id@
                &&& p.result_metadata_id() is None
                &&& p.statement() == statement@
                &&& p.col_specs() == col_specs@
                &&& p.pk_indexes() == pk_indexes@
                &&& p.partitioner() == chosen_partitioner(
                    match partitioner {
                        Some(name) => Some(name@),
                        None => None,
                    },
                )
            },
    {
        if !check_pk_indexes(&pk_indexes, col_specs.len()) {
            return None;
        }
        let partitioner_name = match partitioner {
            Some(name) => PartitionerName::from_str(name),
            None => Some(PartitionerName::Murmur3),
        };
        Some(
            PreparedStatement {
                id,
                result_metadata_id: None,
                statement,
                col_specs,
                pk_indexes,
                partitioner_name,
            },
        )
    }

    /// The statement with the given identifier of the metadata of its
    /// result set, as the server gives it with the statement or, after a
    /// change of the schema, with a result.
    pub fn with_result_metadata_id(self, result_metadata_id: Option<Vec<u8>>) -> (prepared:
        PreparedStatement)
        ensures
            prepared.id() == self.id(),
            prepared.result_metadata_id() == match result_metadata_id {
                Some(id) => Some(id@),
                None => None,
            },
            prepared.statement() == self.statement(),
            prepared.col_specs() == self.col_specs(),
            prepared.pk_indexes() == self.pk_indexes(),
            prepared.partitioner() == self.partitioner(),
    {
        proof {
            use_type_invariant(&self);
        }
        let PreparedStatement {
            id,
            result_metadata_id: _,
            statement,
            col_specs,
            pk_indexes,
            partitioner_name,
        } = self;
        PreparedStatement {
            id,
            result_metadata_id,
            statement,
            col_specs,
            pk_indexes,
            partitioner_name,
        }
    }

    /// The identifier of the metadata of the result set, where the server
    /// gave one.
    pub fn get_result_metadata_id(&self) -> (id: Option<&Vec<u8>>)
        ensures
            self.result_metadata_id() == match id {
                Some(id) => Some(id@),
                None => None,
            },
    {
        self.result_metadata_id.as_ref()
    }

    /// The identifier that the server gave to the statement.
    pub fn get_id(&self) -> (id: &Vec<u8>)
        ensures
            id@ == self.id(),
    {
        &self.id
    }

    /// The text of the statement.
    pub fn get_statement(&self) -> (statement: &str)
        ensures
            statement@ == self.statement(),
    {
        self.statement.as_str()
    }

    /// The columns of the bind markers.
    pub fn get_variable_col_specs(&self) -> (specs: &Vec<ColumnSpec>)
        ensures
            specs@ == self.col_specs(),
            valid_pk_indexes(self.pk_indexes(), specs@.len()),
    {
        proof {
            use_type_invariant(self);
        }
        &self.col_specs
    }

    /// The bind markers that hold the components of the partition key.
    pub fn get_variable_pk_indexes(&self) -> (pk: &Vec<PartitionKeyIndex>)
        ensures
            pk@ == self.pk_indexes(),
            valid_pk_indexes(pk@, self.col_specs().len()),
    {
        proof {
            use_type_invariant(self);
        }
        &self.pk_indexes
    }

    /// The partitioner of the table, where the driver knows it.
    pub fn get_partitioner_name(&self) -> (partitioner: Option<PartitionerName>)
        ensures
            partitioner == self.partitioner(),
    {
        self.partitioner_name
    }

    /// Whether tokens can be computed for the statement.
    pub fn is_token_aware(&self) -> (aware: bool)
        ensures
            aware == self.token_aware(),
    {
        self.pk_indexes.len() > 0 && self.partitioner_name.is_some()
    }

    /// Serializes a row of values, one for each bind marker, each as the
    /// type of its marker.
    pub fn serialize_values(&self, values: &[Value]) -> (outcome: Result<
        SerializedRow,
        SerializationError,
    >)
        ensures
            match outcome {
                Ok(row) => serialized_row(value_views(values@), column_types(self.col_specs()))
                    == Some(row@),
                Err(_) => serialized_row(value_views(values@), column_types(self.col_specs()))
                    is None,
            },
    {
        SerializedRow::from_serializable(self.col_specs.as_slice(), values)
    }

    /// Binds a row of values to the statement, which the bound statement borrows.
    pub fn bind(&self, values: &[Value]) -> (outcome: Result<BoundStatement<'_>, SerializationError>)
        ensures
            match outcome {
                Ok(bound) => {
                    &&& bound.prepared_statement() == *self
                    &&& serialized_row(value_views(values@), column_types(self.col_specs()))
                        == Some(bound.values())
                },
                Err(_) => serialized_row(value_views(values@), column_types(self.col_specs()))
                    is None,
            },
    {
        BoundStatement::new_borrowed(self, values)
    }

    /// Binds a row of values to the statement, which the bound statement owns.
    pub fn into_bind(self, values: &[Value]) -> (outcome: Result<
        BoundStatement<'static>,
        SerializationError,
    >)
        ensures
            match outcome {
                Ok(bound) => {
                    &&& bound.prepared_statement() == self
                    &&& serialized_row(value_views(values@), column_types(self.col_specs()))
                        == Some(bound.values())
                },
                Err(_) => serialized_row(value_views(values@), column_types(self.col_specs()))
                    is None,
            },
    {
        BoundStatement::new_owned(self, values)
    }

    /// A binder for the statement, which it borrows.
    pub fn binder(&self) -> (binder: StatementBinder<'_>)
        ensures
            binder.prepared_statement() == *self,
    {
        StatementBinder::new_borrowed(self)
    }

    /// A binder for the statement, which it owns.
    pub fn into_binder(self) -> (binder: StatementBinder<'static>)
        ensures
            binder.prepared_statement() == self,
    {
        StatementBinder::new_owned(self)
    }
}

/// Whether `pk` is a valid description of a partition key over `columns` markers.
fn check_pk_indexes(pk: &Vec<PartitionKeyIndex>, columns: usize) -> (valid: bool)
    ensures
        valid == valid_pk_indexes(pk@, columns as nat),
{
    let n: usize = pk.len();
    let mut seen: Vec<bool> = Vec::new();
    let mut s: usize = 0;
    while s < n
        invariant
            s <= n,
            seen@.len() == s,
            forall|t: int| 0 <= t < s ==> !seen@[t],
        decreases n - s,
    {
        seen.push(false);
        s = s + 1;
    }
    let mut k: usize = 0;
    while k < n
        invariant
            k <= n,
            n == pk@.len(),
            seen@.len() == n,
            forall|j: int|
                0 <= j < k ==> (#[trigger] pk@[j]).index < columns && pk@[j].sequence < n,
            forall|i: int, j: int|
                0 <= i < j < k ==> (#[trigger] pk@[i]).sequence != (#[trigger] pk@[j]).sequence,
            forall|t: int|
                0 <= t < n ==> (seen@[t] <==> exists|j: int|
                    0 <= j < k && (#[trigger] pk@[j]).sequence == t),
        decreases n - k,
    {
        let entry = pk[k];
        if entry.index as usize >= columns || entry.sequence as usize >= n {
            return false;
        }
        if seen[entry.sequence as usize] {
            proof {
                let j = choose|j: int| 0 <= j < k && (#[trigger] pk@[j]).sequence == entry.sequence;
                assert(pk@[j].sequence == pk@[k as int].sequence);
            }
            return false;
        }
        seen.set(entry.sequence as usize, true);
        k = k + 1;
    }
    true
}

/// A partition key cannot be taken from a row.
#[derive(Clone, Copy, Debug, PartialEq, Eq, Structural)]
pub enum PartitionKeyExtractionError {
    /// The row has no value for the bind marker at the first index; the
    /// second number is that of the values in the row.
    NoPkIndexValue(u16, u16),
}

/// A token cannot be computed for a bound statement.
#[derive(Clone, Copy, Debug, PartialEq, Eq, Structural)]
pub enum PartitionKeyError {
    /// The partition key cannot be taken from the values.
    PartitionKeyExtraction(PartitionKeyExtractionError),
    /// The token of the partition key cannot be computed.
    TokenCalculation(TokenCalculationError),
}

/// The component of the partition key that the value of the bind marker at
/// `index` gives, with the column of the marker: none where the value is
/// null or unset.
pub open spec fn key_entry(specs: Seq<ColumnSpec>, cells: Seq<RawCell>, index: int) -> Option<
    (Seq<u8>, ColumnSpec),
> {
    match cells[index] {
        RawCell::Value(bytes) => Some((bytes, specs[index])),
        _ => None,
    }
}

/// The partition key after the first `n` entries of `pk` were read: a key
/// with one place for each entry of `pk`, in which each of those entries has
/// put what its bind marker gives at the place that it names.
pub open spec fn key_after(
    pk: Seq<PartitionKeyIndex>,
    specs: Seq<ColumnSpec>,
    cells: Seq<RawCell>,
    n: nat,
) -> Seq<Option<(Seq<u8>, ColumnSpec)>>
    decreases n,
{
    if n == 0 {
        Seq::new(pk.len(), |i: int| None)
    } else {
        key_after(pk, specs, cells, (n - 1) as nat).update(
            pk[n - 1].sequence as int,
            key_entry(specs, cells, pk[n - 1].index as int),
        )
    }
}

/// The partition key of the row `cells` of a statement with the bind markers
/// `specs`, of which those that `pk` lists make up the key.
pub open spec fn extracted_key(
    pk: Seq<PartitionKeyIndex>,
    specs: Seq<ColumnSpec>,
    cells: Seq<RawCell>,
) -> Seq<Option<(Seq<u8>, ColumnSpec)>> {
    key_after(pk, specs, cells, pk.len())
}

/// Reading more entries leaves in place what an earlier entry has put into
/// the key.
pub proof fn lemma_key_after_keeps(
    pk: Seq<PartitionKeyIndex>,
    specs: Seq<ColumnSpec>,
    cells: Seq<RawCell>,
    n: nat,
    k: int,
)
    requires
        valid_pk_indexes(pk, specs.len()),
        0 <= k < n <= pk.len(),
    ensures
        key_after(pk, specs, cells, n).len() == pk.len(),
        key_after(pk, specs, cells, n)[pk[k].sequence as int] == key_entry(
            specs,
            cells,
            pk[k].index as int,
        ),
    decreases n,
{
    lemma_key_after_len(pk, specs, cells, (n - 1) as nat);
    if k < n - 1 {
        lemma_key_after_keeps(pk, specs, cells, (n - 1) as nat, k);
    }
}

/// The key has one place for each entry.
pub proof fn lemma_key_after_len(
    pk: Seq<PartitionKeyIndex>,
    specs: Seq<ColumnSpec>,
    cells: Seq<RawCell>,
    n: nat,
)
    requires
        valid_pk_indexes(pk, specs.len()),
        n <= pk.len(),
    ensures
        key_after(pk, specs, cells, n).len() == pk.len(),
    decreases n,
{
    if n > 0 {
        lemma_key_after_len(pk, specs, cells, (n - 1) as nat);
    }
}

/// In the partition key of a row, the component that an entry of the
/// partition-key indices names is what the bind marker of that entry holds.
pub proof fn lemma_extracted_key_places(
    pk: Seq<PartitionKeyIndex>,
    specs: Seq<ColumnSpec>,
    cells: Seq<RawCell>,
)
    requires
        valid_pk_indexes(pk, specs.len()),
    ensures
        extracted_key(pk, specs, cells).len() == pk.len(),
        forall|k: int|
            0 <= k < pk.len() ==> extracted_key(pk, specs, cells)[(#[trigger] pk[k]).sequence as int]
                == key_entry(specs, cells, pk[k].index as int),
{
    lemma_key_after_len(pk, specs, cells, pk.len());
    assert forall|k: int| 0 <= k < pk.len() implies extracted_key(pk, specs, cells)[(
    #[trigger] pk[k]).sequence as int] == key_entry(specs, cells, pk[k].index as int) by {
        lemma_key_after_keeps(pk, specs, cells, pk.len(), k);
    }
}

/// Whether the entry at `k` is the first whose marker has no value in a row
/// of `count` values.
pub open spec fn first_missing(pk: Seq<PartitionKeyIndex>, count: nat, k: int) -> bool {
    &&& 0 <= k < pk.len()
    &&& pk[k].index >= count
    &&& forall|j: int| 0 <= j < k ==> (#[trigger] pk[j]).index < count
}

/// What taking the partition key from a row gives: the key, or the first
/// marker of the key for which the row has no value. A row with a value for
/// each bind marker has one for each marker of the key.
pub open spec fn extraction_outcome(
    pk: Seq<PartitionKeyIndex>,
    specs: Seq<ColumnSpec>,
    cells: Seq<RawCell>,
    outcome: Result<PartitionKey, PartitionKeyExtractionError>,
) -> bool {
    match outcome {
        Ok(key) => {
            &&& forall|k: int| 0 <= k < pk.len() ==> (#[trigger] pk[k]).index < cells.len()
            &&& key@ == extracted_key(pk, specs, cells)
        },
        Err(PartitionKeyExtractionError::NoPkIndexValue(index, count)) => {
            &&& count == cells.len()
            &&& index < specs.len()
            &&& exists|k: int| #[trigger] first_missing(pk, cells.len(), k) && pk[k].index == index
        },
    }
}

/// The values of the columns of the partition key of one row, in the order of
/// the key, each with the column of its bind marker.
#[derive(Clone, Debug)]
pub struct PartitionKey<'ps> {
    pk_values: Vec<Option<(&'ps [u8], &'ps ColumnSpec)>>,
}

/// What each place of a key of borrowed components stands for.
pub open spec fn key_views(key: Seq<Option<(&[u8], &ColumnSpec)>>) -> Seq<
    Option<(Seq<u8>, ColumnSpec)>,
> {
    Seq::new(
        key.len(),
        |i: int|
            match key[i] {
                Some((bytes, spec)) => Some((bytes@, *spec)),
                None => None,
            },
    )
}

impl<'ps> View for PartitionKey<'ps> {
    type V = Seq<Option<(Seq<u8>, ColumnSpec)>>;

    closed spec fn view(&self) -> Seq<Option<(Seq<u8>, ColumnSpec)>> {
        key_views(self.pk_values@)
    }
}

/// The bytes of each component of a key, without the columns.
pub open spec fn key_components(key: Seq<Option<(Seq<u8>, ColumnSpec)>>) -> Seq<Option<Seq<u8>>> {
    Seq::new(
        key.len(),
        |i: int|
            match key[i] {
                Some((bytes, _)) => Some(bytes),
                None => None,
            },
    )
}

/// The components of a key that are present, in the order of the key.
pub open spec fn present_entries(key: Seq<Option<(Seq<u8>, ColumnSpec)>>) -> Seq<
    (Seq<u8>, ColumnSpec),
>
    decreases key.len(),
{
    if key.len() == 0 {
        Seq::empty()
    } else {
        match key.last() {
            Some(entry) => present_entries(key.drop_last()).push(entry),
            None => present_entries(key.drop_last()),
        }
    }
}

/// What each of a sequence of borrowed components stands for, in order.
pub open spec fn entry_views(entries: Seq<(&[u8], &ColumnSpec)>) -> Seq<(Seq<u8>, ColumnSpec)> {
    Seq::new(entries.len(), |i: int| (entries[i].0@, *entries[i].1))
}

impl<'ps> PartitionKey<'ps> {
    /// Takes the partition key of a row from the values bound to the markers
    /// of a prepared statement.
    pub fn new(prepared: &'ps PreparedStatement, values: &'ps SerializedRow) -> (outcome: Result<
        PartitionKey<'ps>,
        PartitionKeyExtractionError,
    >)
        ensures
            extraction_outcome(prepared.pk_indexes(), prepared.col_specs(), values@, outcome),
    {
        let pk = prepared.get_variable_pk_indexes();
        let specs = prepared.get_variable_col_specs();
        let cells: Vec<RawValue<'ps>> = values.raw_values();
        let count: u16 = values.element_count();
        let n: usize = pk.len();
        let mut pk_values: Vec<Option<(&'ps [u8], &'ps ColumnSpec)>> = Vec::new();
        let mut s: usize = 0;
        while s < n
            invariant
                s <= n,
                pk_values@.len() == s,
                forall|t: int| 0 <= t < s ==> pk_values@[t] is None,
            decreases n - s,
        {
            pk_values.push(None);
            s = s + 1;
        }
        let mut k: usize = 0;
        while k < n
            invariant
                k <= n,
                n == pk@.len(),
                pk@ == prepared.pk_indexes(),
                specs@ == prepared.col_specs(),
                valid_pk_indexes(pk@, specs@.len()),
                raw_cells(cells@) == values@,
                count == values@.len(),
                pk_values@.len() == n,
                key_views(pk_values@) == key_after(pk@, specs@, values@, k as nat),
                forall|j: int| 0 <= j < k ==> (#[trigger] pk@[j]).index < values@.len(),
            decreases n - k,
        {
            let entry = pk[k];
            let index: usize = entry.index as usize;
            if index >= cells.len() {
                proof {
                    assert(first_missing(pk@, values@.len(), k as int));
                }
                return Err(PartitionKeyExtractionError::NoPkIndexValue(entry.index, count));
            }
            let component = match cells[index] {
                RawValue::Value(bytes) => Some((bytes, &specs[index])),
                _ => None,
            };
            pk_values.set(entry.sequence as usize, component);
            k = k + 1;
        }
        Ok(PartitionKey { pk_values })
    }

    /// The components of the key that are present, in the order of the
    /// key, each with the column of its bind marker.
    pub fn values(&self) -> (entries: Vec<(&'ps [u8], &'ps ColumnSpec)>)
        ensures
            entry_views(entries@) == present_entries(self@),
    {
        let n: usize = self.pk_values.len();
        let mut entries: Vec<(&'ps [u8], &'ps ColumnSpec)> = Vec::new();
        let mut i: usize = 0;
        while i < n
            invariant
                i <= n,
                n == self.pk_values@.len(),
                n == self@.len(),
                entry_views(entries@) == present_entries(self@.take(i as int)),
            decreases n - i,
        {
            proof {
                assert(self@.take(i + 1).drop_last() == self@.take(i as int));
            }
            match self.pk_values[i] {
                Some(entry) => {
                    entries.push(entry);
                },
                None => {},
            }
            i = i + 1;
        }
        assert(self@.take(n as int) == self@);
        entries
    }

    /// Computes the token of the key with the given partitioner.
    pub fn calculate_token(&self, partitioner: &PartitionerName) -> (outcome: Result<
        Token,
        TokenCalculationError,
    >)
        ensures
            token_outcome(*partitioner, key_components(self@), outcome),
    {
        let n: usize = self.pk_values.len();
        let mut components: Vec<Option<&[u8]>> = Vec::new();
        let mut i: usize = 0;
        while i < n
            invariant
                i <= n,
                n == self.pk_values@.len(),
                components@.len() == i,
                component_views(components@) == key_components(self@).take(i as int),
            decreases n - i,
        {
            match self.pk_values[i] {
                Some((bytes, _)) => components.push(Some(bytes)),
                None => components.push(None),
            }
            i = i + 1;
        }
        assert(key_components(self@).take(n as int) == key_components(self@));
        calculate_token_for_partition_key(components.as_slice(), partitioner)
    }
}

} // verus!
