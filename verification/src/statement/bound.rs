//! Bound statements: prepared statements together with the values for their
//! bind markers, and the three ways of binding those values.

use crate::columns::{column_types, ColumnSpec};
use crate::routing::partitioner::{first_too_long, key_bytes, too_long, TokenCalculationError};
use crate::routing::Token;
use crate::serialize::{serialized_cell, serialized_row, RawCell, SerializedRow};
use crate::statement::prepared::{
    extracted_key, key_components, PartitionKey, PartitionKeyError, PartitionKeyExtractionError,
    PreparedStatement,
};
use crate::text::str_eq;
use crate::value::{value_views, Value, ValueView};
use scylla_cql::serialize::SerializationError;
use std::borrow::Cow;
use vstd::prelude::*;

verus! {

/// The prepared statement that is owned or borrowed.
pub open spec fn held(prepared: Cow<PreparedStatement>) -> PreparedStatement {
    match prepared {
        Cow::Borrowed(borrowed) => *borrowed,
        Cow::Owned(owned) => owned,
    }
}

/// The prepared statement that is owned or borrowed.
fn borrow_held<'a, 'prepared>(prepared: &'a Cow<'prepared, PreparedStatement>) -> (statement:
    &'a PreparedStatement)
    ensures
        *statement == held(*prepared),
{
    match prepared {
        Cow::Borrowed(borrowed) => borrowed,
        Cow::Owned(owned) => owned,
    }
}

/// What computing the token of a bound statement gives, from its prepared
/// statement and its values: nothing where the statement is not token-aware,
/// else the token that the partitioner of the statement gives to the bytes of
/// the partition key, or the error for the first component that is too long.
pub open spec fn statement_token(
    prepared: PreparedStatement,
    cells: Seq<RawCell>,
    outcome: Result<Option<Token>, PartitionKeyError>,
) -> bool {
    let components = key_components(
        extracted_key(prepared.pk_indexes(), prepared.col_specs(), cells),
    );
    match outcome {
        Ok(None) => !prepared.token_aware(),
        Ok(Some(token)) => {
            &&& prepared.token_aware()
            &&& components.len() != 1 ==> forall|i: int|
                0 <= i < components.len() ==> !too_long(#[trigger] components[i])
            &&& token@ == prepared.partitioner()->0.token_of(key_bytes(components))
        },
        Err(PartitionKeyError::TokenCalculation(TokenCalculationError::ValueTooLong(len))) => {
            &&& prepared.token_aware()
            &&& components.len() != 1
            &&& exists|i: int| #[trigger]
                first_too_long(components, i) && components[i]->0.len() == len
        },
        Err(PartitionKeyError::PartitionKeyExtraction(_)) => false,
    }
}

/// A prepared statement with a value for each of its bind markers.
#[derive(Debug)]
pub struct BoundStatement<'prepared> {
    pub(crate) prepared: Cow<'prepared, PreparedStatement>,
    pub(crate) values: SerializedRow,
}

impl<'prepared> Clone for BoundStatement<'prepared> {
    fn clone(&self) -> (copy: BoundStatement<'prepared>)
        ensures
            copy.values() == self.values(),
            copy.prepared_statement().id() == self.prepared_statement().id(),
            copy.prepared_statement().result_metadata_id()
                == self.prepared_statement().result_metadata_id(),
            copy.prepared_statement().statement() == self.prepared_statement().statement(),
            copy.prepared_statement().col_specs() == self.prepared_statement().col_specs(),
            copy.prepared_statement().pk_indexes() == self.prepared_statement().pk_indexes(),
            copy.prepared_statement().partitioner() == self.prepared_statement().partitioner(),
    {
        proof {
            use_type_invariant(self);
        }
        let prepared = match &self.prepared {
            Cow::Borrowed(borrowed) => Cow::Borrowed(*borrowed),
            Cow::Owned(owned) => Cow::Owned(owned.clone()),
        };
        BoundStatement { prepared, values: self.values.clone() }
    }
}

impl<'prepared> BoundStatement<'prepared> {
    #[verifier::type_invariant]
    spec fn inv(self) -> bool {
        self.values@.len() == held(self.prepared).col_specs().len()
    }

    /// The prepared statement behind the bound statement.
    pub closed spec fn prepared_statement(self) -> PreparedStatement {
        held(self.prepared)
    }

    /// The serialized values, one for each bind marker, in order.
    pub closed spec fn values(self) -> Seq<RawCell> {
        self.values@
    }

    /// Binds a row of values to a prepared statement, which the bound
    /// statement then owns.
    pub fn new_owned(prepared: PreparedStatement, values: &[Value]) -> (outcome: Result<
        BoundStatement<'static>,
        SerializationError,
    >)
        ensures
            match outcome {
                Ok(bound) => {
                    &&& bound.prepared_statement() == prepared
                    &&& serialized_row(value_views(values@), column_types(prepared.col_specs()))
                        == Some(bound.values())
                },
                Err(_) => serialized_row(value_views(values@), column_types(prepared.col_specs()))
                    is None,
            },
    {
        let values = prepared.serialize_values(values)?;
        let prepared = Cow::Owned(prepared);
        Ok(BoundStatement { prepared, values })
    }

    /// Binds a row of values to a prepared statement, which the bound
    /// statement borrows.
    pub fn new_borrowed(prepared: &'prepared PreparedStatement, values: &[Value]) -> (outcome:
        Result<BoundStatement<'prepared>, SerializationError>)
        ensures
            match outcome {
                Ok(bound) => {
                    &&& bound.prepared_statement() == *prepared
                    &&& serialized_row(value_views(values@), column_types(prepared.col_specs()))
                        == Some(bound.values())
                },
                Err(_) => serialized_row(value_views(values@), column_types(prepared.col_specs()))
                    is None,
            },
    {
        let values = prepared.serialize_values(values)?;
        let prepared = Cow::Borrowed(prepared);
        Ok(BoundStatement { prepared, values })
    }

    /// A bound statement of a prepared statement and values that were
    /// serialized for it before.
    pub(crate) fn new_untyped(
        prepared: Cow<'prepared, PreparedStatement>,
        values: SerializedRow,
    ) -> (bound: BoundStatement<'prepared>)
        requires
            values@.len() == held(prepared).col_specs().len(),
        ensures
            bound.prepared_statement() == held(prepared),
            bound.values() == values@,
    {
        BoundStatement { prepared, values }
    }

    /// Determines which values make up the partition key and puts them in
    /// the order of the key.
    pub fn extract_partition_key<'ps>(&'ps self) -> (outcome: Result<
        PartitionKey<'ps>,
        PartitionKeyExtractionError,
    >)
        ensures
            outcome matches Ok(key) && key@ == extracted_key(
                self.prepared_statement().pk_indexes(),
                self.prepared_statement().col_specs(),
                self.values(),
            ),
    {
        proof {
            use_type_invariant(self);
        }
        PartitionKey::new(borrow_held(&self.prepared), &self.values)
    }

    /// The partition key and its token, where the statement is token-aware.
    pub fn extract_partition_key_and_calculate_token<'ps>(&'ps self) -> (outcome: Result<
        Option<(PartitionKey<'ps>, Token)>,
        PartitionKeyError,
    >)
        ensures
            statement_token(
                self.prepared_statement(),
                self.values(),
                match outcome {
                    Ok(Some((_, token))) => Ok(Some(token)),
                    Ok(None) => Ok(None),
                    Err(e) => Err(e),
                },
            ),
            outcome matches Ok(Some((key, _))) ==> key@ == extracted_key(
                self.prepared_statement().pk_indexes(),
                self.prepared_statement().col_specs(),
                self.values(),
            ),
    {
        let prepared = borrow_held(&self.prepared);
        if !prepared.is_token_aware() {
            return Ok(None);
        }
        let partitioner = match prepared.get_partitioner_name() {
            Some(partitioner) => partitioner,
            None => {
                return Ok(None);
            },
        };
        let partition_key = match self.extract_partition_key() {
            Ok(key) => key,
            Err(e) => {
                return Err(PartitionKeyError::PartitionKeyExtraction(e));
            },
        };
        let token = match partition_key.calculate_token(&partitioner) {
            Ok(token) => token,
            Err(e) => {
                return Err(PartitionKeyError::TokenCalculation(e));
            },
        };
        Ok(Some((partition_key, token)))
    }

    /// Calculates the token for the bound statement: the token that routes
    /// the request that executes it.
    pub fn calculate_token(&self) -> (outcome: Result<Option<Token>, PartitionKeyError>)
        ensures
            statement_token(self.prepared_statement(), self.values(), outcome),
    {
        match self.extract_partition_key_and_calculate_token() {
            Ok(Some((_, token))) => Ok(Some(token)),
            Ok(None) => Ok(None),
            Err(e) => Err(e),
        }
    }

    /// Returns the prepared statement behind the `BoundStatement`.
    pub fn prepared(&self) -> (prepared: &PreparedStatement)
        ensures
            *prepared == self.prepared_statement(),
    {
        borrow_held(&self.prepared)
    }

    /// The serialized values of the bound statement.
    pub fn serialized_values(&self) -> (values: &SerializedRow)
        ensures
            values@ == self.values(),
            values@.len() == self.prepared_statement().col_specs().len(),
    {
        proof {
            use_type_invariant(self);
        }
        &self.values
    }
}

/// Owns or borrows a prepared statement and can bind values to it, in one of
/// three ways.
pub struct StatementBinder<'prepared> {
    prepared: Cow<'prepared, PreparedStatement>,
}

impl<'prepared> StatementBinder<'prepared> {
    /// The prepared statement to which values are bound.
    pub closed spec fn prepared_statement(self) -> PreparedStatement {
        held(self.prepared)
    }

    /// A binder that owns its prepared statement.
    pub fn new_owned(prepared: PreparedStatement) -> (binder: StatementBinder<'static>)
        ensures
            binder.prepared_statement() == prepared,
    {
        StatementBinder { prepared: Cow::Owned(prepared) }
    }

    /// A binder that borrows its prepared statement.
    pub fn new_borrowed(prepared: &'prepared PreparedStatement) -> (binder: StatementBinder<
        'prepared,
    >)
        ensures
            binder.prepared_statement() == *prepared,
    {
        StatementBinder { prepared: Cow::Borrowed(prepared) }
    }

    /// Returns a binder to which values are bound in the order of the bind
    /// markers of the statement.
    pub fn appending_binder(self) -> (binder: AppendingStatementBinder<'prepared>)
        ensures
            binder.prepared_statement() == self.prepared_statement(),
            binder.values() == Seq::<RawCell>::empty(),
    {
        AppendingStatementBinder { prepared: self.prepared, values: SerializedRow::new() }
    }

    /// Returns a binder to which values are bound by the index of their bind
    /// marker.
    pub fn by_index_binder(self) -> (binder: ByIndexStatementBinder<'prepared, 'prepared>)
        ensures
            binder.prepared_statement() == self.prepared_statement(),
            binder.slots() == no_slots(self.prepared_statement().col_specs().len()),
    {
        let count = borrow_held(&self.prepared).get_variable_col_specs().len();
        ByIndexStatementBinder { values: empty_slots(count), prepared: self.prepared }
    }

    /// Returns a binder to which values are bound by the name of their bind
    /// marker.
    pub fn by_name_binder(self) -> (binder: ByNameStatementBinder<'prepared, 'prepared>)
        ensures
            binder.prepared_statement() == self.prepared_statement(),
            binder.slots() == no_slots(self.prepared_statement().col_specs().len()),
    {
        let count = borrow_held(&self.prepared).get_variable_col_specs().len();
        ByNameStatementBinder { values: empty_slots(count), prepared: self.prepared }
    }
}

/// An error that can occur while binding values to a prepared statement by
/// appending.
#[derive(Debug)]
pub enum AppendingStatementBinderError {
    /// Fewer values were bound than the statement has bind markers.
    TooFewValues { required: usize, provided: u16 },
    /// A value was offered when every bind marker had one.
    TooManyValues { required: usize },
    /// A value could not be serialized as the type of its bind marker.
    Serialization(SerializationError),
}

/// Binds values to a prepared statement in the order of its bind markers.
#[derive(Debug)]
pub struct AppendingStatementBinder<'prepared> {
    prepared: Cow<'prepared, PreparedStatement>,
    values: SerializedRow,
}

impl<'prepared> AppendingStatementBinder<'prepared> {
    #[verifier::type_invariant]
    spec fn inv(self) -> bool {
        self.values@.len() <= held(self.prepared).col_specs().len()
    }

    /// The prepared statement to which values are bound.
    pub closed spec fn prepared_statement(self) -> PreparedStatement {
        held(self.prepared)
    }

    /// The values bound so far, serialized, in order.
    pub closed spec fn values(self) -> Seq<RawCell> {
        self.values@
    }

    /// What binding `value` to the next bind marker gives: the binder with
    /// the value serialized as the type of the marker, unless every marker has
    /// its value or the value cannot be serialized.
    pub open spec fn binds_next(
        self,
        value: ValueView,
        outcome: Result<AppendingStatementBinder<'prepared>, AppendingStatementBinderError>,
    ) -> bool {
        match outcome {
            Ok(binder) => {
                let next = self.values().len() as int;
                let cell = serialized_cell(
                    value,
                    self.prepared_statement().col_specs()[next]@.typ,
                );
                &&& next < self.prepared_statement().col_specs().len()
                &&& next < u16::MAX
                &&& cell is Some
                &&& binder.values() == self.values().push(cell->0)
                &&& binder.prepared_statement() == self.prepared_statement()
            },
            Err(AppendingStatementBinderError::TooManyValues { required }) => {
                &&& required == self.prepared_statement().col_specs().len()
                &&& self.values().len() == required
            },
            Err(AppendingStatementBinderError::Serialization(_)) => {
                let next = self.values().len() as int;
                &&& next < self.prepared_statement().col_specs().len()
                &&& next == u16::MAX || serialized_cell(
                    value,
                    self.prepared_statement().col_specs()[next]@.typ,
                ) is None
            },
            Err(AppendingStatementBinderError::TooFewValues { .. }) => false,
        }
    }

    /// What finishing gives: the bound statement, unless a bind marker is
    /// left without its value.
    pub open spec fn finishes(
        self,
        outcome: Result<BoundStatement<'prepared>, AppendingStatementBinderError>,
    ) -> bool {
        match outcome {
            Ok(bound) => {
                &&& self.values().len() == self.prepared_statement().col_specs().len()
                &&& bound.values() == self.values()
                &&& bound.prepared_statement() == self.prepared_statement()
            },
            Err(AppendingStatementBinderError::TooFewValues { required, provided }) => {
                &&& required == self.prepared_statement().col_specs().len()
                &&& provided == self.values().len()
                &&& provided < required
            },
            Err(_) => false,
        }
    }

    /// Binds a value to the next bind marker of the statement.
    pub fn bind_next_value(self, value: &Value) -> (outcome: Result<
        AppendingStatementBinder<'prepared>,
        AppendingStatementBinderError,
    >)
        ensures
            self.values().len() <= self.prepared_statement().col_specs().len(),
            self.binds_next(value@, outcome),
    {
        proof {
            use_type_invariant(&self);
        }
        let AppendingStatementBinder { prepared, values } = self;
        let mut values = values;
        let specs = borrow_held(&prepared).get_variable_col_specs();
        let required_values: usize = specs.len();
        let provided_values: u16 = values.element_count();
        if provided_values as usize >= required_values {
            return Err(AppendingStatementBinderError::TooManyValues { required: required_values });
        }
        let spec = &specs[provided_values as usize];
        match values.add_value(value, spec.typ()) {
            Ok(_) => {},
            Err(e) => {
                return Err(AppendingStatementBinderError::Serialization(e));
            },
        }
        Ok(AppendingStatementBinder { prepared, values })
    }

    /// Finishes the binding and returns the bound statement, if every bind
    /// marker has its value.
    pub fn finish(self) -> (outcome: Result<
        BoundStatement<'prepared>,
        AppendingStatementBinderError,
    >)
        ensures
            self.values().len() <= self.prepared_statement().col_specs().len(),
            self.finishes(outcome),
    {
        proof {
            use_type_invariant(&self);
        }
        let AppendingStatementBinder { prepared, values } = self;
        let required_values: usize = borrow_held(&prepared).get_variable_col_specs().len();
        let provided_values: u16 = values.element_count();
        if required_values == provided_values as usize {
            Ok(BoundStatement::new_untyped(prepared, values))
        } else {
            Err(
                AppendingStatementBinderError::TooFewValues {
                    required: required_values,
                    provided: provided_values,
                },
            )
        }
    }
}

/// What each of the places of a binder holds: the value bound to the bind
/// marker of that place, if one is.
pub open spec fn slot_views(slots: Seq<Option<&Value>>) -> Seq<Option<ValueView>> {
    Seq::new(
        slots.len(),
        |i: int|
            match slots[i] {
                Some(value) => Some(value@),
                None => None,
            },
    )
}

/// As many places as a statement has bind markers, with no value bound.
pub open spec fn no_slots(count: nat) -> Seq<Option<ValueView>> {
    Seq::new(count, |i: int| None)
}

/// As many places as a statement has bind markers, with no value bound.
fn empty_slots<'value>(count: usize) -> (slots: Vec<Option<&'value Value>>)
    ensures
        slots@.len() == count,
        slot_views(slots@) == no_slots(count as nat),
{
    let mut slots: Vec<Option<&'value Value>> = Vec::new();
    let mut i: usize = 0;
    while i < count
        invariant
            i <= count,
            slots@.len() == i,
            forall|j: int| 0 <= j < i ==> slots@[j] is None,
        decreases count - i,
    {
        slots.push(None);
        i = i + 1;
    }
    slots
}

/// The cell that the value at place `i` gives for the bind marker of that
/// place, where a value is bound there and can be written as the type of the
/// marker.
pub open spec fn slot_cell(slots: Seq<Option<ValueView>>, specs: Seq<ColumnSpec>, i: int) -> Option<
    RawCell,
> {
    match slots[i] {
        Some(value) => serialized_cell(value, specs[i]@.typ),
        None => None,
    }
}

/// Whether a row can be made of the first `n` places: each has a value that
/// can be written as the type of its bind marker, and a request can carry
/// that many.
pub open spec fn slots_serialize(slots: Seq<Option<ValueView>>, specs: Seq<ColumnSpec>, n: int) -> bool {
    &&& n <= u16::MAX
    &&& forall|j: int| 0 <= j < n ==> (#[trigger] slot_cell(slots, specs, j)) is Some
}

/// The row that the first `n` places give.
pub open spec fn slots_row(slots: Seq<Option<ValueView>>, specs: Seq<ColumnSpec>, n: int) -> Seq<
    RawCell,
> {
    Seq::new(n as nat, |j: int| slot_cell(slots, specs, j)->0)
}

/// Whether `i` is the first place whose value keeps the row from being made:
/// no value is bound there, the value cannot be written as the type of the
/// bind marker, or a request cannot carry as many values.
pub open spec fn first_unserialized(
    slots: Seq<Option<ValueView>>,
    specs: Seq<ColumnSpec>,
    i: int,
) -> bool {
    &&& 0 <= i < slots.len()
    &&& slots_serialize(slots, specs, i)
    &&& !slots_serialize(slots, specs, i + 1)
}

/// Serializes the values of the places, in order, up to the first that keeps
/// the row from being made.
fn serialize_slots<'value>(slots: &Vec<Option<&'value Value>>, specs: &Vec<ColumnSpec>) -> (outcome:
    Result<SerializedRow, (usize, Option<SerializationError>)>)
    requires
        slots@.len() == specs@.len(),
    ensures
        match outcome {
            Ok(row) => {
                &&& slots_serialize(slot_views(slots@), specs@, slots@.len() as int)
                &&& row@ == slots_row(slot_views(slots@), specs@, slots@.len() as int)
            },
            Err((idx, cause)) => {
                &&& first_unserialized(slot_views(slots@), specs@, idx as int)
                &&& cause is None <==> slots@[idx as int] is None
            },
        },
{
    let ghost views = slot_views(slots@);
    let mut serialized_values = SerializedRow::new();
    let n: usize = slots.len();
    let mut idx: usize = 0;
    while idx < n
        invariant
            idx <= n,
            n == slots@.len(),
            n == specs@.len(),
            views == slot_views(slots@),
            slots_serialize(views, specs@, idx as int),
            serialized_values@ == slots_row(views, specs@, idx as int),
        decreases n - idx,
    {
        let value = match slots[idx] {
            Some(value) => value,
            None => {
                proof {
                    assert(slot_cell(views, specs@, idx as int) is None);
                }
                return Err((idx, None));
            },
        };
        match serialized_values.add_value(value, specs[idx].typ()) {
            Ok(_) => {},
            Err(e) => {
                return Err((idx, Some(e)));
            },
        }
        idx = idx + 1;
    }
    Ok(serialized_values)
}

/// An error that can occur while binding values by index to a prepared
/// statement.
#[derive(Debug)]
pub enum ByIndexStatementBinderError {
    /// The statement has no bind marker at the index.
    NoSuchIndex { idx: usize },
    /// No value was bound to the bind marker at the index.
    MissingValueAtIndex { idx: usize },
    /// A value was bound to the bind marker at the index before.
    DuplicatedValue { idx: usize },
    /// A value could not be serialized as the type of its bind marker.
    Serialization(SerializationError),
}

/// Binds values to a prepared statement by the index of their bind marker.
/// The values are serialized when the binding is finished.
#[derive(Debug)]
pub struct ByIndexStatementBinder<'prepared, 'value> {
    prepared: Cow<'prepared, PreparedStatement>,
    values: Vec<Option<&'value Value>>,
}

impl<'prepared, 'value> ByIndexStatementBinder<'prepared, 'value> {
    #[verifier::type_invariant]
    spec fn inv(self) -> bool {
        self.values@.len() == held(self.prepared).col_specs().len()
    }

    /// The prepared statement to which values are bound.
    pub closed spec fn prepared_statement(self) -> PreparedStatement {
        held(self.prepared)
    }

    /// The values bound so far, each at the place of its bind marker.
    pub closed spec fn slots(self) -> Seq<Option<ValueView>> {
        slot_views(self.values@)
    }

    /// What binding `value` to the bind marker at `index` gives: the binder
    /// with the value at that place, unless there is no such marker or it has
    /// a value.
    pub open spec fn binds_at(
        self,
        index: usize,
        value: ValueView,
        outcome: Result<ByIndexStatementBinder<'prepared, 'value>, ByIndexStatementBinderError>,
    ) -> bool {
        match outcome {
            Ok(binder) => {
                &&& index < self.slots().len()
                &&& self.slots()[index as int] is None
                &&& binder.slots() == self.slots().update(index as int, Some(value))
                &&& binder.prepared_statement() == self.prepared_statement()
            },
            Err(ByIndexStatementBinderError::NoSuchIndex { idx }) => {
                &&& idx == index
                &&& index >= self.slots().len()
            },
            Err(ByIndexStatementBinderError::DuplicatedValue { idx }) => {
                &&& idx == index
                &&& index < self.slots().len()
                &&& self.slots()[index as int] is Some
            },
            Err(_) => false,
        }
    }

    /// What finishing gives: the bound statement with the values serialized
    /// in the order of the bind markers, or the error of the first marker
    /// that is left without a value or whose value cannot be serialized.
    pub open spec fn finishes(
        self,
        outcome: Result<BoundStatement<'prepared>, ByIndexStatementBinderError>,
    ) -> bool {
        match outcome {
            Ok(bound) => {
                &&& slots_serialize(
                    self.slots(),
                    self.prepared_statement().col_specs(),
                    self.slots().len() as int,
                )
                &&& bound.values() == slots_row(
                    self.slots(),
                    self.prepared_statement().col_specs(),
                    self.slots().len() as int,
                )
                &&& bound.prepared_statement() == self.prepared_statement()
            },
            Err(ByIndexStatementBinderError::MissingValueAtIndex { idx }) => {
                &&& first_unserialized(
                    self.slots(),
                    self.prepared_statement().col_specs(),
                    idx as int,
                )
                &&& self.slots()[idx as int] is None
            },
            Err(ByIndexStatementBinderError::Serialization(_)) => exists|i: int|
                {
                    &&& #[trigger] first_unserialized(
                        self.slots(),
                        self.prepared_statement().col_specs(),
                        i,
                    )
                    &&& self.slots()[i] is Some
                },
            Err(_) => false,
        }
    }

    /// Binds a value to the bind marker at the given index.
    pub fn bind_value_by_index(self, index: usize, value: &'value Value) -> (outcome: Result<
        ByIndexStatementBinder<'prepared, 'value>,
        ByIndexStatementBinderError,
    >)
        ensures
            self.slots().len() == self.prepared_statement().col_specs().len(),
            self.binds_at(index, value@, outcome),
    {
        proof {
            use_type_invariant(&self);
        }
        let ByIndexStatementBinder { prepared, values } = self;
        let mut values = values;
        if index >= values.len() {
            return Err(ByIndexStatementBinderError::NoSuchIndex { idx: index });
        }
        if values[index].is_some() {
            return Err(ByIndexStatementBinderError::DuplicatedValue { idx: index });
        }
        let ghost before = values@;
        values.set(index, Some(value));
        assert(slot_views(values@) == slot_views(before).update(index as int, Some(value@)));
        Ok(ByIndexStatementBinder { prepared, values })
    }

    /// Finishes the binding: serializes the values in the order of the bind
    /// markers and returns the bound statement, if every bind marker has its
    /// value.
    pub fn finish(self) -> (outcome: Result<BoundStatement<'prepared>, ByIndexStatementBinderError>)
        ensures
            self.slots().len() == self.prepared_statement().col_specs().len(),
            self.finishes(outcome),
    {
        proof {
            use_type_invariant(&self);
        }
        let ByIndexStatementBinder { prepared, values } = self;
        let specs = borrow_held(&prepared).get_variable_col_specs();
        let ghost slots = slot_views(values@);
        match serialize_slots(&values, specs) {
            Ok(serialized_values) => {
                Ok(BoundStatement::new_untyped(prepared, serialized_values))
            },
            Err((idx, cause)) => {
                match cause {
                    None => {
                        Err(ByIndexStatementBinderError::MissingValueAtIndex { idx })
                    },
                    Some(e) => {
                        Err(ByIndexStatementBinderError::Serialization(e))
                    },
                }
            },
        }
    }
}

/// An error that can occur while binding values by name to a prepared
/// statement.
#[derive(Debug)]
pub enum ByNameStatementBinderError {
    /// The statement has no bind marker of the name.
    NoSuchName { name: String },
    /// No value was bound to the bind marker of the name.
    MissingValueForParameter { name: String },
    /// A value was bound to the bind marker of the name before.
    DuplicatedValue { name: String },
    /// A value could not be serialized as the type of its bind marker.
    Serialization(SerializationError),
}

/// Whether `i` is the first bind marker of the given name.
pub open spec fn first_named(specs: Seq<ColumnSpec>, name: Seq<char>, i: int) -> bool {
    &&& 0 <= i < specs.len()
    &&& specs[i]@.name == name
    &&& forall|j: int| 0 <= j < i ==> (#[trigger] specs[j])@.name != name
}

/// Finds the first bind marker of the given name.
fn find_named(specs: &Vec<ColumnSpec>, name: &str) -> (found: Option<usize>)
    ensures
        match found {
            Some(i) => first_named(specs@, name@, i as int),
            None => forall|j: int| 0 <= j < specs@.len() ==> (#[trigger] specs@[j])@.name != name@,
        },
{
    let n: usize = specs.len();
    let mut i: usize = 0;
    while i < n
        invariant
            i <= n,
            n == specs@.len(),
            forall|j: int| 0 <= j < i ==> (#[trigger] specs@[j])@.name != name@,
        decreases n - i,
    {
        if str_eq(specs[i].name(), name) {
            return Some(i);
        }
        i = i + 1;
    }
    None
}

/// Binds values to a prepared statement by the name of their bind marker.
/// The values are serialized when the binding is finished.
#[derive(Debug)]
pub struct ByNameStatementBinder<'prepared, 'value> {
    prepared: Cow<'prepared, PreparedStatement>,
    values: Vec<Option<&'value Value>>,
}

impl<'prepared, 'value> ByNameStatementBinder<'prepared, 'value> {
    #[verifier::type_invariant]
    spec fn inv(self) -> bool {
        self.values@.len() == held(self.prepared).col_specs().len()
    }

    /// The prepared statement to which values are bound.
    pub closed spec fn prepared_statement(self) -> PreparedStatement {
        held(self.prepared)
    }

    /// The values bound so far, each at the place of its bind marker.
    pub closed spec fn slots(self) -> Seq<Option<ValueView>> {
        slot_views(self.values@)
    }

    /// What binding `value` to the first bind marker of the name `name`
    /// gives: the binder with the value at the place of that marker, unless
    /// there is no such marker or it has a value.
    pub open spec fn binds_named(
        self,
        name: Seq<char>,
        value: ValueView,
        outcome: Result<ByNameStatementBinder<'prepared, 'value>, ByNameStatementBinderError>,
    ) -> bool {
        match outcome {
            Ok(binder) => exists|i: int|
                {
                    &&& #[trigger] first_named(self.prepared_statement().col_specs(), name, i)
                    &&& self.slots()[i] is None
                    &&& binder.slots() == self.slots().update(i, Some(value))
                    &&& binder.prepared_statement() == self.prepared_statement()
                },
            Err(ByNameStatementBinderError::NoSuchName { name: reported }) => {
                &&& reported@ == name
                &&& forall|j: int|
                    0 <= j < self.prepared_statement().col_specs().len() ==> (
                    #[trigger] self.prepared_statement().col_specs()[j])@.name != name
            },
            Err(ByNameStatementBinderError::DuplicatedValue { name: reported }) => {
                &&& reported@ == name
                &&& exists|i: int|
                    {
                        &&& #[trigger] first_named(
                            self.prepared_statement().col_specs(),
                            name,
                            i,
                        )
                        &&& self.slots()[i] is Some
                    }
            },
            Err(_) => false,
        }
    }

    /// What finishing gives: the bound statement with the values serialized
    /// in the order of the bind markers, or the error of the first marker
    /// that is left without a value or whose value cannot be serialized.
    pub open spec fn finishes(
        self,
        outcome: Result<BoundStatement<'prepared>, ByNameStatementBinderError>,
    ) -> bool {
        match outcome {
            Ok(bound) => {
                &&& slots_serialize(
                    self.slots(),
                    self.prepared_statement().col_specs(),
                    self.slots().len() as int,
                )
                &&& bound.values() == slots_row(
                    self.slots(),
                    self.prepared_statement().col_specs(),
                    self.slots().len() as int,
                )
                &&& bound.prepared_statement() == self.prepared_statement()
            },
            Err(ByNameStatementBinderError::MissingValueForParameter { name }) => exists|i: int|
                {
                    &&& #[trigger] first_unserialized(
                        self.slots(),
                        self.prepared_statement().col_specs(),
                        i,
                    )
                    &&& self.slots()[i] is None
                    &&& name@ == self.prepared_statement().col_specs()[i]@.name
                },
            Err(ByNameStatementBinderError::Serialization(_)) => exists|i: int|
                {
                    &&& #[trigger] first_unserialized(
                        self.slots(),
                        self.prepared_statement().col_specs(),
                        i,
                    )
                    &&& self.slots()[i] is Some
                },
            Err(_) => false,
        }
    }

    /// Binds a value to the first bind marker of the given name.
    pub fn bind_value_by_name(self, name: &str, value: &'value Value) -> (outcome: Result<
        ByNameStatementBinder<'prepared, 'value>,
        ByNameStatementBinderError,
    >)
        ensures
            self.slots().len() == self.prepared_statement().col_specs().len(),
            self.binds_named(name@, value@, outcome),
    {
        proof {
            use_type_invariant(&self);
        }
        let ByNameStatementBinder { prepared, values } = self;
        let mut values = values;
        let specs = borrow_held(&prepared).get_variable_col_specs();
        let index = match find_named(specs, name) {
            Some(index) => index,
            None => {
                return Err(ByNameStatementBinderError::NoSuchName { name: name.to_owned() });
            },
        };
        if values[index].is_some() {
            return Err(ByNameStatementBinderError::DuplicatedValue { name: name.to_owned() });
        }
        let ghost before = values@;
        values.set(index, Some(value));
        assert(slot_views(values@) == slot_views(before).update(index as int, Some(value@)));
        Ok(ByNameStatementBinder { prepared, values })
    }

    /// Finishes the binding: serializes the values in the order of the bind
    /// markers and returns the bound statement, if every bind marker has its
    /// value.
    pub fn finish(self) -> (outcome: Result<BoundStatement<'prepared>, ByNameStatementBinderError>)
        ensures
            self.slots().len() == self.prepared_statement().col_specs().len(),
            self.finishes(outcome),
    {
        proof {
            use_type_invariant(&self);
        }
        let ByNameStatementBinder { prepared, values } = self;
        let specs = borrow_held(&prepared).get_variable_col_specs();
        let ghost slots = slot_views(values@);
        match serialize_slots(&values, specs) {
            Ok(serialized_values) => {
                Ok(BoundStatement::new_untyped(prepared, serialized_values))
            },
            Err((idx, cause)) => {
                match cause {
                    None => {
                        let name = specs[idx].name().to_owned();
                        Err(ByNameStatementBinderError::MissingValueForParameter { name })
                    },
                    Some(e) => {
                        Err(ByNameStatementBinderError::Serialization(e))
                    },
                }
            },
        }
    }
}

/// A value that is offered when every bind marker has its value is one too
/// many: binding it to a binder that holds as many values as the statement
/// has bind markers gives `TooManyValues` with that number.
pub proof fn lemma_one_value_too_many(
    binder: AppendingStatementBinder,
    value: ValueView,
    outcome: Result<AppendingStatementBinder, AppendingStatementBinderError>,
)
    requires
        binder.values().len() == binder.prepared_statement().col_specs().len(),
        binder.binds_next(value, outcome),
    ensures
        outcome matches Err(AppendingStatementBinderError::TooManyValues { required })
            && required == binder.prepared_statement().col_specs().len(),
{
}

/// A binder that holds no more values than the statement has bind markers
/// finishes with `TooFewValues`, with both numbers, exactly where it holds
/// fewer, and with the bound statement where it holds as many.
pub proof fn lemma_finish_counts_the_values(
    binder: AppendingStatementBinder,
    outcome: Result<BoundStatement, AppendingStatementBinderError>,
)
    requires
        binder.values().len() <= binder.prepared_statement().col_specs().len(),
        binder.finishes(outcome),
    ensures
        binder.values().len() < binder.prepared_statement().col_specs().len() <==> outcome is Err,
        outcome is Err ==> (outcome matches Err(
            AppendingStatementBinderError::TooFewValues { required, provided },
        ) && required == binder.prepared_statement().col_specs().len() && provided
            == binder.values().len()),
{
}

/// Binding to the same index twice gives `DuplicatedValue` with that index.
pub proof fn lemma_same_index_twice(
    binder: ByIndexStatementBinder,
    index: usize,
    first: ValueView,
    second: ValueView,
    once: Result<ByIndexStatementBinder, ByIndexStatementBinderError>,
    twice: Result<ByIndexStatementBinder, ByIndexStatementBinderError>,
)
    requires
        binder.binds_at(index, first, once),
        once is Ok,
        once->Ok_0.binds_at(index, second, twice),
    ensures
        twice matches Err(ByIndexStatementBinderError::DuplicatedValue { idx }) && idx == index,
{
}

/// Binding to an index at which the statement has no bind marker gives
/// `NoSuchIndex` with that index.
pub proof fn lemma_index_out_of_bounds(
    binder: ByIndexStatementBinder,
    index: usize,
    value: ValueView,
    outcome: Result<ByIndexStatementBinder, ByIndexStatementBinderError>,
)
    requires
        index >= binder.slots().len(),
        binder.binds_at(index, value, outcome),
    ensures
        outcome matches Err(ByIndexStatementBinderError::NoSuchIndex { idx }) && idx == index,
{
}

/// Finishing with a bind marker left without a value, when the values of
/// all markers before it serialize, gives `MissingValueAtIndex` with the
/// index of that marker.
pub proof fn lemma_missing_value_at_index(
    binder: ByIndexStatementBinder,
    index: int,
    outcome: Result<BoundStatement, ByIndexStatementBinderError>,
)
    requires
        0 <= index < binder.slots().len(),
        binder.slots()[index] is None,
        slots_serialize(binder.slots(), binder.prepared_statement().col_specs(), index),
        binder.finishes(outcome),
    ensures
        outcome matches Err(ByIndexStatementBinderError::MissingValueAtIndex { idx }) && idx
            == index,
{
    let slots = binder.slots();
    let specs = binder.prepared_statement().col_specs();
    assert(slot_cell(slots, specs, index) is None);
}

/// Binding to the same name twice gives `DuplicatedValue` with that name.
pub proof fn lemma_same_name_twice(
    binder: ByNameStatementBinder,
    name: Seq<char>,
    first: ValueView,
    second: ValueView,
    once: Result<ByNameStatementBinder, ByNameStatementBinderError>,
    twice: Result<ByNameStatementBinder, ByNameStatementBinderError>,
)
    requires
        binder.slots().len() == binder.prepared_statement().col_specs().len(),
        binder.binds_named(name, first, once),
        once is Ok,
        once->Ok_0.binds_named(name, second, twice),
    ensures
        twice matches Err(ByNameStatementBinderError::DuplicatedValue { name: reported })
            && reported@ == name,
{
}

/// Binding to a name that no bind marker of the statement has gives
/// `NoSuchName` with that name.
pub proof fn lemma_no_such_name(
    binder: ByNameStatementBinder,
    name: Seq<char>,
    value: ValueView,
    outcome: Result<ByNameStatementBinder, ByNameStatementBinderError>,
)
    requires
        forall|j: int|
            0 <= j < binder.prepared_statement().col_specs().len() ==> (
            #[trigger] binder.prepared_statement().col_specs()[j])@.name != name,
        binder.binds_named(name, value, outcome),
    ensures
        outcome matches Err(ByNameStatementBinderError::NoSuchName { name: reported }) && reported@
            == name,
{
    let specs = binder.prepared_statement().col_specs();
}

/// Finishing with a bind marker left without a value, when the values of
/// all markers before it serialize, gives `MissingValueForParameter` with
/// the name of that marker.
pub proof fn lemma_missing_value_for_parameter(
    binder: ByNameStatementBinder,
    index: int,
    outcome: Result<BoundStatement, ByNameStatementBinderError>,
)
    requires
        0 <= index < binder.slots().len(),
        binder.slots()[index] is None,
        slots_serialize(binder.slots(), binder.prepared_statement().col_specs(), index),
        binder.finishes(outcome),
    ensures
        outcome matches Err(ByNameStatementBinderError::MissingValueForParameter { name })
            && name@ == binder.prepared_statement().col_specs()[index]@.name,
{
    let slots = binder.slots();
    let specs = binder.prepared_statement().col_specs();
    assert(slot_cell(slots, specs, index) is None);
}

} // verus!
