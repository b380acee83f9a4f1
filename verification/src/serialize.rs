//! Serialized rows: the buffer of the `scylla_cql` crate, with what this
//! library relies on said of each of its operations that is used.

use crate::columns::{column_types, ColumnSpec, ColumnType};
use crate::value::{value_views, Value, ValueView};
use scylla_cql::frame::response::result;
use scylla_cql::frame::response::result::NativeType;
use scylla_cql::frame::types;
use scylla_cql::serialize::row;
use scylla_cql::serialize::SerializationError;
use scylla_cql::value::{CqlValue, MaybeUnset};
use vstd::prelude::*;
use vstd::utf8::encode_utf8;

verus! {

/// The buffer of serialized values of `scylla_cql`.
#[verifier::external_type_specification]
#[verifier::external_body]
pub struct ExSerializedRow(row::SerializedValues);

/// The error with which `scylla_cql` refuses to serialize a value.
#[verifier::external_type_specification]
#[verifier::external_body]
pub struct ExSerializationError(SerializationError);

/// A native type as `scylla_cql` writes it.
#[verifier::external_type_specification]
#[verifier::external_body]
pub struct ExNativeType(NativeType);

/// A value as `scylla_cql` writes it.
#[verifier::external_type_specification]
#[verifier::external_body]
pub struct ExValue(CqlValue);

/// One serialized value of a row, as it is read back from the buffer.
pub enum RawCell {
    Null,
    Unset,
    Value(Seq<u8>),
}

/// One serialized value of a row, borrowed from the buffer.
#[derive(Clone, Copy, Debug)]
pub enum RawValue<'a> {
    Null,
    Unset,
    Value(&'a [u8]),
}

impl<'a> View for RawValue<'a> {
    type V = RawCell;

    open spec fn view(&self) -> RawCell {
        match self {
            RawValue::Null => RawCell::Null,
            RawValue::Unset => RawCell::Unset,
            RawValue::Value(bytes) => RawCell::Value(bytes@),
        }
    }
}

/// What each of a sequence of borrowed values stands for, in order.
pub open spec fn raw_cells(values: Seq<RawValue>) -> Seq<RawCell> {
    Seq::new(values.len(), |i: int| values[i]@)
}

/// The values that a buffer of `scylla_cql` holds, in the order in which
/// iterating over it yields them.
pub uninterp spec fn cells(values: row::SerializedValues) -> Seq<RawCell>;

/// Whether a buffer of `scylla_cql` holds nothing but whole values, and as
/// many as its count says. Iterating over one that does not may panic.
pub uninterp spec fn well_formed(values: row::SerializedValues) -> bool;

/// The `width` bytes of `value` in two's complement, most significant first.
pub open spec fn be_bytes(value: int, width: nat) -> Seq<u8>
    decreases width,
{
    if width == 0 {
        Seq::empty()
    } else {
        be_bytes(value / 256, (width - 1) as nat).push((value % 256) as u8)
    }
}

/// The bytes of a value that is neither null nor unset, if the value can be
/// written as the declared type `typ`, in the encoding of the CQL protocol:
/// integers in two's complement with the most significant byte first, a
/// boolean as one byte, text in UTF-8, a blob as it is. A value fits no type
/// but its own (text fits `Ascii` and `Text`), and no text or blob fits that
/// is longer than a cell can be.
pub open spec fn serialized_bytes(value: ValueView, typ: ColumnType) -> Option<Seq<u8>> {
    match value {
        ValueView::Null | ValueView::Unset => None,
        ValueView::Boolean(b) => if typ == ColumnType::Boolean {
            Some(seq![if b { 1u8 } else { 0u8 }])
        } else {
            None
        },
        ValueView::TinyInt(i) => if typ == ColumnType::TinyInt {
            Some(be_bytes(i as int, 1))
        } else {
            None
        },
        ValueView::SmallInt(i) => if typ == ColumnType::SmallInt {
            Some(be_bytes(i as int, 2))
        } else {
            None
        },
        ValueView::Int(i) => if typ == ColumnType::Int {
            Some(be_bytes(i as int, 4))
        } else {
            None
        },
        ValueView::BigInt(i) => if typ == ColumnType::BigInt {
            Some(be_bytes(i as int, 8))
        } else {
            None
        },
        ValueView::Text(s) => if (typ == ColumnType::Ascii || typ == ColumnType::Text)
            && encode_utf8(s).len() <= i32::MAX {
            Some(encode_utf8(s))
        } else {
            None
        },
        ValueView::Blob(b) => if typ == ColumnType::Blob && b.len() <= i32::MAX {
            Some(b)
        } else {
            None
        },
    }
}

/// The cell that serializing `value` as the declared type `typ` gives, or
/// `None` where the value cannot be written as that type. Null and unset fit
/// every type.
pub open spec fn serialized_cell(value: ValueView, typ: ColumnType) -> Option<RawCell> {
    match value {
        ValueView::Null => Some(RawCell::Null),
        ValueView::Unset => Some(RawCell::Unset),
        _ => match serialized_bytes(value, typ) {
            Some(bytes) => Some(RawCell::Value(bytes)),
            None => None,
        },
    }
}

/// The cells that serializing a row of values against as many declared types
/// gives, or `None` where the numbers differ, the row is longer than a
/// request can carry, or some value cannot be written as its type.
pub open spec fn serialized_row(values: Seq<ValueView>, types: Seq<ColumnType>) -> Option<
    Seq<RawCell>,
> {
    if values.len() == types.len() && values.len() <= u16::MAX && forall|i: int|
        0 <= i < values.len() ==> (#[trigger] serialized_cell(values[i], types[i])) is Some {
        Some(Seq::new(values.len(), |i: int| serialized_cell(values[i], types[i])->0))
    } else {
        None
    }
}

/// Writes a declared type as the `NativeType` of `scylla_cql` with the same
/// name. Nothing is claimed of it but through `outside_add_value` and
/// `outside_from_serializable`.
#[verifier::external_body]
fn outside_type(typ: &ColumnType) -> NativeType {
    match typ {
        ColumnType::Ascii => NativeType::Ascii, ColumnType::Boolean => NativeType::Boolean,
        ColumnType::Blob => NativeType::Blob, ColumnType::Counter => NativeType::Counter,
        ColumnType::Date => NativeType::Date, ColumnType::Decimal => NativeType::Decimal,
        ColumnType::Double => NativeType::Double, ColumnType::Duration => NativeType::Duration,
        ColumnType::Float => NativeType::Float, ColumnType::Int => NativeType::Int,
        ColumnType::BigInt => NativeType::BigInt, ColumnType::Text => NativeType::Text,
        ColumnType::Timestamp => NativeType::Timestamp, ColumnType::Inet => NativeType::Inet,
        ColumnType::SmallInt => NativeType::SmallInt, ColumnType::TinyInt => NativeType::TinyInt,
        ColumnType::Time => NativeType::Time, ColumnType::Timeuuid => NativeType::Timeuuid,
        ColumnType::Uuid => NativeType::Uuid, ColumnType::Varint => NativeType::Varint,
    }
}

/// Writes a value as the `CqlValue` of `scylla_cql` of the same kind: `None`
/// for unset, `Some(None)` for null. Nothing is claimed of it but through
/// `outside_add_value` and `outside_from_serializable`.
#[verifier::external_body]
fn outside_value(value: &Value) -> Option<Option<CqlValue>> {
    Some(Some(match value {
        Value::Unset => return None,
        Value::Null => return Some(None),
        Value::Boolean(b) => CqlValue::Boolean(*b),
        Value::TinyInt(i) => CqlValue::TinyInt(*i),
        Value::SmallInt(i) => CqlValue::SmallInt(*i),
        Value::Int(i) => CqlValue::Int(*i),
        Value::BigInt(i) => CqlValue::BigInt(*i),
        Value::Text(s) => CqlValue::Text(s.clone()),
        Value::Blob(b) => CqlValue::Blob(b.clone()),
    }))
}

/// `SerializedValues::new` of `scylla_cql`: an empty buffer.
#[verifier::external_body]
fn outside_new() -> (values: row::SerializedValues)
    ensures
        well_formed(values),
        cells(values) == Seq::<RawCell>::empty(),
{
    row::SerializedValues::new()
}

/// `SerializedValues::element_count` of `scylla_cql`: the count that the
/// buffer keeps, which in a well-formed buffer is the number of its values.
#[verifier::external_body]
fn outside_element_count(values: &row::SerializedValues) -> (count: u16)
    requires
        well_formed(*values),
    ensures
        count == cells(*values).len(),
{
    values.element_count()
}

/// `SerializedValues::add_value` of `scylla_cql`, on a value of this library
/// written as `MaybeUnset<Option<CqlValue>>`. It appends the cell of the
/// value, unless the buffer holds as many values as a request can carry or
/// the value cannot be written as the declared type; then it cuts the buffer
/// back to what it was. The cell is what the `SerializeValue` impls of the
/// crate write for the kind of the value: they check the declared type and
/// write the bytes of the value behind their length.
#[verifier::external_body]
fn outside_add_value(values: &mut row::SerializedValues, value: &Value, typ: &ColumnType) -> (r:
    Result<(), SerializationError>)
    requires
        well_formed(*old(values)),
    ensures
        well_formed(*final(values)),
        match r {
            Ok(_) => cells(*old(values)).len() < u16::MAX && serialized_cell(value@, *typ) is Some
                && cells(*final(values)) == cells(*old(values)).push(
                serialized_cell(value@, *typ)->0,
            ),
            Err(_) => cells(*final(values)) == cells(*old(values)) && (cells(*old(values)).len()
                == u16::MAX || serialized_cell(value@, *typ) is None),
        },
{
    values.add_value(
        &MaybeUnset::from_option(outside_value(value)),
        &result::ColumnType::Native(outside_type(typ)),
    )
}

/// `SerializedValues::from_serializable` of `scylla_cql`, on a row of values
/// of this library against the given columns. It refuses a row with another
/// number of values than there are columns, serializes each value as the
/// type of its column as `add_value` does, and refuses more values than a
/// request can carry.
#[verifier::external_body]
fn outside_from_serializable(specs: &[ColumnSpec], values: &[Value]) -> (r: Result<
    row::SerializedValues,
    SerializationError,
>)
    ensures
        match r {
            Ok(v) => well_formed(v) && serialized_row(value_views(values@), column_types(specs@))
                == Some(cells(v)),
            Err(_) => serialized_row(value_views(values@), column_types(specs@)) is None,
        },
{
    let table = result::TableSpec::borrowed("", "");
    let columns: Vec<result::ColumnSpec> = specs.iter().map(
        |s| {
            let typ = result::ColumnType::Native(outside_type(s.typ()));
            result::ColumnSpec::borrowed(s.name(), typ, table.clone())
        },
    ).collect();
    let row: Vec<MaybeUnset<Option<CqlValue>>> = values.iter().map(
        |v| MaybeUnset::from_option(outside_value(v)),
    ).collect();
    let context = row::RowSerializationContext::from_specs(&columns);
    row::SerializedValues::from_serializable(&context, &row)
}

/// `SerializedValues::iter` of `scylla_cql`: the values of the buffer in
/// order, each read back from its length and its bytes.
#[verifier::external_body]
fn outside_iter<'a>(values: &'a row::SerializedValues) -> (items: Vec<RawValue<'a>>)
    requires
        well_formed(*values),
    ensures
        raw_cells(items@) == cells(*values),
{
    values.iter().map(
        |v| match v {
            types::RawValue::Null => RawValue::Null,
            types::RawValue::Unset => RawValue::Unset,
            types::RawValue::Value(bytes) => RawValue::Value(bytes),
        },
    ).collect()
}

/// `Clone` of the buffer of `scylla_cql`: a buffer with the same values.
pub assume_specification[ <row::SerializedValues as Clone>::clone ](
    values: &row::SerializedValues,
) -> (copy: row::SerializedValues)
    ensures
        well_formed(copy) == well_formed(*values),
        cells(copy) == cells(*values),
;

/// A row of serialized values: an append-only buffer that keeps the values in
/// the order in which they were added.
#[derive(Debug)]
pub struct SerializedRow {
    inner: row::SerializedValues,
}

impl View for SerializedRow {
    type V = Seq<RawCell>;

    closed spec fn view(&self) -> Seq<RawCell> {
        cells(self.inner)
    }
}

impl Clone for SerializedRow {
    fn clone(&self) -> (copy: SerializedRow)
        ensures
            copy@ == self@,
    {
        proof {
            use_type_invariant(self);
        }
        SerializedRow { inner: self.inner.clone() }
    }
}

impl SerializedRow {
    #[verifier::type_invariant]
    spec fn inv(self) -> bool {
        well_formed(self.inner)
    }

    /// An empty row.
    pub fn new() -> (values: SerializedRow)
        ensures
            values@ == Seq::<RawCell>::empty(),
    {
        SerializedRow { inner: outside_new() }
    }

    /// Serializes a row of values against the given columns.
    pub fn from_serializable(specs: &[ColumnSpec], values: &[Value]) -> (r: Result<
        SerializedRow,
        SerializationError,
    >)
        ensures
            match r {
                Ok(v) => serialized_row(value_views(values@), column_types(specs@)) == Some(v@),
                Err(_) => serialized_row(value_views(values@), column_types(specs@)) is None,
            },
    {
        match outside_from_serializable(specs, values) {
            Ok(inner) => Ok(SerializedRow { inner }),
            Err(e) => Err(e),
        }
    }

    /// The number of values in the row.
    pub fn element_count(&self) -> (count: u16)
        ensures
            count == self@.len(),
    {
        proof {
            use_type_invariant(self);
        }
        outside_element_count(&self.inner)
    }

    /// Whether the row holds no value.
    pub fn is_empty(&self) -> (empty: bool)
        ensures
            empty == (self@.len() == 0),
    {
        self.element_count() == 0
    }

    /// Serializes `value` as the declared type `typ` and appends it. Fails,
    /// and leaves the row as it was, where the row is full or the value
    /// cannot be written as that type.
    pub fn add_value(&mut self, value: &Value, typ: &ColumnType) -> (r: Result<
        (),
        SerializationError,
    >)
        ensures
            match r {
                Ok(_) => old(self)@.len() < u16::MAX && serialized_cell(value@, *typ) is Some
                    && final(self)@ == old(self)@.push(serialized_cell(value@, *typ)->0),
                Err(_) => final(self)@ == old(self)@ && (old(self)@.len() == u16::MAX
                    || serialized_cell(value@, *typ) is None),
            },
    {
        let mut taken = SerializedRow::new();
        std::mem::swap(self, &mut taken);
        proof {
            use_type_invariant(&taken);
        }
        let SerializedRow { inner } = taken;
        let mut inner = inner;
        let r = outside_add_value(&mut inner, value, typ);
        *self = SerializedRow { inner };
        r
    }

    /// The values of the row, in order, borrowed from the buffer.
    pub fn raw_values(&self) -> (items: Vec<RawValue<'_>>)
        ensures
            raw_cells(items@) == self@,
    {
        proof {
            use_type_invariant(self);
        }
        outside_iter(&self.inner)
    }

    /// The buffer itself, for writing it into a request.
    pub fn as_inner(&self) -> (inner: &row::SerializedValues)
        ensures
            well_formed(*inner),
            cells(*inner) == self@,
    {
        proof {
            use_type_invariant(self);
        }
        &self.inner
    }
}

} // verus!
