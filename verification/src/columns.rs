//! Descriptions of columns, as the server gives them for tables and for the
//! bind markers of prepared statements.

use vstd::prelude::*;

verus! {

/// The declared type of a column or bind marker: one of the native CQL types.
#[derive(Clone, Copy, Debug, PartialEq, Eq, Hash, Structural)]
pub enum ColumnType {
    Ascii,
    Boolean,
    Blob,
    Counter,
    Date,
    Decimal,
    Double,
    Duration,
    Float,
    Int,
    BigInt,
    Text,
    Timestamp,
    Inet,
    SmallInt,
    TinyInt,
    Time,
    Timeuuid,
    Uuid,
    Varint,
}

/// The keyspace and the table that a column belongs to.
#[derive(Debug)]
pub struct TableSpec {
    ks_name: String,
    table_name: String,
}

/// What a [`TableSpec`] stands for.
pub struct TableSpecView {
    pub ks_name: Seq<char>,
    pub table_name: Seq<char>,
}

impl View for TableSpec {
    type V = TableSpecView;

    closed spec fn view(&self) -> TableSpecView {
        TableSpecView { ks_name: self.ks_name@, table_name: self.table_name@ }
    }
}

impl Clone for TableSpec {
    fn clone(&self) -> (copy: TableSpec)
        ensures
            copy == *self,
    {
        TableSpec { ks_name: self.ks_name.clone(), table_name: self.table_name.clone() }
    }
}

impl TableSpec {
    /// A table specification with the given keyspace and table names.
    pub fn owned(ks_name: String, table_name: String) -> (spec: TableSpec)
        ensures
            spec@ == (TableSpecView { ks_name: ks_name@, table_name: table_name@ }),
    {
        TableSpec { ks_name, table_name }
    }

    /// The name of the keyspace.
    pub fn ks_name(&self) -> (name: &str)
        ensures
            name@ == self@.ks_name,
    {
        self.ks_name.as_str()
    }

    /// The name of the table.
    pub fn table_name(&self) -> (name: &str)
        ensures
            name@ == self@.table_name,
    {
        self.table_name.as_str()
    }
}

/// Name, declared type and table of one column or bind marker.
#[derive(Debug)]
pub struct ColumnSpec {
    table_spec: TableSpec,
    name: String,
    typ: ColumnType,
}

/// What a [`ColumnSpec`] stands for.
pub struct ColumnSpecView {
    pub table_spec: TableSpecView,
    pub name: Seq<char>,
    pub typ: ColumnType,
}

impl View for ColumnSpec {
    type V = ColumnSpecView;

    closed spec fn view(&self) -> ColumnSpecView {
        ColumnSpecView { table_spec: self.table_spec@, name: self.name@, typ: self.typ }
    }
}

impl Clone for ColumnSpec {
    fn clone(&self) -> (copy: ColumnSpec)
        ensures
            copy == *self,
    {
        ColumnSpec {
            table_spec: self.table_spec.clone(),
            name: self.name.clone(),
            typ: self.typ,
        }
    }
}

impl ColumnSpec {
    /// A column specification with the given name, type and table.
    pub fn owned(name: String, typ: ColumnType, table_spec: TableSpec) -> (spec: ColumnSpec)
        ensures
            spec@ == (ColumnSpecView { table_spec: table_spec@, name: name@, typ }),
    {
        ColumnSpec { table_spec, name, typ }
    }

    /// The table that the column belongs to.
    pub fn table_spec(&self) -> (table_spec: &TableSpec)
        ensures
            table_spec@ == self@.table_spec,
    {
        &self.table_spec
    }

    /// The name of the column.
    pub fn name(&self) -> (name: &str)
        ensures
            name@ == self@.name,
    {
        self.name.as_str()
    }

    /// The declared type of the column.
    pub fn typ(&self) -> (typ: &ColumnType)
        ensures
            *typ == self@.typ,
    {
        &self.typ
    }
}

/// The declared types of a sequence of columns, in order.
pub open spec fn column_types(specs: Seq<ColumnSpec>) -> Seq<ColumnType> {
    Seq::new(specs.len(), |i: int| specs[i]@.typ)
}

/// Relates one bind marker to the partition key: the marker at position
/// `index` holds the component at position `sequence` of the key.
#[derive(Clone, Copy, Debug, PartialEq, Eq, Structural)]
pub struct PartitionKeyIndex {
    pub index: u16,
    pub sequence: u16,
}

} // verus!
