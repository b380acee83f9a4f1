//! Descriptions of keyspaces and of their tables.

use crate::columns::ColumnSpec;
use crate::text::str_eq;
use vstd::prelude::*;

verus! {

/// Whether each index names one of `columns` columns.
pub open spec fn valid_column_indexes(indexes: Seq<usize>, columns: nat) -> bool {
    forall|i: int| 0 <= i < indexes.len() ==> (#[trigger] indexes[i]) < columns
}

/// The columns that the indexes name, in the order of the indexes.
pub open spec fn columns_at(columns: Seq<ColumnSpec>, indexes: Seq<usize>) -> Seq<ColumnSpec> {
    Seq::new(indexes.len(), |i: int| columns[indexes[i] as int])
}

/// A table: its name, its columns in order, the positions of the columns of
/// its partition key and of its clustering key, and the name of its
/// partitioner where it names one.
#[derive(Debug)]
pub struct Table {
    name: String,
    columns: Vec<ColumnSpec>,
    partition_key: Vec<usize>,
    clustering_key: Vec<usize>,
    partitioner: Option<String>,
    pk_column_specs: Vec<ColumnSpec>,
}

impl Table {
    #[verifier::type_invariant]
    spec fn inv(self) -> bool {
        &&& valid_column_indexes(self.partition_key@, self.columns@.len())
        &&& valid_column_indexes(self.clustering_key@, self.columns@.len())
        &&& self.pk_column_specs@ == columns_at(self.columns@, self.partition_key@)
    }

    /// The name of the table.
    pub closed spec fn name(self) -> Seq<char> {
        self.name@
    }

    /// The columns of the table, in order.
    pub closed spec fn columns(self) -> Seq<ColumnSpec> {
        self.columns@
    }

    /// The positions of the columns of the partition key, in the order of the key.
    pub closed spec fn partition_key(self) -> Seq<usize> {
        self.partition_key@
    }

    /// The positions of the columns of the clustering key, in the order of the key.
    pub closed spec fn clustering_key(self) -> Seq<usize> {
        self.clustering_key@
    }

    /// The name of the partitioner of the table, where it names one.
    pub closed spec fn partitioner_name(self) -> Option<Seq<char>> {
        match self.partitioner {
            Some(name) => Some(name@),
            None => None,
        }
    }

    /// The columns of the partition key, in the order of the key.
    pub closed spec fn pk_column_specs(self) -> Seq<ColumnSpec> {
        self.pk_column_specs@
    }

    /// Makes the description of a table. Returns `None` where a position in
    /// one of the keys names no column.
    pub fn new(
        name: String,
        columns: Vec<ColumnSpec>,
        partition_key: Vec<usize>,
        clustering_key: Vec<usize>,
        partitioner: Option<String>,
    ) -> (table: Option<Table>)
        ensures
            table is Some <==> valid_column_indexes(partition_key@, columns@.len())
                && valid_column_indexes(clustering_key@, columns@.len()),
            table matches Some(t) ==> {
                &&& t.name() == name@
                &&& t.columns() == columns@
                &&& t.partition_key() == partition_key@
                &&& t.clustering_key() == clustering_key@
                &&& t.partitioner_name() == match partitioner {
                    Some(p) => Some(p@),
                    None => None,
                }
                &&& t.pk_column_specs() == columns_at(columns@, partition_key@)
            },
    {
        if !check_column_indexes(&partition_key, columns.len()) {
            return None;
        }
        if !check_column_indexes(&clustering_key, columns.len()) {
            return None;
        }
        let mut pk_column_specs: Vec<ColumnSpec> = Vec::new();
        let n: usize = partition_key.len();
        let mut i: usize = 0;
        while i < n
            invariant
                i <= n,
                n == partition_key@.len(),
                valid_column_indexes(partition_key@, columns@.len()),
                pk_column_specs@ == columns_at(columns@, partition_key@.take(i as int)),
            decreases n - i,
        {
            pk_column_specs.push(columns[partition_key[i]].clone());
            i = i + 1;
        }
        assert(partition_key@.take(n as int) == partition_key@);
        Some(Table { name, columns, partition_key, clustering_key, partitioner, pk_column_specs })
    }

    /// Whether the table has the given name.
    pub fn name_is(&self, name: &str) -> (same: bool)
        ensures
            same == (self.name() == name@),
    {
        str_eq(self.name.as_str(), name)
    }

    /// The name of the table.
    pub fn get_name(&self) -> (name: &str)
        ensures
            name@ == self.name(),
    {
        self.name.as_str()
    }

    /// The columns of the table, in order.
    pub fn get_columns(&self) -> (columns: &Vec<ColumnSpec>)
        ensures
            columns@ == self.columns(),
    {
        &self.columns
    }

    /// The columns of the partition key, in the order of the key.
    pub fn get_pk_column_specs(&self) -> (specs: &Vec<ColumnSpec>)
        ensures
            specs@ == self.pk_column_specs(),
            specs@ == columns_at(self.columns(), self.partition_key()),
    {
        proof {
            use_type_invariant(self);
        }
        &self.pk_column_specs
    }

    /// The name of the partitioner of the table, where it names one.
    pub fn get_partitioner(&self) -> (name: Option<&str>)
        ensures
            self.partitioner_name() == match name {
                Some(n) => Some(n@),
                None => None,
            },
    {
        match &self.partitioner {
            Some(name) => Some(name.as_str()),
            None => None,
        }
    }
}

/// Whether each index names one of `columns` columns.
fn check_column_indexes(indexes: &Vec<usize>, columns: usize) -> (valid: bool)
    ensures
        valid == valid_column_indexes(indexes@, columns as nat),
{
    let n: usize = indexes.len();
    let mut i: usize = 0;
    while i < n
        invariant
            i <= n,
            n == indexes@.len(),
            forall|j: int| 0 <= j < i ==> (#[trigger] indexes@[j]) < columns,
        decreases n - i,
    {
        if indexes[i] >= columns {
            return false;
        }
        i = i + 1;
    }
    true
}

/// The first table of the given name among `tables`.
pub open spec fn find_table(tables: Seq<Table>, name: Seq<char>) -> Option<Table>
    decreases tables.len(),
{
    if tables.len() == 0 {
        None
    } else if tables[0].name() == name {
        Some(tables[0])
    } else {
        find_table(tables.drop_first(), name)
    }
}

/// A keyspace: its name and its tables.
#[derive(Debug)]
pub struct Keyspace {
    name: String,
    tables: Vec<Table>,
}

impl Keyspace {
    /// The name of the keyspace.
    pub closed spec fn name(self) -> Seq<char> {
        self.name@
    }

    /// The tables of the keyspace.
    pub closed spec fn tables(self) -> Seq<Table> {
        self.tables@
    }

    /// A keyspace with the given name and tables.
    pub fn new(name: String, tables: Vec<Table>) -> (keyspace: Keyspace)
        ensures
            keyspace.name() == name@,
            keyspace.tables() == tables@,
    {
        Keyspace { name, tables }
    }

    /// Whether the keyspace has the given name.
    pub fn name_is(&self, name: &str) -> (same: bool)
        ensures
            same == (self.name() == name@),
    {
        str_eq(self.name.as_str(), name)
    }

    /// The name of the keyspace.
    pub fn get_name(&self) -> (name: &str)
        ensures
            name@ == self.name(),
    {
        self.name.as_str()
    }

    /// The table of the given name: the first of that name.
    pub fn get_table(&self, name: &str) -> (table: Option<&Table>)
        ensures
            match table {
                Some(t) => find_table(self.tables(), name@) == Some(*t),
                None => find_table(self.tables(), name@) is None,
            },
    {
        let n: usize = self.tables.len();
        let mut i: usize = 0;
        assert(self.tables@.skip(0) == self.tables@);
        while i < n
            invariant
                i <= n,
                n == self.tables@.len(),
                find_table(self.tables@, name@) == find_table(self.tables@.skip(i as int), name@),
            decreases n - i,
        {
            let table = &self.tables[i];
            proof {
                assert(self.tables@.skip(i as int).drop_first() == self.tables@.skip(i + 1));
            }
            if table.name_is(name) {
                return Some(table);
            }
            i = i + 1;
        }
        None
    }
}

/// The first keyspace of the given name among `keyspaces`.
pub open spec fn find_keyspace(keyspaces: Seq<Keyspace>, name: Seq<char>) -> Option<Keyspace>
    decreases keyspaces.len(),
{
    if keyspaces.len() == 0 {
        None
    } else if keyspaces[0].name() == name {
        Some(keyspaces[0])
    } else {
        find_keyspace(keyspaces.drop_first(), name)
    }
}

} // verus!
