use scylla::cluster::metadata::{Keyspace, Table};
use scylla::cluster::state::ClusterState;
use scylla::columns::{ColumnSpec, ColumnType, PartitionKeyIndex, TableSpec};
use scylla::routing::partitioner::{PartitionerName, TokenCalculationError};
use scylla::routing::Token;
use scylla::serialize::{RawValue, SerializedRow};
use scylla::statement::bound::{
    AppendingStatementBinderError, BoundStatement, ByIndexStatementBinderError,
    ByNameStatementBinderError, StatementBinder,
};
use scylla::statement::prepared::{
    PartitionKey, PartitionKeyError, PartitionKeyExtractionError, PreparedStatement,
};
use scylla::value::Value;

const KS: &str = "ks";

fn spec(table: &str, name: &str, typ: ColumnType) -> ColumnSpec {
    ColumnSpec::owned(name.to_owned(), typ, TableSpec::owned(KS.to_owned(), table.to_owned()))
}

fn pk(index: u16, sequence: u16) -> PartitionKeyIndex {
    PartitionKeyIndex { index, sequence }
}

/// `INSERT INTO ks.t2 (a, b, c) VALUES (?, ?, ?)` on `t2 (a int, b int, c text, primary key (a, b))`.
fn prepared_t2() -> PreparedStatement {
    PreparedStatement::new(
        vec![1],
        "INSERT INTO ks.t2 (a, b, c) VALUES (?, ?, ?)".to_owned(),
        vec![
            spec("t2", "a", ColumnType::Int),
            spec("t2", "b", ColumnType::Int),
            spec("t2", "c", ColumnType::Text),
        ],
        vec![pk(0, 0)],
        None,
    )
    .unwrap()
}

/// `INSERT INTO ks.complex_pk (a, b, c, d) VALUES (?, ?, ?, 7)` on
/// `complex_pk (a int, b int, c text, d int, e int, primary key ((a, b, c), d))`.
fn prepared_complex_pk() -> PreparedStatement {
    PreparedStatement::new(
        vec![2],
        "INSERT INTO ks.complex_pk (a, b, c, d) VALUES (?, ?, ?, 7)".to_owned(),
        vec![
            spec("complex_pk", "a", ColumnType::Int),
            spec("complex_pk", "b", ColumnType::Int),
            spec("complex_pk", "c", ColumnType::Text),
        ],
        vec![pk(0, 0), pk(1, 1), pk(2, 2)],
        None,
    )
    .unwrap()
}

/// `SELECT host_id FROM system.local WHERE key=?`.
fn prepared_local() -> PreparedStatement {
    PreparedStatement::new(
        vec![3],
        "SELECT host_id FROM system.local WHERE key=?".to_owned(),
        vec![ColumnSpec::owned(
            "key".to_owned(),
            ColumnType::Text,
            TableSpec::owned("system".to_owned(), "local".to_owned()),
        )],
        vec![pk(0, 0)],
        None,
    )
    .unwrap()
}

fn cluster_state() -> ClusterState {
    let t1 = Table::new(
        "t1".to_owned(),
        vec![spec("t1", "a", ColumnType::Text)],
        vec![0],
        vec![],
        None,
    )
    .unwrap();
    let t2 = Table::new(
        "t2".to_owned(),
        vec![
            spec("t2", "a", ColumnType::Int),
            spec("t2", "b", ColumnType::Int),
            spec("t2", "c", ColumnType::Text),
        ],
        vec![0],
        vec![1],
        None,
    )
    .unwrap();
    let complex_pk = Table::new(
        "complex_pk".to_owned(),
        vec![
            spec("complex_pk", "a", ColumnType::Int),
            spec("complex_pk", "b", ColumnType::Int),
            spec("complex_pk", "c", ColumnType::Text),
            spec("complex_pk", "d", ColumnType::Int),
            spec("complex_pk", "e", ColumnType::Int),
        ],
        vec![0, 1, 2],
        vec![3],
        Some("org.apache.cassandra.dht.Murmur3Partitioner".to_owned()),
    )
    .unwrap();
    ClusterState::new(vec![], vec![Keyspace::new(KS.to_owned(), vec![t1, t2, complex_pk])])
}

fn values() -> Vec<Value> {
    vec![Value::Int(17), Value::Int(16), Value::Text("I'm prepared!!!".to_owned())]
}

fn cells(bound: &BoundStatement) -> Vec<Option<Vec<u8>>> {
    bound
        .serialized_values()
        .raw_values()
        .iter()
        .map(|cell| match cell {
            RawValue::Value(bytes) => Some(bytes.to_vec()),
            _ => None,
        })
        .collect()
}

fn expected_cells() -> Vec<Option<Vec<u8>>> {
    vec![Some(vec![0, 0, 0, 17]), Some(vec![0, 0, 0, 16]), Some(b"I'm prepared!!!".to_vec())]
}

#[test]
fn test_bound_statement() {
    let state = cluster_state();

    let empty_statement = PreparedStatement::new(
        vec![0],
        "SELECT a, b, c FROM ks.t2".to_owned(),
        vec![],
        vec![],
        None,
    )
    .unwrap();
    let bound_statement = empty_statement.into_bind(&[]).unwrap();
    assert!(bound_statement.serialized_values().is_empty());
    assert_eq!(bound_statement.calculate_token().unwrap(), None);

    let prepared_statement = prepared_t2();
    let prepared_complex_pk_statement = prepared_complex_pk();
    let values = values();

    let bound_statement = prepared_statement.bind(&values).unwrap();
    let bound_complex_pk_statement = prepared_complex_pk_statement.bind(&values).unwrap();
    assert_eq!(cells(&bound_statement), expected_cells());
    assert_eq!(cells(&bound_complex_pk_statement), expected_cells());

    {
        let token = Token::new(5467144456125416399);
        let prepared_token = bound_statement.calculate_token().unwrap().unwrap();
        assert_eq!(token, prepared_token);
        let cluster_state_token = state.compute_token(KS, "t2", &values[..1]).unwrap();
        assert_eq!(token, cluster_state_token);
    }
    {
        let token = Token::new(-6307476063385197039);
        let prepared_token = bound_complex_pk_statement.calculate_token().unwrap().unwrap();
        assert_eq!(token, prepared_token);
        let cluster_state_token = state.compute_token(KS, "complex_pk", &values).unwrap();
        assert_eq!(token, cluster_state_token);
    }
    assert_eq!(bound_statement.prepared().get_statement(), prepared_statement.get_statement());
    assert_eq!(bound_statement.prepared().get_id(), &vec![1]);
}

#[test]
fn bind_refuses_a_wrong_row() {
    let prepared = prepared_t2();
    assert!(prepared.bind(&[Value::Int(1)]).is_err());
    assert!(prepared.bind(&[Value::Int(1), Value::Int(2), Value::Int(3)]).is_err());
    assert!(BoundStatement::new_borrowed(&prepared, &[]).is_err());
    assert!(BoundStatement::new_owned(prepared_t2(), &values()).is_ok());
}

#[test]
fn appending_binder_arity_errors() {
    let prepared = prepared_local();

    let err = prepared.binder().appending_binder().finish().unwrap_err();
    assert!(matches!(
        err,
        AppendingStatementBinderError::TooFewValues { required: 1, provided: 0 }
    ));

    let err = prepared
        .binder()
        .appending_binder()
        .bind_next_value(&Value::Text("local".to_owned()))
        .unwrap()
        .bind_next_value(&Value::Text("local".to_owned()))
        .unwrap_err();
    assert!(matches!(err, AppendingStatementBinderError::TooManyValues { required: 1 }));

    let err = prepared.binder().appending_binder().bind_next_value(&Value::Int(42)).unwrap_err();
    assert!(matches!(err, AppendingStatementBinderError::Serialization(_)));
}

#[test]
fn appending_binder_binds_in_order() {
    let prepared = prepared_complex_pk();
    let values = values();
    let binder = StatementBinder::new_borrowed(&prepared).appending_binder();
    let binder = binder.bind_next_value(&values[0]).unwrap();
    let err = {
        let partial = StatementBinder::new_borrowed(&prepared)
            .appending_binder()
            .bind_next_value(&values[0])
            .unwrap()
            .bind_next_value(&values[1])
            .unwrap();
        partial.finish().unwrap_err()
    };
    assert!(matches!(
        err,
        AppendingStatementBinderError::TooFewValues { required: 3, provided: 2 }
    ));
    let bound = binder
        .bind_next_value(&values[1])
        .unwrap()
        .bind_next_value(&values[2])
        .unwrap()
        .finish()
        .unwrap();
    assert_eq!(cells(&bound), expected_cells());
    assert_eq!(bound.calculate_token().unwrap(), Some(Token::new(-6307476063385197039)));
}

#[test]
fn appending_binder_offers_one_value_too_many() {
    let prepared = prepared_t2();
    let values = values();
    let mut binder = StatementBinder::new_owned(prepared).appending_binder();
    for value in &values {
        binder = binder.bind_next_value(value).unwrap();
    }
    let err = binder.bind_next_value(&Value::Null).unwrap_err();
    assert!(matches!(err, AppendingStatementBinderError::TooManyValues { required: 3 }));
}

#[test]
fn appending_binder_on_a_statement_without_markers() {
    let prepared =
        PreparedStatement::new(vec![], "SELECT 1".to_owned(), vec![], vec![], None).unwrap();
    let err = prepared.binder().appending_binder().bind_next_value(&Value::Null).unwrap_err();
    assert!(matches!(err, AppendingStatementBinderError::TooManyValues { required: 0 }));
    let bound = prepared.into_binder().appending_binder().finish().unwrap();
    assert!(bound.serialized_values().is_empty());
}

#[test]
fn by_index_binder_errors() {
    let prepared = prepared_t2();
    let values = values();

    let err = prepared.binder().by_index_binder().bind_value_by_index(3, &values[0]).unwrap_err();
    assert!(matches!(err, ByIndexStatementBinderError::NoSuchIndex { idx: 3 }));

    let err = prepared
        .binder()
        .by_index_binder()
        .bind_value_by_index(1, &values[1])
        .unwrap()
        .bind_value_by_index(1, &values[1])
        .unwrap_err();
    assert!(matches!(err, ByIndexStatementBinderError::DuplicatedValue { idx: 1 }));

    let err = prepared
        .binder()
        .by_index_binder()
        .bind_value_by_index(0, &values[0])
        .unwrap()
        .bind_value_by_index(2, &values[2])
        .unwrap()
        .finish()
        .unwrap_err();
    assert!(matches!(err, ByIndexStatementBinderError::MissingValueAtIndex { idx: 1 }));

    let err = prepared.binder().by_index_binder().finish().unwrap_err();
    assert!(matches!(err, ByIndexStatementBinderError::MissingValueAtIndex { idx: 0 }));

    let err = prepared
        .binder()
        .by_index_binder()
        .bind_value_by_index(0, &values[2])
        .unwrap()
        .finish()
        .unwrap_err();
    assert!(matches!(err, ByIndexStatementBinderError::Serialization(_)));

    let err = prepared
        .binder()
        .by_index_binder()
        .bind_value_by_index(1, &values[2])
        .unwrap()
        .finish()
        .unwrap_err();
    assert!(matches!(err, ByIndexStatementBinderError::MissingValueAtIndex { idx: 0 }));
}

#[test]
fn by_index_binder_serializes_in_declared_order() {
    let prepared = prepared_complex_pk();
    let values = values();
    let bound = prepared
        .binder()
        .by_index_binder()
        .bind_value_by_index(2, &values[2])
        .unwrap()
        .bind_value_by_index(0, &values[0])
        .unwrap()
        .bind_value_by_index(1, &values[1])
        .unwrap()
        .finish()
        .unwrap();
    assert_eq!(cells(&bound), expected_cells());
    assert_eq!(bound.calculate_token().unwrap(), Some(Token::new(-6307476063385197039)));
}

#[test]
fn by_name_binder_errors() {
    let prepared = prepared_t2();
    let values = values();

    let err = prepared.binder().by_name_binder().bind_value_by_name("z", &values[0]).unwrap_err();
    assert!(matches!(err, ByNameStatementBinderError::NoSuchName { ref name } if name == "z"));

    let err = prepared
        .binder()
        .by_name_binder()
        .bind_value_by_name("b", &values[1])
        .unwrap()
        .bind_value_by_name("b", &values[1])
        .unwrap_err();
    assert!(matches!(err, ByNameStatementBinderError::DuplicatedValue { ref name } if name == "b"));

    let err = prepared
        .binder()
        .by_name_binder()
        .bind_value_by_name("a", &values[0])
        .unwrap()
        .bind_value_by_name("c", &values[2])
        .unwrap()
        .finish()
        .unwrap_err();
    assert!(matches!(
        err,
        ByNameStatementBinderError::MissingValueForParameter { ref name } if name == "b"
    ));

    let err = prepared
        .binder()
        .by_name_binder()
        .bind_value_by_name("a", &values[2])
        .unwrap()
        .finish()
        .unwrap_err();
    assert!(matches!(err, ByNameStatementBinderError::Serialization(_)));
}

#[test]
fn by_name_binder_serializes_in_declared_order() {
    let prepared = prepared_complex_pk();
    let values = values();
    let bound = prepared
        .binder()
        .by_name_binder()
        .bind_value_by_name("c", &values[2])
        .unwrap()
        .bind_value_by_name("b", &values[1])
        .unwrap()
        .bind_value_by_name("a", &values[0])
        .unwrap()
        .finish()
        .unwrap();
    assert_eq!(cells(&bound), expected_cells());
    assert_eq!(bound.calculate_token().unwrap(), Some(Token::new(-6307476063385197039)));
}

#[test]
fn by_name_binder_takes_the_first_marker_of_a_name() {
    let prepared = PreparedStatement::new(
        vec![],
        "SELECT a FROM ks.t WHERE a > ? AND a < ?".to_owned(),
        vec![spec("t", "a", ColumnType::Int), spec("t", "a", ColumnType::Int)],
        vec![],
        None,
    )
    .unwrap();
    let one = Value::Int(1);
    let binder = prepared.binder().by_name_binder().bind_value_by_name("a", &one).unwrap();
    let err = binder.bind_value_by_name("a", &one).unwrap_err();
    assert!(matches!(err, ByNameStatementBinderError::DuplicatedValue { ref name } if name == "a"));
}

#[test]
fn partition_key_follows_the_order_of_the_key() {
    // Markers: c, a, b; partition key (a, b, c).
    let prepared = PreparedStatement::new(
        vec![],
        "INSERT INTO ks.complex_pk (c, a, b, d) VALUES (?, ?, ?, 7)".to_owned(),
        vec![
            spec("complex_pk", "c", ColumnType::Text),
            spec("complex_pk", "a", ColumnType::Int),
            spec("complex_pk", "b", ColumnType::Int),
        ],
        vec![pk(0, 2), pk(1, 0), pk(2, 1)],
        None,
    )
    .unwrap();
    let bound = prepared
        .bind(&[Value::Text("I'm prepared!!!".to_owned()), Value::Int(17), Value::Int(16)])
        .unwrap();
    let key = bound.extract_partition_key().unwrap();
    assert_eq!(key.calculate_token(&PartitionerName::Murmur3).unwrap().value(), -6307476063385197039);
    let (key, token) = bound.extract_partition_key_and_calculate_token().unwrap().unwrap();
    assert_eq!(token, Token::new(-6307476063385197039));
    let parts: Vec<(Vec<u8>, String)> =
        key.values().iter().map(|(bytes, spec)| (bytes.to_vec(), spec.name().to_owned())).collect();
    assert_eq!(
        parts,
        vec![
            (vec![0, 0, 0, 17], "a".to_owned()),
            (vec![0, 0, 0, 16], "b".to_owned()),
            (b"I'm prepared!!!".to_vec(), "c".to_owned()),
        ]
    );
    assert_eq!(bound.calculate_token().unwrap(), Some(token));
}

#[test]
fn null_components_are_left_out_of_the_key() {
    let prepared = prepared_complex_pk();
    let bound =
        prepared.bind(&[Value::Int(17), Value::Null, Value::Text("x".to_owned())]).unwrap();
    let key = bound.extract_partition_key().unwrap();
    assert_eq!(key.values().len(), 2);
    // 00 04 00 00 00 11 00 | 00 01 78 00
    let expected = PartitionerName::Murmur3
        .hash_one(&[0, 4, 0, 0, 0, 17, 0, 0, 1, b'x', 0])
        .value();
    assert_eq!(bound.calculate_token().unwrap().unwrap().value(), expected);

    let single = prepared_t2();
    let bound = single.bind(&[Value::Unset, Value::Int(1), Value::Null]).unwrap();
    assert_eq!(bound.calculate_token().unwrap(), Some(Token::new(0)));
}

#[test]
fn statement_that_is_not_token_aware_has_no_token() {
    let no_pk = PreparedStatement::new(
        vec![],
        "SELECT a FROM ks.t2 WHERE b = ? ALLOW FILTERING".to_owned(),
        vec![spec("t2", "b", ColumnType::Int)],
        vec![],
        None,
    )
    .unwrap();
    assert!(!no_pk.is_token_aware());
    assert_eq!(no_pk.bind(&[Value::Int(1)]).unwrap().calculate_token().unwrap(), None);

    let unknown = PreparedStatement::new(
        vec![],
        "SELECT a FROM ks.t2 WHERE a = ?".to_owned(),
        vec![spec("t2", "a", ColumnType::Int)],
        vec![pk(0, 0)],
        Some("org.example.OtherPartitioner"),
    )
    .unwrap();
    assert!(!unknown.is_token_aware());
    assert_eq!(unknown.get_partitioner_name(), None);
    let bound = unknown.bind(&[Value::Int(1)]).unwrap();
    assert_eq!(bound.calculate_token().unwrap(), None);
    assert!(bound.extract_partition_key_and_calculate_token().unwrap().is_none());
}

#[test]
fn statement_uses_the_partitioner_of_its_table() {
    let cdc = PreparedStatement::new(
        vec![],
        "SELECT * FROM ks.log WHERE id = ?".to_owned(),
        vec![spec("log", "id", ColumnType::Blob)],
        vec![pk(0, 0)],
        Some("com.scylladb.dht.CDCPartitioner"),
    )
    .unwrap();
    assert!(cdc.is_token_aware());
    assert_eq!(cdc.get_partitioner_name(), Some(PartitionerName::CDC));
    let bound = cdc.bind(&[Value::Blob(vec![0x80, 0, 0, 0, 0, 0, 0, 1, 9, 9])]).unwrap();
    assert_eq!(bound.calculate_token().unwrap(), Some(Token::new(i64::MIN + 1)));
    let bound = cdc.bind(&[Value::Blob(vec![1, 2, 3])]).unwrap();
    assert_eq!(bound.calculate_token().unwrap(), Some(Token::new(i64::MIN)));

    let murmur = PreparedStatement::new(
        vec![],
        "SELECT * FROM ks.t1 WHERE a = ?".to_owned(),
        vec![spec("t1", "a", ColumnType::Text)],
        vec![pk(0, 0)],
        Some("org.apache.cassandra.dht.Murmur3Partitioner"),
    )
    .unwrap();
    let bound = murmur.bind(&[Value::Text("hello".to_owned())]).unwrap();
    assert_eq!(bound.calculate_token().unwrap(), Some(Token::new(-3758069500696749310)));
}

#[test]
fn component_too_long_for_a_composite_key() {
    let prepared = PreparedStatement::new(
        vec![],
        "SELECT * FROM ks.blobs WHERE a = ? AND b = ?".to_owned(),
        vec![spec("blobs", "a", ColumnType::Blob), spec("blobs", "b", ColumnType::Blob)],
        vec![pk(0, 0), pk(1, 1)],
        None,
    )
    .unwrap();
    let bound = prepared.bind(&[Value::Blob(vec![1]), Value::Blob(vec![0; 65536])]).unwrap();
    assert_eq!(
        bound.calculate_token().unwrap_err(),
        PartitionKeyError::TokenCalculation(TokenCalculationError::ValueTooLong(65536))
    );
    let bound = prepared.bind(&[Value::Blob(vec![1]), Value::Blob(vec![0; 65535])]).unwrap();
    assert!(bound.calculate_token().unwrap().is_some());
}

#[test]
fn prepared_statement_refuses_bad_partition_key_indexes() {
    let specs = || vec![spec("t", "a", ColumnType::Int), spec("t", "b", ColumnType::Int)];
    let make = |pk: Vec<PartitionKeyIndex>| {
        PreparedStatement::new(vec![], "s".to_owned(), specs(), pk, None)
    };
    assert!(make(vec![pk(0, 0), pk(1, 1)]).is_some());
    assert!(make(vec![pk(1, 1), pk(0, 0)]).is_some());
    assert!(make(vec![pk(1, 0)]).is_some());
    assert!(make(vec![pk(2, 0)]).is_none());
    assert!(make(vec![pk(0, 1)]).is_none());
    assert!(make(vec![pk(0, 0), pk(1, 0)]).is_none());
    assert!(make(vec![pk(0, 0), pk(1, 2)]).is_none());
}

#[test]
fn partition_key_needs_a_value_for_each_of_its_markers() {
    let prepared = prepared_complex_pk();
    let specs = [spec("complex_pk", "a", ColumnType::Int)];
    let short = SerializedRow::from_serializable(&specs, &[Value::Int(17)]).unwrap();
    assert_eq!(
        PartitionKey::new(&prepared, &short).unwrap_err(),
        PartitionKeyExtractionError::NoPkIndexValue(1, 1)
    );
    assert_eq!(
        PartitionKey::new(&prepared, &SerializedRow::new()).unwrap_err(),
        PartitionKeyExtractionError::NoPkIndexValue(0, 0)
    );
}

#[test]
fn result_metadata_id_is_kept() {
    let prepared = prepared_t2();
    assert_eq!(prepared.get_result_metadata_id(), None);
    let prepared = prepared.with_result_metadata_id(Some(vec![7, 7]));
    assert_eq!(prepared.get_result_metadata_id(), Some(&vec![7, 7]));
    assert_eq!(prepared.get_id(), &vec![1]);
    assert_eq!(prepared.get_variable_col_specs().len(), 3);
    assert_eq!(prepared.get_variable_pk_indexes().len(), 1);
    let copy = prepared.clone();
    assert_eq!(copy.get_result_metadata_id(), Some(&vec![7, 7]));
    assert_eq!(copy.get_statement(), prepared.get_statement());
    assert!(copy.is_token_aware());
}

#[test]
fn clone_of_a_bound_statement_has_the_same_token() {
    let prepared = prepared_complex_pk();
    let bound = prepared.bind(&values()).unwrap();
    let copy = bound.clone();
    assert_eq!(cells(&copy), cells(&bound));
    assert_eq!(copy.calculate_token().unwrap(), bound.calculate_token().unwrap());
    let owned = prepared_complex_pk().into_bind(&values()).unwrap().clone();
    assert_eq!(owned.calculate_token().unwrap(), bound.calculate_token().unwrap());
    let key = PartitionKey::new(owned.prepared(), owned.serialized_values()).unwrap();
    assert_eq!(key.values().len(), 3);
}
