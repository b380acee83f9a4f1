use scylla::cluster::metadata::{Keyspace, Table};
use scylla::cluster::state::{calculate_token_for_serialized, ClusterState, ClusterStateTokenError};
use scylla::columns::{ColumnSpec, ColumnType, TableSpec};
use scylla::routing::partitioner::{PartitionerName, TokenCalculationError};
use scylla::routing::Token;
use scylla::serialize::SerializedRow;
use scylla::value::Value;

fn spec(ks: &str, table: &str, name: &str, typ: ColumnType) -> ColumnSpec {
    ColumnSpec::owned(name.to_owned(), typ, TableSpec::owned(ks.to_owned(), table.to_owned()))
}

fn cluster_state(ks: &str) -> ClusterState {
    let t1 = Table::new(
        "t1".to_owned(),
        vec![spec(ks, "t1", "a", ColumnType::Text)],
        vec![0],
        vec![],
        None,
    )
    .unwrap();
    let t2 = Table::new(
        "t2".to_owned(),
        vec![
            spec(ks, "t2", "a", ColumnType::Int),
            spec(ks, "t2", "b", ColumnType::Int),
            spec(ks, "t2", "c", ColumnType::Text),
        ],
        vec![0, 1],
        vec![],
        None,
    )
    .unwrap();
    let complex_pk = Table::new(
        "complex_pk".to_owned(),
        vec![
            spec(ks, "complex_pk", "a", ColumnType::Int),
            spec(ks, "complex_pk", "b", ColumnType::Int),
            spec(ks, "complex_pk", "c", ColumnType::Text),
            spec(ks, "complex_pk", "d", ColumnType::Int),
        ],
        vec![0, 1, 2],
        vec![3],
        None,
    )
    .unwrap();
    let odd = Table::new(
        "odd".to_owned(),
        vec![spec(ks, "odd", "a", ColumnType::Int)],
        vec![0],
        vec![],
        Some("org.example.OtherPartitioner".to_owned()),
    )
    .unwrap();
    let blobs = Table::new(
        "blobs".to_owned(),
        vec![spec(ks, "blobs", "a", ColumnType::Blob), spec(ks, "blobs", "b", ColumnType::Blob)],
        vec![1, 0],
        vec![],
        None,
    )
    .unwrap();
    let shadowed = Table::new(
        "t1".to_owned(),
        vec![spec(ks, "t1", "a", ColumnType::Int)],
        vec![0],
        vec![],
        None,
    )
    .unwrap();
    ClusterState::new(
        vec![],
        vec![
            Keyspace::new("other".to_owned(), vec![]),
            Keyspace::new(ks.to_owned(), vec![t1, t2, complex_pk, odd, blobs, shadowed]),
        ],
    )
}

#[test]
fn test_compute_token_preserialized_single_and_multi() {
    let ks = "test_ks";
    let state = cluster_state(ks);

    // Single-column partition key
    let v = vec![Value::Text("hello".to_owned())];
    let col_specs = [spec(ks, "t1", "a", ColumnType::Text)];
    let sv = SerializedRow::from_serializable(&col_specs, &v).unwrap();

    let token_preser = state.compute_token_preserialized(ks, "t1", &sv).unwrap();
    let token_direct = state.compute_token(ks, "t1", &v).unwrap();
    assert_eq!(token_preser, token_direct);
    assert_eq!(token_preser, Token::new(-3758069500696749310));

    // Composite partition key ((a,b,c))
    let pk_values =
        vec![Value::Int(17), Value::Int(16), Value::Text("I'm prepared!!!".to_owned())];
    let col_specs2 = [
        spec(ks, "complex_pk", "a", ColumnType::Int),
        spec(ks, "complex_pk", "b", ColumnType::Int),
        spec(ks, "complex_pk", "c", ColumnType::Text),
    ];
    let sv2 = SerializedRow::from_serializable(&col_specs2, &pk_values).unwrap();

    let token_preser2 = state.compute_token_preserialized(ks, "complex_pk", &sv2).unwrap();
    let token_direct2 = state.compute_token(ks, "complex_pk", &pk_values).unwrap();
    assert_eq!(token_preser2, token_direct2);
    assert_eq!(token_preser2, Token::new(-6307476063385197039));
}

#[test]
fn test_compute_token_preserialized_count_mismatch() {
    let ks = "test_ks";
    let state = cluster_state(ks);

    // Serialize only a single value while table expects two partition key components
    let col_specs = [spec(ks, "t2", "a", ColumnType::Int)];
    let sv = SerializedRow::from_serializable(&col_specs, &[Value::Int(17)]).unwrap();

    let res = state.compute_token_preserialized(ks, "t2", &sv);
    match res {
        Err(ClusterStateTokenError::PartitionKeyCountMismatch {
            keyspace,
            table,
            received,
            expected,
        }) => {
            assert_eq!(keyspace, ks);
            assert_eq!(table, "t2");
            assert_eq!(received, 1usize);
            assert_eq!(expected, 2usize);
        }
        Ok(token) => panic!("compute_token_preserialized unexpectedly returned Ok({:?})", token),
        Err(e) => panic!("compute_token_preserialized returned unexpected error: {:?}", e),
    }
}

#[test]
fn compute_token_of_unknown_table() {
    let state = cluster_state("ks");
    for (keyspace, table) in [("nowhere", "t1"), ("ks", "nothing"), ("other", "t1")] {
        let err = state.compute_token(keyspace, table, &[Value::Int(1)]).unwrap_err();
        assert!(matches!(
            err,
            ClusterStateTokenError::UnknownTable { keyspace: ref k, table: ref t }
                if k == keyspace && t == table
        ));
        let err = state
            .compute_token_preserialized(keyspace, table, &SerializedRow::new())
            .unwrap_err();
        assert!(matches!(err, ClusterStateTokenError::UnknownTable { .. }));
    }
    assert!(state.get_table("ks", "t1").is_some());
    assert!(state.get_table("other", "t1").is_none());
    assert!(state.get_keyspace("other").is_some());
    assert!(state.get_keyspace("nowhere").is_none());
}

#[test]
fn compute_token_takes_the_first_table_of_a_name() {
    let state = cluster_state("ks");
    assert_eq!(
        state.get_table("ks", "t1").unwrap().get_columns()[0].typ(),
        &ColumnType::Text
    );
    assert!(state.compute_token("ks", "t1", &[Value::Text("a".to_owned())]).is_ok());
    assert!(matches!(
        state.compute_token("ks", "t1", &[Value::Int(1)]),
        Err(ClusterStateTokenError::Serialization(_))
    ));
}

#[test]
fn compute_token_refuses_values_that_do_not_serialize() {
    let state = cluster_state("ks");
    assert!(matches!(
        state.compute_token("ks", "t2", &[Value::Int(17)]),
        Err(ClusterStateTokenError::Serialization(_))
    ));
    assert!(matches!(
        state.compute_token("ks", "t2", &[Value::Int(17), Value::Text("x".to_owned())]),
        Err(ClusterStateTokenError::Serialization(_))
    ));
    assert!(state.compute_token("ks", "t2", &[Value::Int(17), Value::Int(16)]).is_ok());
}

#[test]
fn compute_token_with_unsupported_partitioner() {
    let state = cluster_state("ks");
    let err = state.compute_token("ks", "odd", &[Value::Int(1)]).unwrap_err();
    assert!(matches!(
        err,
        ClusterStateTokenError::UnsupportedPartitioner { ref name }
            if name == "org.example.OtherPartitioner"
    ));
    // The count is checked first.
    let err = state.compute_token_preserialized("ks", "odd", &SerializedRow::new()).unwrap_err();
    assert!(matches!(
        err,
        ClusterStateTokenError::PartitionKeyCountMismatch { received: 0, expected: 1, .. }
    ));
}

#[test]
fn compute_token_with_a_component_that_is_too_long() {
    let state = cluster_state("ks");
    let err = state
        .compute_token("ks", "blobs", &[Value::Blob(vec![0; 70000]), Value::Blob(vec![1])])
        .unwrap_err();
    assert!(matches!(
        err,
        ClusterStateTokenError::TokenCalculation(TokenCalculationError::ValueTooLong(70000))
    ));
}

#[test]
fn pk_column_specs_follow_the_partition_key() {
    let state = cluster_state("ks");
    let blobs = state.get_table("ks", "blobs").unwrap();
    let names: Vec<&str> = blobs.get_pk_column_specs().iter().map(|s| s.name()).collect();
    assert_eq!(names, vec!["b", "a"]);
    assert_eq!(blobs.get_name(), "blobs");
    assert_eq!(blobs.get_partitioner(), None);
    assert_eq!(state.get_keyspace("ks").unwrap().get_name(), "ks");
    assert!(Table::new("t".to_owned(), vec![], vec![0], vec![], None).is_none());
    assert!(Table::new("t".to_owned(), vec![], vec![], vec![0], None).is_none());
    assert!(Table::new("t".to_owned(), vec![], vec![], vec![], None).is_some());
}

#[test]
fn token_of_serialized_values() {
    let specs = [spec("ks", "t", "a", ColumnType::Int), spec("ks", "t", "b", ColumnType::Int)];
    let row = SerializedRow::from_serializable(&specs, &[Value::Int(17), Value::Null]).unwrap();
    let token = calculate_token_for_serialized(&row, &PartitionerName::Murmur3).unwrap();
    assert_eq!(
        token,
        PartitionerName::Murmur3.hash_one(&[0, 4, 0, 0, 0, 17, 0])
    );
    let token = calculate_token_for_serialized(&SerializedRow::new(), &PartitionerName::Murmur3);
    assert_eq!(token.unwrap(), Token::new(0));
}
