use scylla::columns::{ColumnSpec, ColumnType, TableSpec};
use scylla::serialize::{RawValue, SerializedRow};
use scylla::value::Value;

fn cells(row: &SerializedRow) -> Vec<Option<Vec<u8>>> {
    row.raw_values()
        .iter()
        .map(|cell| match cell {
            RawValue::Value(bytes) => Some(bytes.to_vec()),
            RawValue::Null | RawValue::Unset => None,
        })
        .collect()
}

fn one(value: Value, typ: ColumnType) -> Option<Vec<u8>> {
    let mut row = SerializedRow::new();
    row.add_value(&value, &typ).ok()?;
    assert_eq!(row.element_count(), 1);
    cells(&row).pop().unwrap()
}

fn all_types() -> Vec<ColumnType> {
    vec![
        ColumnType::Ascii,
        ColumnType::Boolean,
        ColumnType::Blob,
        ColumnType::Counter,
        ColumnType::Date,
        ColumnType::Decimal,
        ColumnType::Double,
        ColumnType::Duration,
        ColumnType::Float,
        ColumnType::Int,
        ColumnType::BigInt,
        ColumnType::Text,
        ColumnType::Timestamp,
        ColumnType::Inet,
        ColumnType::SmallInt,
        ColumnType::TinyInt,
        ColumnType::Time,
        ColumnType::Timeuuid,
        ColumnType::Uuid,
        ColumnType::Varint,
    ]
}

fn accepted_by(value: &Value) -> Vec<ColumnType> {
    all_types()
        .into_iter()
        .filter(|typ| SerializedRow::new().add_value(value, typ).is_ok())
        .collect()
}

#[test]
fn new_row_is_empty() {
    let row = SerializedRow::new();
    assert!(row.is_empty());
    assert_eq!(row.element_count(), 0);
    assert!(row.raw_values().is_empty());
}

#[test]
fn integers_are_big_endian_twos_complement() {
    assert_eq!(one(Value::TinyInt(-2), ColumnType::TinyInt), Some(vec![0xfe]));
    assert_eq!(one(Value::SmallInt(0x0102), ColumnType::SmallInt), Some(vec![1, 2]));
    assert_eq!(one(Value::SmallInt(-2), ColumnType::SmallInt), Some(vec![0xff, 0xfe]));
    assert_eq!(one(Value::Int(17), ColumnType::Int), Some(vec![0, 0, 0, 17]));
    assert_eq!(one(Value::Int(-1), ColumnType::Int), Some(vec![0xff; 4]));
    assert_eq!(one(Value::Int(i32::MIN), ColumnType::Int), Some(vec![0x80, 0, 0, 0]));
    assert_eq!(one(Value::Int(i32::MAX), ColumnType::Int), Some(vec![0x7f, 0xff, 0xff, 0xff]));
    assert_eq!(one(Value::Int(0x01020304), ColumnType::Int), Some(vec![1, 2, 3, 4]));
    assert_eq!(one(Value::TinyInt(i8::MIN), ColumnType::TinyInt), Some(vec![0x80]));
    assert_eq!(one(Value::TinyInt(0), ColumnType::TinyInt), Some(vec![0]));
    assert_eq!(one(Value::SmallInt(i16::MIN), ColumnType::SmallInt), Some(vec![0x80, 0]));
    assert_eq!(
        one(Value::BigInt(i64::MIN), ColumnType::BigInt),
        Some(vec![0x80, 0, 0, 0, 0, 0, 0, 0])
    );
    assert_eq!(
        one(Value::BigInt(0x0102030405060708), ColumnType::BigInt),
        Some(vec![1, 2, 3, 4, 5, 6, 7, 8])
    );
    assert_eq!(
        one(Value::BigInt(-256), ColumnType::BigInt),
        Some(vec![0xff, 0xff, 0xff, 0xff, 0xff, 0xff, 0xff, 0])
    );
}

#[test]
fn booleans_text_and_blobs() {
    assert_eq!(one(Value::Boolean(true), ColumnType::Boolean), Some(vec![1]));
    assert_eq!(one(Value::Boolean(false), ColumnType::Boolean), Some(vec![0]));
    assert_eq!(one(Value::Text("hello".to_owned()), ColumnType::Text), Some(b"hello".to_vec()));
    assert_eq!(
        one(Value::Text("krem\u{f3}wki".to_owned()), ColumnType::Text),
        Some(vec![b'k', b'r', b'e', b'm', 0xc3, 0xb3, b'w', b'k', b'i'])
    );
    assert_eq!(one(Value::Text("abc".to_owned()), ColumnType::Ascii), Some(b"abc".to_vec()));
    assert_eq!(one(Value::Text("\u{f3}".to_owned()), ColumnType::Ascii), Some(vec![0xc3, 0xb3]));
    assert_eq!(
        one(Value::Text("\u{20ac}\u{1f600}".to_owned()), ColumnType::Text),
        Some(vec![0xe2, 0x82, 0xac, 0xf0, 0x9f, 0x98, 0x80])
    );
    assert_eq!(one(Value::Text(String::new()), ColumnType::Text), Some(vec![]));
    assert_eq!(one(Value::Blob(vec![9, 8, 7]), ColumnType::Blob), Some(vec![9, 8, 7]));
    assert_eq!(one(Value::Blob(vec![]), ColumnType::Blob), Some(vec![]));
}

#[test]
fn each_value_fits_its_own_type_only() {
    assert_eq!(accepted_by(&Value::Boolean(true)), vec![ColumnType::Boolean]);
    assert_eq!(accepted_by(&Value::TinyInt(1)), vec![ColumnType::TinyInt]);
    assert_eq!(accepted_by(&Value::SmallInt(1)), vec![ColumnType::SmallInt]);
    assert_eq!(accepted_by(&Value::Int(1)), vec![ColumnType::Int]);
    assert_eq!(accepted_by(&Value::BigInt(1)), vec![ColumnType::BigInt]);
    assert_eq!(
        accepted_by(&Value::Text("a".to_owned())),
        vec![ColumnType::Ascii, ColumnType::Text]
    );
    assert_eq!(accepted_by(&Value::Blob(vec![1])), vec![ColumnType::Blob]);
}

#[test]
fn null_and_unset_fit_every_type() {
    assert_eq!(accepted_by(&Value::Null), all_types());
    assert_eq!(accepted_by(&Value::Unset), all_types());
    let mut row = SerializedRow::new();
    row.add_value(&Value::Null, &ColumnType::Int).unwrap();
    row.add_value(&Value::Unset, &ColumnType::Text).unwrap();
    let values = row.raw_values();
    assert!(matches!(values[0], RawValue::Null));
    assert!(matches!(values[1], RawValue::Unset));
}

#[test]
fn failed_add_leaves_the_row_unchanged() {
    let mut row = SerializedRow::new();
    row.add_value(&Value::Int(1), &ColumnType::Int).unwrap();
    assert!(row.add_value(&Value::Int(2), &ColumnType::Text).is_err());
    assert_eq!(row.element_count(), 1);
    assert_eq!(cells(&row), vec![Some(vec![0, 0, 0, 1])]);
    row.add_value(&Value::Text("x".to_owned()), &ColumnType::Text).unwrap();
    assert_eq!(cells(&row), vec![Some(vec![0, 0, 0, 1]), Some(vec![b'x'])]);
}

#[test]
fn row_is_full_at_the_limit_of_a_request() {
    let mut row = SerializedRow::new();
    for _ in 0..65535 {
        row.add_value(&Value::Null, &ColumnType::Int).unwrap();
    }
    assert_eq!(row.element_count(), u16::MAX);
    assert!(row.add_value(&Value::Null, &ColumnType::Int).is_err());
    assert_eq!(row.element_count(), u16::MAX);
    assert_eq!(row.raw_values().len(), 65535);
}

fn spec(name: &str, typ: ColumnType) -> ColumnSpec {
    ColumnSpec::owned(name.to_owned(), typ, TableSpec::owned("ks".to_owned(), "t".to_owned()))
}

#[test]
fn from_serializable_serializes_each_value_as_its_column() {
    let specs = vec![spec("a", ColumnType::Int), spec("b", ColumnType::Text), spec("c", ColumnType::Blob)];
    let values = vec![Value::Int(7), Value::Text("x".to_owned()), Value::Null];
    let row = SerializedRow::from_serializable(&specs, &values).unwrap();
    assert_eq!(row.element_count(), 3);
    assert_eq!(cells(&row), vec![Some(vec![0, 0, 0, 7]), Some(vec![b'x']), None]);
    assert!(matches!(row.raw_values()[2], RawValue::Null));
}

#[test]
fn from_serializable_refuses_a_wrong_count() {
    let specs = vec![spec("a", ColumnType::Int), spec("b", ColumnType::Text)];
    assert!(SerializedRow::from_serializable(&specs, &[Value::Int(7)]).is_err());
    assert!(SerializedRow::from_serializable(
        &specs,
        &[Value::Int(7), Value::Text("x".to_owned()), Value::Int(1)]
    )
    .is_err());
    assert!(SerializedRow::from_serializable(&[], &[]).unwrap().is_empty());
}

#[test]
fn from_serializable_refuses_a_wrong_type() {
    let specs = vec![spec("a", ColumnType::Int), spec("b", ColumnType::Text)];
    assert!(SerializedRow::from_serializable(&specs, &[Value::Int(7), Value::Int(8)]).is_err());
}

#[test]
fn from_serializable_refuses_more_values_than_a_request_carries() {
    let specs: Vec<ColumnSpec> = (0..65536).map(|_| spec("a", ColumnType::Int)).collect();
    let values: Vec<Value> = (0..65536).map(|_| Value::Null).collect();
    assert!(SerializedRow::from_serializable(&specs, &values).is_err());
    assert_eq!(
        SerializedRow::from_serializable(&specs[..65535], &values[..65535])
            .unwrap()
            .element_count(),
        u16::MAX
    );
}

#[test]
fn clone_keeps_the_values() {
    let mut row = SerializedRow::new();
    row.add_value(&Value::Int(1), &ColumnType::Int).unwrap();
    let copy = row.clone();
    row.add_value(&Value::Int(2), &ColumnType::Int).unwrap();
    assert_eq!(cells(&copy), vec![Some(vec![0, 0, 0, 1])]);
    assert_eq!(copy.as_inner().element_count(), 1);
}
