use wassel::postgres::{
    column_of, data_type_of, parameter_type, value_from_sql, value_from_sql_null, DataType,
    Parameter, ParameterKind, PgType, Value,
};
use wassel::postgres::row_set;
use wassel::report::bind_outcome;

#[test]
fn pg_decodes_integers_big_endian() {
    assert!(matches!(value_from_sql(&PgType::Int4, &[0, 0, 1, 2]), Ok(Value::Int32(258))));
    assert!(matches!(value_from_sql(&PgType::Int4, &[0xff, 0xff, 0xff, 0xfe]), Ok(Value::Int32(-2))));
    assert!(matches!(
        value_from_sql(&PgType::Int8, &[0, 0, 0, 0, 0, 0, 0, 123]),
        Ok(Value::Int64(123))
    ));
    assert!(value_from_sql(&PgType::Int4, &[0, 0, 1]).is_err());
    assert!(value_from_sql(&PgType::Int8, &[0, 0, 0, 0]).is_err());
}

#[test]
fn pg_decodes_booleans_text_and_bytes() {
    assert!(matches!(value_from_sql(&PgType::Bool, &[1]), Ok(Value::Boolean(true))));
    assert!(matches!(value_from_sql(&PgType::Bool, &[0]), Ok(Value::Boolean(false))));
    assert!(value_from_sql(&PgType::Bool, &[]).is_err());
    match value_from_sql(&PgType::Text, "Hello, World!".as_bytes()) {
        Ok(Value::Text(s)) => assert_eq!(s, "Hello, World!"),
        _ => panic!("expected text"),
    }
    assert!(value_from_sql(&PgType::Text, &[0xff]).is_err());
    match value_from_sql(&PgType::Bytea, b"raw") {
        Ok(Value::Binary(b)) => assert_eq!(b, b"raw".to_vec()),
        _ => panic!("expected bytes"),
    }
    match value_from_sql(&PgType::Other("jsonb".to_string()), &[1, 2]) {
        Ok(Value::Unsupported(b)) => assert_eq!(b, vec![1, 2]),
        _ => panic!("expected raw bytes"),
    }
    assert!(matches!(value_from_sql_null(), Value::PgNull));
}

#[test]
fn pg_types_of_columns_and_parameters() {
    assert!(matches!(data_type_of(&PgType::Int8), DataType::Int64));
    assert!(matches!(data_type_of(&PgType::Other("money".to_string())), DataType::Other(n) if n == "money"));
    assert!(matches!(parameter_type(&ParameterKind::Text), PgType::Text));
    assert!(matches!(parameter_type(&ParameterKind::PgNull), PgType::Other(n) if n == "any"));
}

#[test]
fn pg_parameters_in_binary_format() {
    assert_eq!(Parameter::Int32(258).to_sql().unwrap(), Some(vec![0, 0, 1, 2]));
    assert_eq!(Parameter::Int32(-2).to_sql().unwrap(), Some(vec![0xff, 0xff, 0xff, 0xfe]));
    assert_eq!(Parameter::Int64(123).to_sql().unwrap(), Some(vec![0, 0, 0, 0, 0, 0, 0, 123]));
    assert_eq!(Parameter::Boolean(true).to_sql().unwrap(), Some(vec![1]));
    assert_eq!(Parameter::Boolean(false).to_sql().unwrap(), Some(vec![0]));
    assert_eq!(Parameter::Text("héllo".to_owned()).to_sql().unwrap(), Some("héllo".as_bytes().to_vec()));
    assert_eq!(Parameter::Binary(vec![9, 8, 7]).to_sql().unwrap(), Some(vec![9, 8, 7]));
    assert_eq!(Parameter::PgNull.to_sql().unwrap(), None);
}

#[test]
fn pg_parameter_round_trip() {
    let bytes = Parameter::Int64(-5_000_000_000).to_sql().unwrap().unwrap();
    assert!(matches!(value_from_sql(&PgType::Int8, &bytes), Ok(Value::Int64(-5_000_000_000))));
    let bytes = Parameter::Text("Hello, World!".to_owned()).to_sql().unwrap().unwrap();
    assert!(matches!(value_from_sql(&PgType::Text, &bytes), Ok(Value::Text(s)) if s == "Hello, World!"));
    let bytes = Parameter::Boolean(true).to_sql().unwrap().unwrap();
    assert!(matches!(value_from_sql(&PgType::Bool, &bytes), Ok(Value::Boolean(true))));
}

#[test]
fn pg_parameter_types() {
    assert!(matches!(Parameter::Int32(1).get_oid(), PgType::Int4));
    assert!(matches!(Parameter::Binary(vec![]).get_oid(), PgType::Bytea));
    assert!(matches!(Parameter::PgNull.get_oid(), PgType::Other(n) if n == "any"));
}

#[test]
fn pg_columns() {
    let c = column_of("id", &PgType::Int8);
    assert_eq!(c.name, "id");
    assert!(matches!(c.data_type, DataType::Int64));
    let c = column_of("loc", &PgType::Other("point".to_owned()));
    assert!(matches!(c.data_type, DataType::Other(n) if n == "point"));
}

#[test]
fn pg_bind_outcome() {
    assert!(bind_outcome(&vec![vec![Value::Boolean(true)]]).is_ok());
    assert_eq!(bind_outcome(&vec![vec![Value::Boolean(false)]]), Err("Values are not equal".to_owned()));
    assert_eq!(bind_outcome(&vec![]), Err("Empty rowset returned".to_owned()));
    assert_eq!(bind_outcome(&vec![vec![]]), Err("Empty rowset returned".to_owned()));
    assert_eq!(bind_outcome(&vec![vec![Value::Int32(1)]]), Err("Empty rowset returned".to_owned()));
}

#[test]
fn pg_row_set_decodes_every_cell() {
    let columns = vec![("id".to_owned(), PgType::Int4), ("name".to_owned(), PgType::Text)];
    let rows = vec![
        vec![Some(vec![0, 0, 0, 1]), Some(b"one".to_vec())],
        vec![Some(vec![0, 0, 0, 2]), None],
    ];
    let set = row_set(&columns, &rows).expect("cells decode");
    assert_eq!(set.columns.len(), 2);
    assert_eq!(set.columns[1].name, "name");
    assert!(matches!(set.rows[0][0], Value::Int32(1)));
    assert!(matches!(&set.rows[0][1], Value::Text(s) if s == "one"));
    assert!(matches!(set.rows[1][1], Value::PgNull));
    let bad = vec![vec![Some(vec![0, 0, 0, 1]), Some(vec![0xff])]];
    assert_eq!(row_set(&columns, &bad).err(), Some("error deserializing column 1".to_owned()));
    let empty = row_set(&columns, &vec![]).expect("no rows");
    assert!(empty.columns.is_empty() && empty.rows.is_empty());
}
