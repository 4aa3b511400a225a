use rtstore::columnar::ColumnArray;
use rtstore::error::RTStoreError;
use rtstore::introspect::{schema_to_ddl_recordbatch, schema_to_recordbatch};
use rtstore::schema::{DataType, Field, Schema};

fn utf8_cell(batch: &rtstore::columnar::RecordBatch, col: usize, row: usize) -> String {
    match batch.column(col) {
        ColumnArray::Str(v) => v[row].clone(),
        _ => panic!("describe and ddl views hold utf8 columns only"),
    }
}

#[test]
fn test_describe_view_literal_case() -> Result<(), RTStoreError> {
    let schema = Schema::new(vec![Field::new("col1".to_string(), DataType::Utf8, false)]);
    let batch = schema_to_recordbatch(&schema)?;
    assert_eq!(1, batch.num_rows());
    assert_eq!(6, batch.columns().len());
    assert_eq!("col1", utf8_cell(&batch, 0, 0));
    assert_eq!("varchar(255)", utf8_cell(&batch, 1, 0));
    assert_eq!("YES", utf8_cell(&batch, 2, 0));
    assert_eq!("", utf8_cell(&batch, 3, 0));
    assert_eq!("", utf8_cell(&batch, 4, 0));
    assert_eq!("", utf8_cell(&batch, 5, 0));
    Ok(())
}

#[test]
fn test_describe_view_type_names() -> Result<(), RTStoreError> {
    let schema = Schema::new(vec![
        Field::new("a".to_string(), DataType::Int8, false),
        Field::new("b".to_string(), DataType::Int16, false),
        Field::new("c".to_string(), DataType::Int32, false),
        Field::new("d".to_string(), DataType::Int64, false),
        Field::new("e".to_string(), DataType::Float32, false),
        Field::new("f".to_string(), DataType::Float64, false),
        Field::new("g".to_string(), DataType::Date32, false),
        Field::new(
            "h".to_string(),
            DataType::Timestamp(rtstore::schema::TimeUnit::Second),
            false,
        ),
        Field::new("i".to_string(), DataType::Boolean, false),
    ]);
    let batch = schema_to_recordbatch(&schema)?;
    assert_eq!(9, batch.num_rows());
    let expected = vec![
        "tinyint",
        "smallint",
        "int",
        "bigint",
        "float",
        "double",
        "date",
        "timestamp",
        "unknown",
    ];
    for (row, want) in expected.iter().enumerate() {
        assert_eq!(*want, utf8_cell(&batch, 1, row));
    }
    Ok(())
}

#[test]
fn test_describe_view_empty_schema_fails() {
    let schema = Schema::new(vec![]);
    match schema_to_recordbatch(&schema) {
        Err(RTStoreError::EncodingError(msg)) => {
            assert_eq!("number of columns must match number of schema fields", msg);
        }
        _ => panic!("a schema without fields has no describe view"),
    }
}

#[test]
fn test_ddl_view_literal_case() -> Result<(), RTStoreError> {
    let schema = Schema::new(vec![Field::new("id".to_string(), DataType::Int32, false)]);
    let batch = schema_to_ddl_recordbatch("t1", &schema)?;
    assert_eq!(1, batch.num_rows());
    assert_eq!(2, batch.columns().len());
    assert_eq!("t1", utf8_cell(&batch, 0, 0));
    assert_eq!("create table `t1` (id int)", utf8_cell(&batch, 1, 0));
    Ok(())
}

#[test]
fn test_ddl_view_skips_unrenderable_fields() -> Result<(), RTStoreError> {
    let schema = Schema::new(vec![
        Field::new("id".to_string(), DataType::Int32, false),
        Field::new("flag".to_string(), DataType::Boolean, false),
        Field::new("name".to_string(), DataType::Utf8, true),
    ]);
    let batch = schema_to_ddl_recordbatch("t2", &schema)?;
    assert_eq!("create table `t2` (id int,name varchar(255))", utf8_cell(&batch, 1, 0));
    Ok(())
}

#[test]
fn test_ddl_view_empty_schema() -> Result<(), RTStoreError> {
    let schema = Schema::new(vec![]);
    let batch = schema_to_ddl_recordbatch("empty", &schema)?;
    assert_eq!("create table `empty` ()", utf8_cell(&batch, 1, 0));
    Ok(())
}
