use rtstore::columnar::{rows_to_columns, ColumnArray};
use rtstore::error::RTStoreError;
use rtstore::row_codec::{Data, RowRecordBatch};
use rtstore::schema::{DataType, Field, Schema};

fn one_column_schema(dt: DataType) -> Schema {
    Schema::new(vec![Field::new("col1".to_string(), dt, false)])
}

#[test]
fn test_int32_convert() -> Result<(), RTStoreError> {
    let schema = one_column_schema(DataType::Int32);
    let batch = vec![vec![Data::Int32(12)], vec![Data::Int32(11)]];
    let row_batch = RowRecordBatch { batch, schema_version: 1 };
    let ll = vec![row_batch];
    let record_batch = rows_to_columns(&schema, &ll)?;
    match record_batch.column(0) {
        ColumnArray::Int32(v) => {
            assert_eq!(12, v[0]);
            assert_eq!(11, v[1]);
        }
        _ => panic!("fail to down cast"),
    }
    Ok(())
}

#[test]
fn test_int8_convert() -> Result<(), RTStoreError> {
    let schema = one_column_schema(DataType::Int8);
    let batch = vec![vec![Data::Int8(12)], vec![Data::Int8(11)]];
    let ll = vec![RowRecordBatch { batch, schema_version: 1 }];
    let record_batch = rows_to_columns(&schema, &ll)?;
    match record_batch.column(0) {
        ColumnArray::Int8(v) => {
            assert_eq!(12, v[0]);
            assert_eq!(11, v[1]);
        }
        _ => panic!("fail to down cast"),
    }
    Ok(())
}

#[test]
fn test_uint8_convert() -> Result<(), RTStoreError> {
    let schema = one_column_schema(DataType::UInt8);
    let batch = vec![vec![Data::UInt8(12)], vec![Data::UInt8(11)]];
    let ll = vec![RowRecordBatch { batch, schema_version: 1 }];
    let record_batch = rows_to_columns(&schema, &ll)?;
    match record_batch.column(0) {
        ColumnArray::UInt8(v) => {
            assert_eq!(12, v[0]);
            assert_eq!(11, v[1]);
        }
        _ => panic!("fail to down cast"),
    }
    Ok(())
}

#[test]
fn test_int16_convert() -> Result<(), RTStoreError> {
    let schema = one_column_schema(DataType::Int16);
    let batch = vec![vec![Data::Int16(12)], vec![Data::Int16(11)]];
    let ll = vec![RowRecordBatch { batch, schema_version: 1 }];
    let record_batch = rows_to_columns(&schema, &ll)?;
    match record_batch.column(0) {
        ColumnArray::Int16(v) => {
            assert_eq!(12, v[0]);
            assert_eq!(11, v[1]);
        }
        _ => panic!("fail to down cast"),
    }
    Ok(())
}

#[test]
fn test_uint16_convert() -> Result<(), RTStoreError> {
    let schema = one_column_schema(DataType::UInt16);
    let batch = vec![vec![Data::UInt16(12)], vec![Data::UInt16(11)]];
    let ll = vec![RowRecordBatch { batch, schema_version: 1 }];
    let record_batch = rows_to_columns(&schema, &ll)?;
    match record_batch.column(0) {
        ColumnArray::UInt16(v) => {
            assert_eq!(12, v[0]);
            assert_eq!(11, v[1]);
        }
        _ => panic!("fail to down cast"),
    }
    Ok(())
}

#[test]
fn test_int64_convert() -> Result<(), RTStoreError> {
    let schema = one_column_schema(DataType::Int64);
    let batch = vec![vec![Data::Int64(12)], vec![Data::Int64(11)]];
    let ll = vec![RowRecordBatch { batch, schema_version: 1 }];
    let record_batch = rows_to_columns(&schema, &ll)?;
    match record_batch.column(0) {
        ColumnArray::Int64(v) => {
            assert_eq!(12, v[0]);
            assert_eq!(11, v[1]);
        }
        _ => panic!("fail to down cast"),
    }
    Ok(())
}

#[test]
fn test_uint64_convert() -> Result<(), RTStoreError> {
    let schema = one_column_schema(DataType::UInt64);
    let batch = vec![vec![Data::UInt64(12)], vec![Data::UInt64(11)]];
    let ll = vec![RowRecordBatch { batch, schema_version: 1 }];
    let record_batch = rows_to_columns(&schema, &ll)?;
    match record_batch.column(0) {
        ColumnArray::UInt64(v) => {
            assert_eq!(12, v[0]);
            assert_eq!(11, v[1]);
        }
        _ => panic!("fail to down cast"),
    }
    Ok(())
}

#[test]
fn test_order_preserved_across_two_batches() -> Result<(), RTStoreError> {
    let schema = one_column_schema(DataType::Int32);
    let first = RowRecordBatch { batch: vec![vec![Data::Int32(12)]], schema_version: 1 };
    let second = RowRecordBatch { batch: vec![vec![Data::Int32(11)]], schema_version: 1 };
    let record_batch = rows_to_columns(&schema, &vec![first, second])?;
    assert_eq!(2, record_batch.num_rows());
    match record_batch.column(0) {
        ColumnArray::Int32(v) => {
            assert_eq!(vec![12, 11], *v);
        }
        _ => panic!("fail to down cast"),
    }
    Ok(())
}

#[test]
fn test_empty_collection_yields_empty_batch() -> Result<(), RTStoreError> {
    let schema = one_column_schema(DataType::Int32);
    let record_batch = rows_to_columns(&schema, &vec![])?;
    assert_eq!(0, record_batch.num_rows());
    assert_eq!(0, record_batch.columns().len());
    let wide = Schema::new(vec![
        Field::new("a".to_string(), DataType::Utf8, true),
        Field::new("b".to_string(), DataType::Float64, true),
    ]);
    let record_batch = rows_to_columns(&wide, &vec![])?;
    assert_eq!(0, record_batch.num_rows());
    assert_eq!(0, record_batch.columns().len());
    Ok(())
}

#[test]
fn test_type_mismatch_is_fatal() {
    let schema = one_column_schema(DataType::Int32);
    let batch = vec![vec![Data::Int32(1)], vec![Data::Varchar("boom".to_string())]];
    let ll = vec![RowRecordBatch { batch, schema_version: 1 }];
    match rows_to_columns(&schema, &ll) {
        Err(RTStoreError::TableTypeMismatchError { left, right }) => {
            assert_eq!("int32", left);
            assert_eq!("utf8", right);
        }
        _ => panic!("a mismatched cell must fail the whole conversion"),
    }
}

#[test]
fn test_mismatch_reports_first_offending_cell() {
    let schema = Schema::new(vec![
        Field::new("a".to_string(), DataType::Utf8, false),
        Field::new("b".to_string(), DataType::Boolean, false),
    ]);
    // Both cells of the row disagree; the error must name the first column.
    let batch = vec![vec![Data::Bool(true), Data::Varchar("x".to_string())]];
    let ll = vec![RowRecordBatch { batch, schema_version: 1 }];
    match rows_to_columns(&schema, &ll) {
        Err(RTStoreError::TableTypeMismatchError { left, right }) => {
            assert_eq!("utf8", left);
            assert_eq!("boolean", right);
        }
        _ => panic!("a mismatched cell must fail the whole conversion"),
    }
}

#[test]
fn test_unsupported_column_fails_assembly() {
    let schema = one_column_schema(DataType::Float32);
    let batch = vec![vec![Data::Int32(5)]];
    let ll = vec![RowRecordBatch { batch, schema_version: 1 }];
    match rows_to_columns(&schema, &ll) {
        Err(RTStoreError::EncodingError(msg)) => {
            assert_eq!("number of columns must match number of schema fields", msg);
        }
        _ => panic!("a schema whose only column has no builder cannot be assembled"),
    }
}

#[test]
fn test_varchar_date_timestamp_and_bool_convert() -> Result<(), RTStoreError> {
    let schema = Schema::new(vec![
        Field::new("s".to_string(), DataType::Utf8, false),
        Field::new("d".to_string(), DataType::Date32, false),
        Field::new("t".to_string(), DataType::Timestamp(rtstore::schema::TimeUnit::Millisecond), false),
        Field::new("f".to_string(), DataType::Boolean, false),
    ]);
    let batch = vec![
        vec![Data::Varchar("ab".to_string()), Data::Date(10), Data::Timestamp(1000), Data::Bool(true)],
        vec![Data::Varchar("cd".to_string()), Data::Date(11), Data::Timestamp(2000), Data::Bool(false)],
    ];
    let ll = vec![RowRecordBatch { batch, schema_version: 1 }];
    let record_batch = rows_to_columns(&schema, &ll)?;
    assert_eq!(2, record_batch.num_rows());
    assert_eq!(4, record_batch.columns().len());
    assert_eq!(Data::Varchar("ab".to_string()), record_batch.column(0).value_at(0));
    assert_eq!(Data::Varchar("cd".to_string()), record_batch.column(0).value_at(1));
    assert_eq!(Data::Date(10), record_batch.column(1).value_at(0));
    assert_eq!(Data::Timestamp(2000), record_batch.column(2).value_at(1));
    assert_eq!(Data::Bool(true), record_batch.column(3).value_at(0));
    Ok(())
}

#[test]
fn test_conversion_is_deterministic() -> Result<(), RTStoreError> {
    let schema = Schema::new(vec![
        Field::new("a".to_string(), DataType::Int64, false),
        Field::new("b".to_string(), DataType::Utf8, false),
    ]);
    let make = || {
        vec![RowRecordBatch {
            batch: vec![
                vec![Data::Int64(7), Data::Varchar("x".to_string())],
                vec![Data::Int64(8), Data::Varchar("y".to_string())],
            ],
            schema_version: 1,
        }]
    };
    let b1 = rows_to_columns(&schema, &make())?;
    let b2 = rows_to_columns(&schema, &make())?;
    assert_eq!(b1.num_rows(), b2.num_rows());
    assert_eq!(b1.columns().len(), b2.columns().len());
    for c in 0..b1.columns().len() {
        for r in 0..b1.num_rows() {
            assert_eq!(b1.column(c).value_at(r), b2.column(c).value_at(r));
        }
    }
    Ok(())
}
