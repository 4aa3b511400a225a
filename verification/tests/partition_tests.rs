use rtstore::columnar::rows_to_columns;
use rtstore::error::RTStoreError;
use rtstore::filesystem::{MemSequentialFile, SequentialFileReader};
use rtstore::partition::batches_to_paths;
use rtstore::row_codec::{Data, RowRecordBatch};
use rtstore::schema::{DataType, Field, Schema};

#[test]
fn test_batches_to_paths_values_and_sizes() -> Result<(), RTStoreError> {
    let schema = Schema::new(vec![
        Field::new("k".to_string(), DataType::Int32, false),
        Field::new("s".to_string(), DataType::Utf8, false),
    ]);
    let batch = vec![
        vec![Data::Int32(1), Data::Varchar("ab".to_string())],
        vec![Data::Int32(2), Data::Varchar("cd".to_string())],
    ];
    let ll = vec![RowRecordBatch { batch, schema_version: 1 }];
    let record_batch = rows_to_columns(&schema, &ll)?;
    let paths = batches_to_paths(&vec![record_batch]);
    assert_eq!(2, paths.len());
    // Two int32 cells and four text characters: the whole batch's footprint,
    // carried by every descriptor of the batch.
    for p in &paths {
        assert_eq!("", p.path);
        assert_eq!(12, p.size);
        assert_eq!(2, p.partition_values.len());
    }
    assert_eq!(Data::Int32(1), paths[0].partition_values[0]);
    assert_eq!(Data::Varchar("ab".to_string()), paths[0].partition_values[1]);
    assert_eq!(Data::Int32(2), paths[1].partition_values[0]);
    assert_eq!(Data::Varchar("cd".to_string()), paths[1].partition_values[1]);
    Ok(())
}

#[test]
fn test_batches_to_paths_keeps_batch_order() -> Result<(), RTStoreError> {
    let schema = Schema::new(vec![Field::new("k".to_string(), DataType::Int64, false)]);
    let b1 = rows_to_columns(
        &schema,
        &vec![RowRecordBatch { batch: vec![vec![Data::Int64(10)]], schema_version: 1 }],
    )?;
    let b2 = rows_to_columns(
        &schema,
        &vec![RowRecordBatch {
            batch: vec![vec![Data::Int64(20)], vec![Data::Int64(30)]],
            schema_version: 1,
        }],
    )?;
    let paths = batches_to_paths(&vec![b1, b2]);
    assert_eq!(3, paths.len());
    assert_eq!(Data::Int64(10), paths[0].partition_values[0]);
    assert_eq!(Data::Int64(20), paths[1].partition_values[0]);
    assert_eq!(Data::Int64(30), paths[2].partition_values[0]);
    // Sizes are per batch: one i64 in the first, two in the second.
    assert_eq!(8, paths[0].size);
    assert_eq!(16, paths[1].size);
    assert_eq!(16, paths[2].size);
    Ok(())
}

#[test]
fn test_batches_to_paths_no_batches() {
    let paths = batches_to_paths(&vec![]);
    assert_eq!(0, paths.len());
}

#[test]
fn test_sequential_file_reader_reads_in_order() -> Result<(), RTStoreError> {
    let file = MemSequentialFile::new(vec![1, 2, 3, 4, 5]);
    let mut reader = SequentialFileReader::new(file, "data.bin".to_string());
    assert_eq!("data.bin", reader.name());
    assert!(!reader.use_direct_io());
    assert_eq!(5, reader.file_size());
    let mut buf = vec![0u8; 3];
    let n = reader.read(&mut buf)?;
    assert_eq!(3, n);
    assert_eq!(vec![1, 2, 3], buf);
    let n = reader.read(&mut buf)?;
    assert_eq!(2, n);
    assert_eq!(4, buf[0]);
    assert_eq!(5, buf[1]);
    let n = reader.read(&mut buf)?;
    assert_eq!(0, n);
    Ok(())
}
