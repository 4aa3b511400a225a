use rtstore::error::RTStoreError;
use rtstore::schema::{
    table_desc_to_arrow_schema, DataType, RtStoreColumnDesc, RtStoreSchemaDesc, RtStoreType,
    TimeUnit,
};

fn one_column_schema(ctype: i32) -> RtStoreSchemaDesc {
    let columns = vec![RtStoreColumnDesc {
        name: "col1".to_string(),
        ctype,
        null_allowed: true,
    }];
    RtStoreSchemaDesc { columns, version: 1 }
}

fn check_type_convert(t: RtStoreType, target: DataType) -> Result<(), RTStoreError> {
    let schema = one_column_schema(t.to_i32());
    let schema_ref = table_desc_to_arrow_schema(&schema)?;
    assert_eq!(1, schema_ref.fields().len());
    assert_eq!(target, schema_ref.fields()[0].data_type());
    assert!(schema_ref.fields()[0].is_nullable());
    assert_eq!("col1", schema_ref.fields()[0].name());
    Ok(())
}

#[test]
fn test_type_convert_bool() -> Result<(), RTStoreError> {
    check_type_convert(RtStoreType::KBool, DataType::Boolean)
}

#[test]
fn test_type_convert_tiny_int() -> Result<(), RTStoreError> {
    check_type_convert(RtStoreType::KTinyInt, DataType::Int8)
}

#[test]
fn test_type_convert_small_int() -> Result<(), RTStoreError> {
    check_type_convert(RtStoreType::KSmallInt, DataType::Int16)
}

#[test]
fn test_type_convert_int() -> Result<(), RTStoreError> {
    check_type_convert(RtStoreType::KInt, DataType::Int32)
}

#[test]
fn test_type_convert_bigint() -> Result<(), RTStoreError> {
    check_type_convert(RtStoreType::KBigInt, DataType::Int64)
}

#[test]
fn test_type_convert_float() -> Result<(), RTStoreError> {
    check_type_convert(RtStoreType::KFloat, DataType::Float32)
}

#[test]
fn test_type_convert_double() -> Result<(), RTStoreError> {
    check_type_convert(RtStoreType::KDouble, DataType::Float64)
}

#[test]
fn test_type_convert_string() -> Result<(), RTStoreError> {
    check_type_convert(RtStoreType::KStringUtf8, DataType::Utf8)
}

#[test]
fn test_type_convert_date() -> Result<(), RTStoreError> {
    check_type_convert(RtStoreType::KDate, DataType::Date32)
}

#[test]
fn test_schema_convert_complexe() -> Result<(), RTStoreError> {
    let columns = vec![
        RtStoreColumnDesc {
            name: "col1".to_string(),
            ctype: RtStoreType::KDecimal.to_i32(),
            null_allowed: true,
        },
        RtStoreColumnDesc {
            name: "col2".to_string(),
            ctype: RtStoreType::KTimestampSecond.to_i32(),
            null_allowed: true,
        },
        RtStoreColumnDesc {
            name: "col3".to_string(),
            ctype: RtStoreType::KTimestampMillsSecond.to_i32(),
            null_allowed: true,
        },
        RtStoreColumnDesc {
            name: "col4".to_string(),
            ctype: RtStoreType::KTimestampMicroSecond.to_i32(),
            null_allowed: true,
        },
    ];
    let schema = RtStoreSchemaDesc { columns, version: 1 };
    let schema_ref = table_desc_to_arrow_schema(&schema)?;
    assert_eq!(4, schema_ref.fields().len());
    match (
        schema_ref.fields()[0].data_type(),
        schema_ref.fields()[1].data_type(),
        schema_ref.fields()[2].data_type(),
        schema_ref.fields()[3].data_type(),
    ) {
        (
            DataType::Decimal(_, _),
            DataType::Timestamp(tu1),
            DataType::Timestamp(tu2),
            DataType::Timestamp(tu3),
        ) => {
            assert_eq!(tu1, TimeUnit::Second);
            assert_eq!(tu2, TimeUnit::Millisecond);
            assert_eq!(tu3, TimeUnit::Microsecond);
        }
        _ => {
            panic!("should not be here");
        }
    }
    Ok(())
}

#[test]
fn test_unknown_type_code_is_fatal() {
    let columns = vec![
        RtStoreColumnDesc {
            name: "ok_before".to_string(),
            ctype: RtStoreType::KInt.to_i32(),
            null_allowed: true,
        },
        RtStoreColumnDesc {
            name: "bad".to_string(),
            ctype: 99,
            null_allowed: true,
        },
        RtStoreColumnDesc {
            name: "ok_after".to_string(),
            ctype: RtStoreType::KBool.to_i32(),
            null_allowed: false,
        },
    ];
    let schema = RtStoreSchemaDesc { columns, version: 1 };
    match table_desc_to_arrow_schema(&schema) {
        Err(RTStoreError::TableSchemaConvertError(code)) => {
            assert_eq!(99, code);
        }
        _ => panic!("an unrecognized type code must fail the whole mapping"),
    }
}

#[test]
fn test_mapping_preserves_name_nullable_and_order() -> Result<(), RTStoreError> {
    let columns = vec![
        RtStoreColumnDesc {
            name: "a".to_string(),
            ctype: RtStoreType::KInt.to_i32(),
            null_allowed: false,
        },
        RtStoreColumnDesc {
            name: "b".to_string(),
            ctype: RtStoreType::KStringUtf8.to_i32(),
            null_allowed: true,
        },
    ];
    let schema = RtStoreSchemaDesc { columns, version: 3 };
    let mapped = table_desc_to_arrow_schema(&schema)?;
    assert_eq!(2, mapped.fields().len());
    assert_eq!("a", mapped.fields()[0].name());
    assert_eq!(DataType::Int32, mapped.fields()[0].data_type());
    assert!(!mapped.fields()[0].is_nullable());
    assert_eq!("b", mapped.fields()[1].name());
    assert_eq!(DataType::Utf8, mapped.fields()[1].data_type());
    assert!(mapped.fields()[1].is_nullable());
    Ok(())
}

#[test]
fn test_mapping_is_deterministic() -> Result<(), RTStoreError> {
    let make = || RtStoreSchemaDesc {
        columns: vec![
            RtStoreColumnDesc {
                name: "x".to_string(),
                ctype: RtStoreType::KDecimal.to_i32(),
                null_allowed: true,
            },
            RtStoreColumnDesc {
                name: "y".to_string(),
                ctype: RtStoreType::KDate.to_i32(),
                null_allowed: false,
            },
        ],
        version: 1,
    };
    let m1 = table_desc_to_arrow_schema(&make())?;
    let m2 = table_desc_to_arrow_schema(&make())?;
    assert_eq!(m1.fields().len(), m2.fields().len());
    for i in 0..m1.fields().len() {
        assert_eq!(m1.fields()[i].name(), m2.fields()[i].name());
        assert_eq!(m1.fields()[i].data_type(), m2.fields()[i].data_type());
        assert_eq!(m1.fields()[i].is_nullable(), m2.fields()[i].is_nullable());
    }
    Ok(())
}
