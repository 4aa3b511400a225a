use vstd::prelude::*;

use crate::columnar::{flat_rows, rows_full, RecordBatch};
use crate::error::{RTStoreError, RTStoreErrorV};
use crate::row_codec::{Data, DataV, RowRecordBatch, RowRecordBatchV};
use crate::schema::{DataType, Field, FieldV, Schema};

verus! {

/// The schema of the describe view: one utf8, non-nullable field per
/// displayed attribute of a column.
pub open spec fn describe_schema() -> Seq<FieldV> {
    seq![
        FieldV { name: "Field"@, data_type: DataType::Utf8, nullable: false },
        FieldV { name: "Type"@, data_type: DataType::Utf8, nullable: false },
        FieldV { name: "Null"@, data_type: DataType::Utf8, nullable: false },
        FieldV { name: "Key"@, data_type: DataType::Utf8, nullable: false },
        FieldV { name: "Default"@, data_type: DataType::Utf8, nullable: false },
        FieldV { name: "Extra"@, data_type: DataType::Utf8, nullable: false },
    ]
}

/// The SQL name a physical type is displayed under in the describe view.
pub open spec fn sql_type_name(dt: DataType) -> Seq<char> {
    match dt {
        DataType::Utf8 => "varchar(255)"@,
        DataType::Int8 => "tinyint"@,
        DataType::Int16 => "smallint"@,
        DataType::Int32 => "int"@,
        DataType::Int64 => "bigint"@,
        DataType::Float32 => "float"@,
        DataType::Float64 => "double"@,
        DataType::Date32 => "date"@,
        DataType::Timestamp(_) => "timestamp"@,
        _ => "unknown"@,
    }
}

/// Executable twin of [`sql_type_name`].
fn sql_type_name_str(dt: DataType) -> (r: &'static str)
    ensures
        r@ == sql_type_name(dt),
{
    match dt {
        DataType::Utf8 => "varchar(255)",
        DataType::Int8 => "tinyint",
        DataType::Int16 => "smallint",
        DataType::Int32 => "int",
        DataType::Int64 => "bigint",
        DataType::Float32 => "float",
        DataType::Float64 => "double",
        DataType::Date32 => "date",
        DataType::Timestamp(_) => "timestamp",
        _ => "unknown",
    }
}

/// The describe-view row a field is displayed as.
pub open spec fn describe_row(f: FieldV) -> Seq<DataV> {
    seq![
        DataV::Varchar(f.name),
        DataV::Varchar(sql_type_name(f.data_type)),
        DataV::Varchar("YES"@),
        DataV::Varchar(""@),
        DataV::Varchar(""@),
        DataV::Varchar(""@),
    ]
}

fn make_describe_schema() -> (s: Schema)
    ensures
        s@ == describe_schema(),
{
    let mut fields: Vec<Field> = Vec::new();
    fields.push(Field::new(String::from_str("Field"), DataType::Utf8, false));
    fields.push(Field::new(String::from_str("Type"), DataType::Utf8, false));
    fields.push(Field::new(String::from_str("Null"), DataType::Utf8, false));
    fields.push(Field::new(String::from_str("Key"), DataType::Utf8, false));
    fields.push(Field::new(String::from_str("Default"), DataType::Utf8, false));
    fields.push(Field::new(String::from_str("Extra"), DataType::Utf8, false));
    let s = Schema::new(fields);
    proof {
        assert(s@ =~= describe_schema());
    }
    s
}

/// Derives the describe view of a physical schema: one row per field with
/// `{name, sql type name, "YES", "", "", ""}`, fed through the row-batch
/// accumulator against the fixed six-column output schema. Fails exactly
/// when the schema has no fields, since the accumulator then materializes no
/// columns.
pub fn schema_to_recordbatch(schema: &Schema) -> (r: Result<RecordBatch, RTStoreError>)
    ensures
        schema@.len() > 0 ==> (r matches Ok(b) && {
            &&& b@.schema == describe_schema()
            &&& b@.row_count == schema@.len()
            &&& b@.columns.len() == 6
            &&& forall|j: int|
                0 <= j < 6 ==> (#[trigger] b@.columns[j]).cells.len() == schema@.len()
            &&& forall|i: int, j: int|
                0 <= i < schema@.len() && 0 <= j < 6 ==> #[trigger] b@.columns[j].cells[i]
                    == describe_row(schema@[i])[j]
        }),
        schema@.len() == 0 ==> (r matches Err(e) && e@ == RTStoreErrorV::EncodingError(
            "number of columns must match number of schema fields"@,
        )),
{
    let output_schema = make_describe_schema();
    let n = schema.fields.len();
    let mut rows: Vec<Vec<Data>> = Vec::new();
    let mut i: usize = 0;
    while i < n
        invariant
            i <= n,
            rows@.len() == i,
            forall|i2: int|
                0 <= i2 < i ==> (#[trigger] rows@[i2])@.map_values(|d: Data| d@) == describe_row(
                    schema@[i2],
                ),
        decreases n - i,
    {
        let f = &schema.fields[i];
        let mut row: Vec<Data> = Vec::new();
        row.push(Data::Varchar(f.name.clone()));
        row.push(Data::Varchar(String::from_str(sql_type_name_str(f.data_type))));
        row.push(Data::Varchar(String::from_str("YES")));
        row.push(Data::Varchar(String::from_str("")));
        row.push(Data::Varchar(String::from_str("")));
        row.push(Data::Varchar(String::from_str("")));
        proof {
            assert(row@.map_values(|d: Data| d@) =~= describe_row(schema@[i as int]));
        }
        rows.push(row);
        i += 1;
    }
    let data = vec![RowRecordBatch { batch: rows, schema_version: 0 }];
    let ghost bsv = data@.map_values(|rb: RowRecordBatch| rb@);
    let ghost rowsv = Seq::new(schema@.len(), |i2: int| describe_row(schema@[i2]));
    proof {
        assert(bsv.len() == 1);
        assert(bsv[0].rows =~= rowsv);
        assert(bsv.drop_first() =~= Seq::<RowRecordBatchV>::empty());
        assert(flat_rows(bsv) == bsv[0].rows + flat_rows(Seq::<RowRecordBatchV>::empty()));
        assert(flat_rows(bsv) =~= rowsv);
        assert forall|b: int, r: int|
            0 <= b < bsv.len() && 0 <= r < bsv[b].rows.len() implies (#[trigger] bsv[b].rows[r]).len()
            == output_schema@.len() by {
            assert(bsv[b].rows[r] == rowsv[r]);
        }
        assert(rows_full(output_schema@, bsv));
    }
    let r = crate::columnar::rows_to_columns(&output_schema, &data);
    proof {
        let fields = output_schema@;
        assert(!crate::columnar::has_mismatch(fields, rowsv)) by {
            assert forall|r2: int, c2: int| !crate::columnar::mismatch_at(
                fields,
                rowsv,
                r2,
                c2,
            ) by {
                if 0 <= r2 < rowsv.len() && 0 <= c2 < fields.len() {
                    assert(rowsv[r2] == describe_row(schema@[r2]));
                    assert(crate::columnar::cell_ok(fields, rowsv[r2], c2));
                }
            }
        }
        assert(crate::columnar::all_supported(fields)) by {
            assert forall|c: int|
                0 <= c < fields.len() implies crate::columnar::builder_kind_of(
                #[trigger] fields[c].data_type,
            ) is Some by {
                assert(fields[c].data_type == DataType::Utf8);
            }
        }
        if schema@.len() == 0 {
            assert(rowsv.len() == 0);
            assert(crate::columnar::count_built(fields, 0) == 0);
        } else {
            assert(rowsv.len() > 0);
            match &r {
                Ok(b) => {
                    assert forall|i2: int, j: int|
                        0 <= i2 < schema@.len() && 0 <= j < 6 implies #[trigger] b@.columns[j].cells[i2]
                        == describe_row(schema@[i2])[j] by {
                        assert(b@.columns[j].cells == crate::columnar::column_cells(rowsv, j));
                        assert(crate::columnar::column_cells(rowsv, j)[i2] == rowsv[i2][j]);
                    }
                },
                Err(_) => {},
            }
        }
    }
    r
}

/// The schema of the DDL view: the table's name and its creation statement.
pub open spec fn ddl_schema() -> Seq<FieldV> {
    seq![
        FieldV { name: "Table"@, data_type: DataType::Utf8, nullable: false },
        FieldV { name: "Create Table"@, data_type: DataType::Utf8, nullable: false },
    ]
}

/// The SQL type a physical type is rendered as inside a DDL statement, or
/// `None` for the physical types with no direct SQL rendering (those fields
/// are skipped and do not appear in the DDL text — a deliberate fidelity gap
/// of the view, not an error).
pub open spec fn ddl_type_name(dt: DataType) -> Option<Seq<char>> {
    match dt {
        DataType::Int8 => Some("tinyint"@),
        DataType::Int16 => Some("smallint"@),
        DataType::Int32 => Some("int"@),
        DataType::Int64 => Some("bigint"@),
        DataType::Float32 => Some("float"@),
        DataType::Float64 => Some("double"@),
        DataType::Utf8 => Some("varchar(255)"@),
        DataType::Date32 => Some("date"@),
        DataType::Timestamp(_) => Some("timestamp"@),
        _ => None,
    }
}

/// Executable twin of [`ddl_type_name`].
fn ddl_type_name_str(dt: DataType) -> (r: Option<&'static str>)
    ensures
        ddl_type_name(dt) matches Some(t) ==> r matches Some(s) && s@ == t,
        ddl_type_name(dt) is None ==> r is None,
{
    match dt {
        DataType::Int8 => Some("tinyint"),
        DataType::Int16 => Some("smallint"),
        DataType::Int32 => Some("int"),
        DataType::Int64 => Some("bigint"),
        DataType::Float32 => Some("float"),
        DataType::Float64 => Some("double"),
        DataType::Utf8 => Some("varchar(255)"),
        DataType::Date32 => Some("date"),
        DataType::Timestamp(_) => Some("timestamp"),
        _ => None,
    }
}

/// The comma-joined `name type` fragments of the renderable fields; `any` is
/// whether a fragment was already written before this point.
pub open spec fn ddl_body(fields: Seq<FieldV>, any: bool) -> Seq<char>
    decreases fields.len(),
{
    if fields.len() == 0 {
        Seq::empty()
    } else {
        match ddl_type_name(fields.first().data_type) {
            Some(t) => (if any {
                ","@
            } else {
                Seq::<char>::empty()
            }) + fields.first().name + " "@ + t + ddl_body(fields.drop_first(), true),
            None => ddl_body(fields.drop_first(), any),
        }
    }
}

/// The full DDL text of a table: `create table`, the backtick-quoted name,
/// and the parenthesized fragment list.
pub open spec fn ddl_text(name: Seq<char>, fields: Seq<FieldV>) -> Seq<char> {
    "create table `"@ + name + "` ("@ + ddl_body(fields, false) + ")"@
}

/// Derives the DDL view of a physical schema: a single row holding the table
/// name and its creation statement, fed through the row-batch accumulator
/// against the fixed two-column output schema. Total: every schema yields a
/// batch.
pub fn schema_to_ddl_recordbatch(name: &str, schema: &Schema) -> (r: Result<
    RecordBatch,
    RTStoreError,
>)
    ensures
        r matches Ok(b),
        r matches Ok(b) ==> ({
            &&& b@.schema == ddl_schema()
            &&& b@.row_count == 1
            &&& b@.columns.len() == 2
            &&& b@.columns[0].cells =~= seq![DataV::Varchar(name@)]
            &&& b@.columns[1].cells =~= seq![DataV::Varchar(ddl_text(name@, schema@))]
        }),
{
    let mut output_fields: Vec<Field> = Vec::new();
    output_fields.push(Field::new(String::from_str("Table"), DataType::Utf8, false));
    output_fields.push(Field::new(String::from_str("Create Table"), DataType::Utf8, false));
    let output_schema = Schema::new(output_fields);
    proof {
        assert(output_schema@ =~= ddl_schema());
    }
    let n = schema.fields.len();
    let mut ddl = String::from_str("create table `");
    ddl.append(name);
    ddl.append("` (");
    let ghost header = "create table `"@ + name@ + "` ("@;
    let mut any = false;
    let ghost mut built: Seq<char> = Seq::empty();
    proof {
        assert(ddl@ =~= header + built);
        assert(schema@.skip(0) =~= schema@);
        assert(built + ddl_body(schema@, false) =~= ddl_body(schema@, false));
    }
    let mut i: usize = 0;
    while i < n
        invariant
            i <= n,
            ddl@ == header + built,
            ddl_body(schema@, false) == built + ddl_body(schema@.skip(i as int), any),
        decreases n - i,
    {
        let f = &schema.fields[i];
        let ghost tail = schema@.skip(i as int);
        proof {
            assert(tail.first() == schema@[i as int]);
            assert(tail.drop_first() =~= schema@.skip(i as int + 1));
        }
        match ddl_type_name_str(f.data_type) {
            Some(t) => {
                let ghost tname = ddl_type_name(schema@[i as int].data_type)->0;
                let ghost sep: Seq<char> = if any { ","@ } else { Seq::empty() };
                if any {
                    ddl.append(",");
                } else {
                    proof {
                        assert(ddl@ + sep =~= ddl@);
                    }
                }
                ddl.append(f.name.as_str());
                ddl.append(" ");
                ddl.append(t);
                proof {
                    let frag = sep + schema@[i as int].name + " "@ + tname;
                    assert(ddl@ =~= header + (built + frag));
                    assert(ddl_body(tail, any) == frag + ddl_body(
                        schema@.skip(i as int + 1),
                        true,
                    )) by {
                        assert(sep + tail.first().name + " "@ + tname + ddl_body(
                            tail.drop_first(),
                            true,
                        ) =~= frag + ddl_body(schema@.skip(i as int + 1), true));
                    }
                    assert(built + ddl_body(tail, any) =~= (built + frag) + ddl_body(
                        schema@.skip(i as int + 1),
                        true,
                    ));
                    built = built + frag;
                }
                any = true;
            },
            None => {
                proof {
                    assert(ddl_body(tail, any) == ddl_body(schema@.skip(i as int + 1), any));
                }
            },
        }
        i += 1;
    }
    proof {
        assert(schema@.skip(n as int) =~= Seq::<FieldV>::empty());
        assert(ddl_body(schema@.skip(n as int), any) =~= Seq::<char>::empty());
        assert(built + Seq::<char>::empty() =~= built);
        assert(built == ddl_body(schema@, false));
    }
    ddl.append(")");
    proof {
        assert(ddl@ =~= ddl_text(name@, schema@));
    }
    let mut row: Vec<Data> = Vec::new();
    row.push(Data::Varchar(String::from_str(name)));
    row.push(Data::Varchar(ddl));
    let ghost roww = row@.map_values(|d: Data| d@);
    proof {
        assert(roww =~= seq![DataV::Varchar(name@), DataV::Varchar(ddl_text(name@, schema@))]);
    }
    let batch = vec![row];
    let data = vec![RowRecordBatch { batch, schema_version: 0 }];
    let ghost bsv = data@.map_values(|rb: RowRecordBatch| rb@);
    let ghost rowsv = seq![roww];
    proof {
        assert(bsv.len() == 1);
        assert(bsv[0].rows =~= rowsv);
        assert(bsv.drop_first() =~= Seq::<RowRecordBatchV>::empty());
        assert(flat_rows(bsv) == bsv[0].rows + flat_rows(Seq::<RowRecordBatchV>::empty()));
        assert(flat_rows(bsv) =~= rowsv);
        assert(rows_full(output_schema@, bsv));
    }
    let r = crate::columnar::rows_to_columns(&output_schema, &data);
    proof {
        let fields = output_schema@;
        assert(!crate::columnar::has_mismatch(fields, rowsv)) by {
            assert forall|r2: int, c2: int| !crate::columnar::mismatch_at(
                fields,
                rowsv,
                r2,
                c2,
            ) by {
                if 0 <= r2 < rowsv.len() && 0 <= c2 < fields.len() {
                    assert(crate::columnar::cell_ok(fields, rowsv[r2], c2));
                }
            }
        }
        assert(crate::columnar::all_supported(fields)) by {
            assert forall|c: int|
                0 <= c < fields.len() implies crate::columnar::builder_kind_of(
                #[trigger] fields[c].data_type,
            ) is Some by {
                assert(fields[c].data_type == DataType::Utf8);
            }
        }
        match &r {
            Ok(b) => {
                assert(b@.columns[0].cells =~= seq![DataV::Varchar(name@)]) by {
                    assert(b@.columns[0].cells == crate::columnar::column_cells(rowsv, 0));
                    assert(crate::columnar::column_cells(rowsv, 0)[0] == roww[0]);
                    assert(crate::columnar::column_cells(rowsv, 0).len() == 1);
                }
                assert(b@.columns[1].cells =~= seq![
                    DataV::Varchar(ddl_text(name@, schema@)),
                ]) by {
                    assert(b@.columns[1].cells == crate::columnar::column_cells(rowsv, 1));
                    assert(crate::columnar::column_cells(rowsv, 1)[0] == roww[1]);
                    assert(crate::columnar::column_cells(rowsv, 1).len() == 1);
                }
            },
            Err(_) => {},
        }
    }
    r
}

} // verus!
