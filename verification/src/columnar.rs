use vstd::prelude::*;

use crate::error::{RTStoreError, RTStoreErrorV};
use crate::row_codec::{data_kind, kind_label, CellKind, Data, DataV};
use crate::schema::{DataType, FieldV, Schema};

verus! {

// The two dispatch tables below — physical type to builder tag here, cell
// tag to builder variant in `ColumnBuilder::append` — must stay in lockstep
// with the schema mapper's type table: together they are the central
// invariant of the conversion engine.

/// The builder tag a physical type is accumulated under, or `None` for the
/// physical types the accumulator has no builder for (those columns are
/// silently skipped during per-cell dispatch, a deliberate permissive
/// fallback for schema evolution).
pub open spec fn builder_kind_of(dt: DataType) -> Option<CellKind> {
    match dt {
        DataType::Boolean => Some(CellKind::Bool),
        DataType::Int8 => Some(CellKind::Int8),
        DataType::Int16 => Some(CellKind::Int16),
        DataType::Int32 => Some(CellKind::Int32),
        DataType::Int64 => Some(CellKind::Int64),
        DataType::UInt8 => Some(CellKind::UInt8),
        DataType::UInt16 => Some(CellKind::UInt16),
        DataType::UInt32 => None,
        DataType::UInt64 => Some(CellKind::UInt64),
        DataType::Float32 => None,
        DataType::Float64 => None,
        DataType::Decimal(_, _) => None,
        DataType::Date32 => Some(CellKind::Date),
        DataType::Timestamp(_) => Some(CellKind::Timestamp),
        DataType::Utf8 => Some(CellKind::Varchar),
    }
}

/// Executable twin of [`builder_kind_of`].
pub fn expected_cell_kind(dt: DataType) -> (r: Option<CellKind>)
    ensures
        r == builder_kind_of(dt),
{
    match dt {
        DataType::Boolean => Some(CellKind::Bool),
        DataType::Int8 => Some(CellKind::Int8),
        DataType::Int16 => Some(CellKind::Int16),
        DataType::Int32 => Some(CellKind::Int32),
        DataType::Int64 => Some(CellKind::Int64),
        DataType::UInt8 => Some(CellKind::UInt8),
        DataType::UInt16 => Some(CellKind::UInt16),
        DataType::UInt32 => None,
        DataType::UInt64 => Some(CellKind::UInt64),
        DataType::Float32 => None,
        DataType::Float64 => None,
        DataType::Decimal(_, _) => None,
        DataType::Date32 => Some(CellKind::Date),
        DataType::Timestamp(_) => Some(CellKind::Timestamp),
        DataType::Utf8 => Some(CellKind::Varchar),
    }
}

/// A transient, per-column, type-specialized accumulator. Exactly one
/// variant is live per column index; it is created on the first value seen
/// for that index and never re-typed afterwards.
pub enum ColumnBuilder {
    Bool(Vec<bool>),
    Int8(Vec<i8>),
    UInt8(Vec<u8>),
    Int16(Vec<i16>),
    UInt16(Vec<u16>),
    Int32(Vec<i32>),
    Int64(Vec<i64>),
    UInt64(Vec<u64>),
    Str(Vec<String>),
    Date(Vec<i32>),
    TimestampMills(Vec<i64>),
}

impl View for ColumnBuilder {
    type V = Seq<DataV>;

    open spec fn view(&self) -> Seq<DataV> {
        match self {
            ColumnBuilder::Bool(v) => v@.map_values(|x: bool| DataV::Bool(x)),
            ColumnBuilder::Int8(v) => v@.map_values(|x: i8| DataV::Int8(x)),
            ColumnBuilder::UInt8(v) => v@.map_values(|x: u8| DataV::UInt8(x)),
            ColumnBuilder::Int16(v) => v@.map_values(|x: i16| DataV::Int16(x)),
            ColumnBuilder::UInt16(v) => v@.map_values(|x: u16| DataV::UInt16(x)),
            ColumnBuilder::Int32(v) => v@.map_values(|x: i32| DataV::Int32(x)),
            ColumnBuilder::Int64(v) => v@.map_values(|x: i64| DataV::Int64(x)),
            ColumnBuilder::UInt64(v) => v@.map_values(|x: u64| DataV::UInt64(x)),
            ColumnBuilder::Str(v) => v@.map_values(|x: String| DataV::Varchar(x@)),
            ColumnBuilder::Date(v) => v@.map_values(|x: i32| DataV::Date(x)),
            ColumnBuilder::TimestampMills(v) => v@.map_values(|x: i64| DataV::Timestamp(x)),
        }
    }
}

/// The error raised when a cell of tag `actual` meets a builder of tag
/// `expected`.
pub open spec fn mismatch_error(expected: CellKind, actual: CellKind) -> RTStoreErrorV {
    RTStoreErrorV::TableTypeMismatchError { left: kind_label(expected), right: kind_label(actual) }
}

impl ColumnBuilder {
    /// The tag of the cells this builder accepts.
    pub open spec fn kind(&self) -> CellKind {
        match self {
            ColumnBuilder::Bool(_) => CellKind::Bool,
            ColumnBuilder::Int8(_) => CellKind::Int8,
            ColumnBuilder::UInt8(_) => CellKind::UInt8,
            ColumnBuilder::Int16(_) => CellKind::Int16,
            ColumnBuilder::UInt16(_) => CellKind::UInt16,
            ColumnBuilder::Int32(_) => CellKind::Int32,
            ColumnBuilder::Int64(_) => CellKind::Int64,
            ColumnBuilder::UInt64(_) => CellKind::UInt64,
            ColumnBuilder::Str(_) => CellKind::Varchar,
            ColumnBuilder::Date(_) => CellKind::Date,
            ColumnBuilder::TimestampMills(_) => CellKind::Timestamp,
        }
    }

    /// An empty builder for a physical type, or `None` where the type is
    /// outside the supported set.
    pub fn try_new(dt: DataType) -> (r: Option<ColumnBuilder>)
        ensures
            builder_kind_of(dt) matches Some(k) ==> r matches Some(b) && b.kind() == k && b@
                == Seq::<DataV>::empty(),
            builder_kind_of(dt) is None ==> r is None,
    {
        let r = match dt {
            DataType::Boolean => Some(ColumnBuilder::Bool(Vec::new())),
            DataType::Int8 => Some(ColumnBuilder::Int8(Vec::new())),
            DataType::Int16 => Some(ColumnBuilder::Int16(Vec::new())),
            DataType::Int32 => Some(ColumnBuilder::Int32(Vec::new())),
            DataType::Int64 => Some(ColumnBuilder::Int64(Vec::new())),
            DataType::UInt8 => Some(ColumnBuilder::UInt8(Vec::new())),
            DataType::UInt16 => Some(ColumnBuilder::UInt16(Vec::new())),
            DataType::UInt32 => None,
            DataType::UInt64 => Some(ColumnBuilder::UInt64(Vec::new())),
            DataType::Float32 => None,
            DataType::Float64 => None,
            DataType::Decimal(_, _) => None,
            DataType::Date32 => Some(ColumnBuilder::Date(Vec::new())),
            DataType::Timestamp(_) => Some(ColumnBuilder::TimestampMills(Vec::new())),
            DataType::Utf8 => Some(ColumnBuilder::Str(Vec::new())),
        };
        proof {
            if builder_kind_of(dt) is Some {
                assert(r->0@ =~= Seq::<DataV>::empty());
            }
        }
        r
    }

    /// The label of the tag this builder accepts, as reported in
    /// type-mismatch errors.
    pub fn type_label(&self) -> (r: &'static str)
        ensures
            r@ == kind_label(self.kind()),
    {
        match self {
            ColumnBuilder::Bool(_) => "boolean",
            ColumnBuilder::Int8(_) => "int8",
            ColumnBuilder::UInt8(_) => "uint8",
            ColumnBuilder::Int16(_) => "int16",
            ColumnBuilder::UInt16(_) => "uint16",
            ColumnBuilder::Int32(_) => "int32",
            ColumnBuilder::Int64(_) => "int64",
            ColumnBuilder::UInt64(_) => "uint64",
            ColumnBuilder::Str(_) => "utf8",
            ColumnBuilder::Date(_) => "date",
            ColumnBuilder::TimestampMills(_) => "timestamp",
        }
    }

    /// Appends one cell. The cell's tag must match this builder's tag
    /// exactly; a disagreement fails with the type-mismatch error and leaves
    /// the builder unchanged — there is no coercion and no null-on-mismatch.
    pub fn append(&mut self, column: &Data) -> (r: Result<(), RTStoreError>)
        ensures
            data_kind(column@) == old(self).kind() ==> {
                &&& r is Ok
                &&& final(self).kind() == old(self).kind()
                &&& final(self)@ == old(self)@.push(column@)
            },
            data_kind(column@) != old(self).kind() ==> {
                &&& *final(self) == *old(self)
                &&& r matches Err(e) && e@ == mismatch_error(old(self).kind(), data_kind(column@))
            },
    {
        match (&mut *self, column) {
            (ColumnBuilder::Bool(values), Data::Bool(v)) => {
                values.push(*v);
                assert(self@ =~= old(self)@.push(column@));
                return Ok(());
            },
            (ColumnBuilder::Int8(values), Data::Int8(v)) => {
                values.push(*v);
                assert(self@ =~= old(self)@.push(column@));
                return Ok(());
            },
            (ColumnBuilder::UInt8(values), Data::UInt8(v)) => {
                values.push(*v);
                assert(self@ =~= old(self)@.push(column@));
                return Ok(());
            },
            (ColumnBuilder::Int16(values), Data::Int16(v)) => {
                values.push(*v);
                assert(self@ =~= old(self)@.push(column@));
                return Ok(());
            },
            (ColumnBuilder::UInt16(values), Data::UInt16(v)) => {
                values.push(*v);
                assert(self@ =~= old(self)@.push(column@));
                return Ok(());
            },
            (ColumnBuilder::Int32(values), Data::Int32(v)) => {
                values.push(*v);
                assert(self@ =~= old(self)@.push(column@));
                return Ok(());
            },
            (ColumnBuilder::Int64(values), Data::Int64(v)) => {
                values.push(*v);
                assert(self@ =~= old(self)@.push(column@));
                return Ok(());
            },
            (ColumnBuilder::UInt64(values), Data::UInt64(v)) => {
                values.push(*v);
                assert(self@ =~= old(self)@.push(column@));
                return Ok(());
            },
            (ColumnBuilder::Str(values), Data::Varchar(s)) => {
                values.push(s.clone());
                assert(self@ =~= old(self)@.push(column@));
                return Ok(());
            },
            (ColumnBuilder::Date(values), Data::Date(v)) => {
                values.push(*v);
                assert(self@ =~= old(self)@.push(column@));
                return Ok(());
            },
            (ColumnBuilder::TimestampMills(values), Data::Timestamp(v)) => {
                values.push(*v);
                assert(self@ =~= old(self)@.push(column@));
                return Ok(());
            },
            _ => {},
        }
        let left = self.type_label();
        let right = column.name();
        Err(
            RTStoreError::TableTypeMismatchError {
                left: String::from_str(left),
                right: String::from_str(right),
            },
        )
    }

    /// Finalizes the builder into an immutable column array holding exactly
    /// the appended cells, in append order.
    pub fn finish(self) -> (c: ColumnArray)
        ensures
            c@.kind == self.kind(),
            c@.cells == self@,
    {
        match self {
            ColumnBuilder::Bool(v) => ColumnArray::Bool(v),
            ColumnBuilder::Int8(v) => ColumnArray::Int8(v),
            ColumnBuilder::UInt8(v) => ColumnArray::UInt8(v),
            ColumnBuilder::Int16(v) => ColumnArray::Int16(v),
            ColumnBuilder::UInt16(v) => ColumnArray::UInt16(v),
            ColumnBuilder::Int32(v) => ColumnArray::Int32(v),
            ColumnBuilder::Int64(v) => ColumnArray::Int64(v),
            ColumnBuilder::UInt64(v) => ColumnArray::UInt64(v),
            ColumnBuilder::Str(v) => ColumnArray::Str(v),
            ColumnBuilder::Date(v) => ColumnArray::Date(v),
            ColumnBuilder::TimestampMills(v) => ColumnArray::TimestampMills(v),
        }
    }
}

/// Mathematical value of a [`ColumnArray`]: its tag and its cells in order.
#[verifier::ext_equal]
pub struct ColumnArrayV {
    pub kind: CellKind,
    pub cells: Seq<DataV>,
}

/// An immutable column array: the finalized form of one column builder.
#[derive(Debug)]
pub enum ColumnArray {
    Bool(Vec<bool>),
    Int8(Vec<i8>),
    UInt8(Vec<u8>),
    Int16(Vec<i16>),
    UInt16(Vec<u16>),
    Int32(Vec<i32>),
    Int64(Vec<i64>),
    UInt64(Vec<u64>),
    Str(Vec<String>),
    Date(Vec<i32>),
    TimestampMills(Vec<i64>),
}

impl View for ColumnArray {
    type V = ColumnArrayV;

    open spec fn view(&self) -> ColumnArrayV {
        match self {
            ColumnArray::Bool(v) => ColumnArrayV {
                kind: CellKind::Bool,
                cells: v@.map_values(|x: bool| DataV::Bool(x)),
            },
            ColumnArray::Int8(v) => ColumnArrayV {
                kind: CellKind::Int8,
                cells: v@.map_values(|x: i8| DataV::Int8(x)),
            },
            ColumnArray::UInt8(v) => ColumnArrayV {
                kind: CellKind::UInt8,
                cells: v@.map_values(|x: u8| DataV::UInt8(x)),
            },
            ColumnArray::Int16(v) => ColumnArrayV {
                kind: CellKind::Int16,
                cells: v@.map_values(|x: i16| DataV::Int16(x)),
            },
            ColumnArray::UInt16(v) => ColumnArrayV {
                kind: CellKind::UInt16,
                cells: v@.map_values(|x: u16| DataV::UInt16(x)),
            },
            ColumnArray::Int32(v) => ColumnArrayV {
                kind: CellKind::Int32,
                cells: v@.map_values(|x: i32| DataV::Int32(x)),
            },
            ColumnArray::Int64(v) => ColumnArrayV {
                kind: CellKind::Int64,
                cells: v@.map_values(|x: i64| DataV::Int64(x)),
            },
            ColumnArray::UInt64(v) => ColumnArrayV {
                kind: CellKind::UInt64,
                cells: v@.map_values(|x: u64| DataV::UInt64(x)),
            },
            ColumnArray::Str(v) => ColumnArrayV {
                kind: CellKind::Varchar,
                cells: v@.map_values(|x: String| DataV::Varchar(x@)),
            },
            ColumnArray::Date(v) => ColumnArrayV {
                kind: CellKind::Date,
                cells: v@.map_values(|x: i32| DataV::Date(x)),
            },
            ColumnArray::TimestampMills(v) => ColumnArrayV {
                kind: CellKind::Timestamp,
                cells: v@.map_values(|x: i64| DataV::Timestamp(x)),
            },
        }
    }
}

impl ColumnArray {
    /// The number of cells in the array.
    pub fn len(&self) -> (r: usize)
        ensures
            r == self@.cells.len(),
    {
        match self {
            ColumnArray::Bool(v) => v.len(),
            ColumnArray::Int8(v) => v.len(),
            ColumnArray::UInt8(v) => v.len(),
            ColumnArray::Int16(v) => v.len(),
            ColumnArray::UInt16(v) => v.len(),
            ColumnArray::Int32(v) => v.len(),
            ColumnArray::Int64(v) => v.len(),
            ColumnArray::UInt64(v) => v.len(),
            ColumnArray::Str(v) => v.len(),
            ColumnArray::Date(v) => v.len(),
            ColumnArray::TimestampMills(v) => v.len(),
        }
    }

    /// The tag of the array's cells.
    pub fn cell_kind(&self) -> (r: CellKind)
        ensures
            r == self@.kind,
    {
        match self {
            ColumnArray::Bool(_) => CellKind::Bool,
            ColumnArray::Int8(_) => CellKind::Int8,
            ColumnArray::UInt8(_) => CellKind::UInt8,
            ColumnArray::Int16(_) => CellKind::Int16,
            ColumnArray::UInt16(_) => CellKind::UInt16,
            ColumnArray::Int32(_) => CellKind::Int32,
            ColumnArray::Int64(_) => CellKind::Int64,
            ColumnArray::UInt64(_) => CellKind::UInt64,
            ColumnArray::Str(_) => CellKind::Varchar,
            ColumnArray::Date(_) => CellKind::Date,
            ColumnArray::TimestampMills(_) => CellKind::Timestamp,
        }
    }

    /// The cell at a row index, extracted as a tagged value. Extraction is
    /// total on in-bounds indices: a columnar batch's arrays all carry
    /// exactly `row_count` cells.
    pub fn value_at(&self, i: usize) -> (d: Data)
        requires
            i < self@.cells.len(),
        ensures
            d@ == self@.cells[i as int],
    {
        match self {
            ColumnArray::Bool(v) => Data::Bool(v[i]),
            ColumnArray::Int8(v) => Data::Int8(v[i]),
            ColumnArray::UInt8(v) => Data::UInt8(v[i]),
            ColumnArray::Int16(v) => Data::Int16(v[i]),
            ColumnArray::UInt16(v) => Data::UInt16(v[i]),
            ColumnArray::Int32(v) => Data::Int32(v[i]),
            ColumnArray::Int64(v) => Data::Int64(v[i]),
            ColumnArray::UInt64(v) => Data::UInt64(v[i]),
            ColumnArray::Str(v) => Data::Varchar(v[i].clone()),
            ColumnArray::Date(v) => Data::Date(v[i]),
            ColumnArray::TimestampMills(v) => Data::Timestamp(v[i]),
        }
    }
}

/// Mathematical value of a [`RecordBatch`].
#[verifier::ext_equal]
pub struct RecordBatchV {
    pub schema: Seq<FieldV>,
    pub columns: Seq<ColumnArrayV>,
    pub row_count: nat,
}

/// A finalized, immutable, column-major batch bound to a physical schema.
pub struct RecordBatch {
    pub schema: Schema,
    pub columns: Vec<ColumnArray>,
    pub row_count: usize,
}

impl View for RecordBatch {
    type V = RecordBatchV;

    open spec fn view(&self) -> RecordBatchV {
        RecordBatchV {
            schema: self.schema@,
            columns: self.columns@.map_values(|c: ColumnArray| c@),
            row_count: self.row_count as nat,
        }
    }
}

/// Well-formedness of a columnar batch: either nothing was materialized and
/// the batch is empty, or there is one column per schema field and every
/// column holds exactly `row_count` cells.
pub open spec fn batch_wf(b: RecordBatchV) -> bool {
    ||| (b.columns.len() == 0 && b.row_count == 0)
    ||| (b.columns.len() == b.schema.len() && b.columns.len() > 0 && forall|j: int|
        0 <= j < b.columns.len() ==> #[trigger] b.columns[j].cells.len() == b.row_count)
}

impl RecordBatch {
    /// An empty batch bound to a schema: zero rows, no columns materialized.
    pub fn new_empty(schema: Schema) -> (b: RecordBatch)
        ensures
            b@.schema == schema@,
            b@.columns.len() == 0,
            b@.row_count == 0,
            batch_wf(b@),
    {
        let b = RecordBatch { schema, columns: Vec::new(), row_count: 0 };
        proof {
            assert(b@.columns =~= Seq::<ColumnArrayV>::empty());
        }
        b
    }

    /// Assembles a batch from a schema and finished column arrays, checking
    /// that the columns fit the schema: one column per field, at least one
    /// column, tags matching the fields' physical types, and equal lengths.
    pub fn try_new(schema: Schema, columns: Vec<ColumnArray>) -> (r: Result<
        RecordBatch,
        RTStoreError,
    >)
        ensures
            ({
                let flds = schema@;
                let cls = columns@.map_values(|c: ColumnArray| c@);
                if cls.len() != flds.len() {
                    r matches Err(e) && e@ == RTStoreErrorV::EncodingError(
                        "number of columns must match number of schema fields"@,
                    )
                } else if cls.len() == 0 {
                    r matches Err(e) && e@ == RTStoreErrorV::EncodingError(
                        "at least one column must be defined to create a record batch"@,
                    )
                } else if exists|j: int|
                    0 <= j < cls.len() && builder_kind_of(flds[j].data_type) != Some(
                        #[trigger] cls[j].kind,
                    ) {
                    r matches Err(e) && e@ == RTStoreErrorV::EncodingError(
                        "column types must match schema types"@,
                    )
                } else if exists|j: int|
                    0 <= j < cls.len() && #[trigger] cls[j].cells.len() != cls[0].cells.len() {
                    r matches Err(e) && e@ == RTStoreErrorV::EncodingError(
                        "all columns in a record batch must have the same length"@,
                    )
                } else {
                    r matches Ok(b) && b@.schema == flds && b@.columns == cls && b@.row_count
                        == cls[0].cells.len() && batch_wf(b@)
                }
            }),
    {
        let nf = schema.fields.len();
        if columns.len() != nf {
            return Err(
                RTStoreError::EncodingError(
                    String::from_str("number of columns must match number of schema fields"),
                ),
            );
        }
        if columns.len() == 0 {
            return Err(
                RTStoreError::EncodingError(
                    String::from_str("at least one column must be defined to create a record batch"),
                ),
            );
        }
        let ghost cls = columns@.map_values(|c: ColumnArray| c@);
        let mut j: usize = 0;
        while j < nf
            invariant
                j <= nf,
                forall|k: int|
                    0 <= k < j ==> builder_kind_of(schema@[k].data_type) == Some(
                        #[trigger] cls[k].kind,
                    ),
            decreases nf - j,
        {
            let ck = columns[j].cell_kind();
            let ok = match expected_cell_kind(schema.fields[j].data_type) {
                Some(k) => k == ck,
                None => false,
            };
            if !ok {
                proof {
                    assert(cls[j as int] == columns@[j as int]@);
                    assert(builder_kind_of(schema@[j as int].data_type) != Some(cls[j as int].kind));
                }
                return Err(
                    RTStoreError::EncodingError(
                        String::from_str("column types must match schema types"),
                    ),
                );
            }
            j += 1;
        }
        let row_count = columns[0].len();
        let mut j2: usize = 0;
        while j2 < nf
            invariant
                j2 <= nf,
                row_count == cls[0].cells.len(),
                forall|k: int| 0 <= k < j2 ==> #[trigger] cls[k].cells.len() == row_count,
            decreases nf - j2,
        {
            if columns[j2].len() != row_count {
                proof {
                    assert(cls[j2 as int] == columns@[j2 as int]@);
                    assert(cls[j2 as int].cells.len() != cls[0].cells.len());
                }
                return Err(
                    RTStoreError::EncodingError(
                        String::from_str("all columns in a record batch must have the same length"),
                    ),
                );
            }
            j2 += 1;
        }
        let b = RecordBatch { schema, columns, row_count };
        Ok(b)
    }

    /// The number of rows in the batch.
    pub fn num_rows(&self) -> (r: usize)
        ensures
            r == self@.row_count,
    {
        self.row_count
    }

    /// The schema the batch is bound to.
    pub fn schema(&self) -> (r: &Schema)
        ensures
            r@ == self@.schema,
    {
        &self.schema
    }

    /// The batch's column arrays, in schema order.
    pub fn columns(&self) -> (r: &Vec<ColumnArray>)
        ensures
            r@.len() == self@.columns.len(),
            forall|j: int| 0 <= j < r@.len() ==> r@[j]@ == self@.columns[j],
    {
        &self.columns
    }

    /// The column array at a schema position.
    pub fn column(&self, i: usize) -> (r: &ColumnArray)
        requires
            i < self@.columns.len(),
        ensures
            r@ == self@.columns[i as int],
    {
        &self.columns[i]
    }
}

} // verus!

use crate::row_codec::RowRecordBatch;
use crate::row_codec::RowRecordBatchV;

verus! {

/// All rows of a row-batch collection, flattened: collection order, then row
/// order within each batch. This is the order every cell is consumed in.
pub open spec fn flat_rows(bs: Seq<RowRecordBatchV>) -> Seq<Seq<DataV>>
    decreases bs.len(),
{
    if bs.len() == 0 {
        Seq::empty()
    } else {
        bs.first().rows + flat_rows(bs.drop_first())
    }
}

/// Column `c` of a flattened row sequence, in row order.
pub open spec fn column_cells(rows: Seq<Seq<DataV>>, c: int) -> Seq<DataV> {
    rows.map_values(|row: Seq<DataV>| row[c])
}

/// Every row of every batch has exactly one cell per schema field.
pub open spec fn rows_full(fields: Seq<FieldV>, bs: Seq<RowRecordBatchV>) -> bool {
    forall|b: int, r: int|
        0 <= b < bs.len() && 0 <= r < bs[b].rows.len() ==> (#[trigger] bs[b].rows[r]).len()
            == fields.len()
}

/// The cell at column `c` of `row` agrees with the builder tag of field `c`
/// (vacuously, where the field's physical type has no builder).
pub open spec fn cell_ok(fields: Seq<FieldV>, row: Seq<DataV>, c: int) -> bool {
    match builder_kind_of(fields[c].data_type) {
        Some(k) => data_kind(row[c]) == k,
        None => true,
    }
}

/// The cell at row `r`, column `c` disagrees with the builder tag of its
/// column.
pub open spec fn mismatch_at(fields: Seq<FieldV>, rows: Seq<Seq<DataV>>, r: int, c: int) -> bool {
    &&& 0 <= r < rows.len()
    &&& 0 <= c < fields.len()
    &&& !cell_ok(fields, rows[r], c)
}

/// Some cell disagrees with the builder tag of its column.
pub open spec fn has_mismatch(fields: Seq<FieldV>, rows: Seq<Seq<DataV>>) -> bool {
    exists|r: int, c: int| mismatch_at(fields, rows, r, c)
}

/// `(r, c)` is the first mismatch in consumption order: row-major, columns
/// within a row in schema order.
pub open spec fn first_mismatch_at(
    fields: Seq<FieldV>,
    rows: Seq<Seq<DataV>>,
    r: int,
    c: int,
) -> bool {
    &&& mismatch_at(fields, rows, r, c)
    &&& forall|r2: int, c2: int|
        mismatch_at(fields, rows, r2, c2) ==> r2 > r || (r2 == r && c2 >= c)
}

/// Every field's physical type has a builder.
pub open spec fn all_supported(fields: Seq<FieldV>) -> bool {
    forall|c: int| 0 <= c < fields.len() ==> builder_kind_of(#[trigger] fields[c].data_type) is Some
}

/// How many fields have a builder.
pub open spec fn count_supported(fields: Seq<FieldV>) -> nat
    decreases fields.len(),
{
    if fields.len() == 0 {
        0
    } else {
        count_supported(fields.drop_last()) + if builder_kind_of(fields.last().data_type) is Some {
            1nat
        } else {
            0nat
        }
    }
}

/// How many columns a conversion materializes: none when no value was ever
/// seen, otherwise one per supported field.
pub open spec fn count_built(fields: Seq<FieldV>, nrows: nat) -> nat {
    if nrows == 0 {
        0
    } else {
        count_supported(fields)
    }
}

/// What converting a row-batch collection against a physical schema returns.
///
/// - An empty collection yields an empty batch bound to the schema: zero
///   rows, no columns materialized.
/// - Otherwise, if any cell disagrees with its column's builder tag, the
///   whole conversion fails with the type-mismatch error of the first such
///   cell in consumption order; no batch is returned.
/// - Otherwise, if every field is supported and there is at least one field
///   and one row, the result is the batch whose column `c` holds exactly the
///   cells of column `c` of the flattened input, in input order.
/// - Otherwise assembling the batch fails: the builders that were
///   materialized cannot cover the schema.
pub open spec fn convert_post(
    fields: Seq<FieldV>,
    bs: Seq<RowRecordBatchV>,
    out: Result<RecordBatchV, RTStoreErrorV>,
) -> bool {
    let rows = flat_rows(bs);
    if bs.len() == 0 {
        &&& out matches Ok(b)
        &&& b.schema == fields
        &&& b.columns.len() == 0
        &&& b.row_count == 0
    } else if has_mismatch(fields, rows) {
        &&& out matches Err(e)
        &&& exists|r: int, c: int|
            #[trigger] first_mismatch_at(fields, rows, r, c) && e == mismatch_error(
                builder_kind_of(fields[c].data_type)->0,
                data_kind(rows[r][c]),
            )
    } else if fields.len() > 0 && all_supported(fields) && rows.len() > 0 {
        &&& out matches Ok(b)
        &&& b.schema == fields
        &&& b.row_count == rows.len()
        &&& b.columns.len() == fields.len()
        &&& forall|c: int|
            0 <= c < fields.len() ==> #[trigger] b.columns[c] == (ColumnArrayV {
                kind: builder_kind_of(fields[c].data_type)->0,
                cells: column_cells(rows, c),
            })
        &&& batch_wf(b)
    } else {
        &&& out matches Err(e)
        &&& e == RTStoreErrorV::EncodingError(
            if count_built(fields, rows.len()) == fields.len() {
                "at least one column must be defined to create a record batch"@
            } else {
                "number of columns must match number of schema fields"@
            },
        )
    }
}

/// The cells field `c` must have accumulated after `seen` full rows plus the
/// first `upto` cells of the row `w` now being consumed.
pub open spec fn column_prefix(seen: Seq<Seq<DataV>>, w: Seq<DataV>, upto: int, c: int) -> Seq<
    DataV,
> {
    if c < upto {
        column_cells(seen, c).push(w[c])
    } else {
        column_cells(seen, c)
    }
}

/// The builder slot of field `c` is in the state the consumed prefix
/// dictates: supported fields hold a builder of the right tag with exactly
/// the consumed cells once any cell was consumed, and no slot before that;
/// unsupported fields hold at most a `None` filler.
pub open spec fn builder_ok_at(
    fields: Seq<FieldV>,
    bl: Seq<Option<ColumnBuilder>>,
    seen: Seq<Seq<DataV>>,
    w: Seq<DataV>,
    upto: int,
    c: int,
) -> bool {
    match builder_kind_of(fields[c].data_type) {
        Some(k) => {
            let cells = column_prefix(seen, w, upto, c);
            if cells.len() > 0 {
                &&& c < bl.len()
                &&& bl[c] matches Some(b) && b.kind() == k && b@ == cells
            } else {
                c >= bl.len()
            }
        },
        None => c < bl.len() ==> bl[c] is None,
    }
}

/// The lazily-grown builder arena agrees with the consumed prefix at every
/// column position.
pub open spec fn builders_inv(
    fields: Seq<FieldV>,
    bl: Seq<Option<ColumnBuilder>>,
    seen: Seq<Seq<DataV>>,
    w: Seq<DataV>,
    upto: int,
) -> bool {
    &&& bl.len() <= fields.len()
    &&& forall|c: int| 0 <= c < fields.len() ==> #[trigger] builder_ok_at(fields, bl, seen, w, upto, c)
}

/// Flattening distributes over splitting the collection at `i`.
pub proof fn lemma_flat_take_succ(bs: Seq<RowRecordBatchV>, i: int)
    requires
        0 <= i < bs.len(),
    ensures
        flat_rows(bs.take(i + 1)) == flat_rows(bs.take(i)) + bs[i].rows,
    decreases i,
{
    if i == 0 {
        assert(bs.take(0) =~= Seq::<RowRecordBatchV>::empty());
        assert(bs.take(1).drop_first() =~= Seq::<RowRecordBatchV>::empty());
        assert(bs.take(1).first() == bs[0]);
        assert(flat_rows(bs.take(1)) == bs[0].rows + flat_rows(Seq::empty()));
        assert(flat_rows(bs.take(0)) + bs[0].rows =~= bs[0].rows + flat_rows(Seq::empty()));
    } else {
        let t = bs.drop_first();
        lemma_flat_take_succ(t, i - 1);
        assert(bs.take(i + 1).first() == bs[0]);
        assert(bs.take(i + 1).drop_first() =~= t.take(i));
        assert(bs.take(i).first() == bs[0]);
        assert(bs.take(i).drop_first() =~= t.take(i - 1));
        assert(flat_rows(bs.take(i + 1)) == bs[0].rows + (flat_rows(t.take(i - 1)) + t[i
            - 1].rows));
        assert(bs[0].rows + (flat_rows(t.take(i - 1)) + t[i - 1].rows) =~= (bs[0].rows + flat_rows(
            t.take(i - 1),
        )) + t[i - 1].rows);
        assert(flat_rows(bs.take(i)) == bs[0].rows + flat_rows(t.take(i - 1)));
        assert(bs[i].rows == t[i - 1].rows);
    }
}

/// Flattening splits into a flattened prefix and a flattened remainder.
pub proof fn lemma_flat_split(bs: Seq<RowRecordBatchV>, k: int)
    requires
        0 <= k <= bs.len(),
    ensures
        flat_rows(bs) == flat_rows(bs.take(k)) + flat_rows(bs.skip(k)),
    decreases k,
{
    if k == 0 {
        assert(bs.take(0) =~= Seq::<RowRecordBatchV>::empty());
        assert(bs.skip(0) =~= bs);
        assert(flat_rows(bs.take(0)) + flat_rows(bs) =~= flat_rows(bs));
    } else {
        lemma_flat_split(bs, k - 1);
        lemma_flat_take_succ(bs, k - 1);
        if k <= bs.len() {
            assert(bs.skip(k - 1).first() == bs[k - 1]);
            assert(bs.skip(k - 1).drop_first() =~= bs.skip(k));
            assert(flat_rows(bs.skip(k - 1)) == bs[k - 1].rows + flat_rows(bs.skip(k)));
        }
        assert(flat_rows(bs.take(k - 1)) + (bs[k - 1].rows + flat_rows(bs.skip(k))) =~= (flat_rows(
            bs.take(k - 1),
        ) + bs[k - 1].rows) + flat_rows(bs.skip(k)));
    }
}

/// Where the cell now being consumed sits in the flattened input: after the
/// flattened prefix of fully consumed batches plus the consumed rows of the
/// current batch.
pub proof fn lemma_flat_position(bs: Seq<RowRecordBatchV>, bi: int, ri: int)
    requires
        0 <= bi < bs.len(),
        0 <= ri < bs[bi].rows.len(),
    ensures
        ({
            let pre = flat_rows(bs.take(bi)) + bs[bi].rows.take(ri);
            &&& flat_rows(bs).len() >= pre.len() + 1
            &&& forall|x: int| 0 <= x < pre.len() ==> flat_rows(bs)[x] == pre[x]
            &&& flat_rows(bs)[pre.len() as int] == bs[bi].rows[ri]
        }),
{
    lemma_flat_split(bs, bi);
    assert(bs.skip(bi).first() == bs[bi]);
    assert(bs.skip(bi).drop_first() =~= bs.skip(bi + 1));
    assert(flat_rows(bs.skip(bi)) == bs[bi].rows + flat_rows(bs.skip(bi + 1)));
    let base = flat_rows(bs.take(bi));
    assert(flat_rows(bs) == base + (bs[bi].rows + flat_rows(bs.skip(bi + 1))));
    let pre = base + bs[bi].rows.take(ri);
    assert forall|x: int| 0 <= x < pre.len() implies flat_rows(bs)[x] == pre[x] by {
        if x < base.len() {
            assert(pre[x] == base[x]);
            assert(flat_rows(bs)[x] == base[x]);
        } else {
            assert(pre[x] == bs[bi].rows.take(ri)[x - base.len()]);
            assert(flat_rows(bs)[x] == (bs[bi].rows + flat_rows(bs.skip(bi + 1)))[x - base.len()]);
            assert((bs[bi].rows + flat_rows(bs.skip(bi + 1)))[x - base.len()] == bs[bi].rows[x
                - base.len()]);
        }
    }
    assert(flat_rows(bs)[pre.len() as int] == (bs[bi].rows + flat_rows(bs.skip(bi + 1)))[ri
        + bs[bi].rows.take(ri).len() - bs[bi].rows.take(ri).len()]);
    assert(flat_rows(bs)[pre.len() as int] == bs[bi].rows[ri]);
}

/// The cell now being consumed is the first mismatch of the whole input when
/// nothing consumed before it mismatched and it does.
proof fn lemma_first_mismatch(
    fields: Seq<FieldV>,
    bs: Seq<RowRecordBatchV>,
    bi: int,
    ri: int,
    ci: int,
    seen: Seq<Seq<DataV>>,
    w: Seq<DataV>,
)
    requires
        0 <= bi < bs.len(),
        0 <= ri < bs[bi].rows.len(),
        0 <= ci < fields.len(),
        seen == flat_rows(bs.take(bi)) + bs[bi].rows.take(ri),
        w == bs[bi].rows[ri],
        forall|r: int, c: int| !mismatch_at(fields, seen, r, c),
        forall|c: int| 0 <= c < ci ==> cell_ok(fields, w, c),
        !cell_ok(fields, w, ci),
    ensures
        first_mismatch_at(fields, flat_rows(bs), seen.len() as int, ci),
        flat_rows(bs)[seen.len() as int] == w,
        has_mismatch(fields, flat_rows(bs)),
{
    lemma_flat_position(bs, bi, ri);
    let rows = flat_rows(bs);
    let rs = seen.len() as int;
    assert(rows[rs] == w);
    assert(mismatch_at(fields, rows, rs, ci));
    assert forall|r2: int, c2: int| mismatch_at(fields, rows, r2, c2) implies r2 > rs || (r2 == rs
        && c2 >= ci) by {
        if r2 < rs {
            assert(rows[r2] == seen[r2]);
            assert(!mismatch_at(fields, seen, r2, c2));
            assert(!cell_ok(fields, seen[r2], c2));
            assert(false);
        } else if r2 == rs && c2 < ci {
            assert(rows[r2] == w);
            assert(cell_ok(fields, w, c2));
            assert(false);
        }
    }
}

/// The columns that finalizing the builders of the first `k` fields yields,
/// in field order: one per supported field, holding its column of the
/// flattened rows.
pub open spec fn cols_upto(fields: Seq<FieldV>, rows: Seq<Seq<DataV>>, k: int) -> Seq<ColumnArrayV>
    decreases k,
{
    if k <= 0 {
        Seq::empty()
    } else {
        cols_upto(fields, rows, k - 1) + match builder_kind_of(fields[k - 1].data_type) {
            Some(kd) => seq![ColumnArrayV { kind: kd, cells: column_cells(rows, k - 1) }],
            None => Seq::empty(),
        }
    }
}

/// Finalizing skips nothing when every field in range is supported: the
/// columns are exactly the fields' columns, index-aligned.
pub proof fn lemma_cols_upto_all_supported(fields: Seq<FieldV>, rows: Seq<Seq<DataV>>, k: int)
    requires
        0 <= k <= fields.len(),
        forall|c: int|
            0 <= c < k ==> builder_kind_of(#[trigger] fields[c].data_type) is Some,
    ensures
        cols_upto(fields, rows, k).len() == k,
        forall|j: int|
            0 <= j < k ==> #[trigger] cols_upto(fields, rows, k)[j] == (ColumnArrayV {
                kind: builder_kind_of(fields[j].data_type)->0,
                cells: column_cells(rows, j),
            }),
    decreases k,
{
    if k > 0 {
        lemma_cols_upto_all_supported(fields, rows, k - 1);
    }
}

/// Finalizing materializes one column per supported field.
pub proof fn lemma_cols_upto_len(fields: Seq<FieldV>, rows: Seq<Seq<DataV>>, k: int)
    requires
        0 <= k <= fields.len(),
    ensures
        cols_upto(fields, rows, k).len() == count_supported(fields.take(k)),
    decreases k,
{
    if k == 0 {
        assert(fields.take(0) =~= Seq::<FieldV>::empty());
    } else {
        lemma_cols_upto_len(fields, rows, k - 1);
        assert(fields.take(k).drop_last() =~= fields.take(k - 1));
        assert(fields.take(k).last() == fields[k - 1]);
    }
}

/// Fields without builders contribute no column.
pub proof fn lemma_cols_upto_skip_unsupported(
    fields: Seq<FieldV>,
    rows: Seq<Seq<DataV>>,
    k1: int,
    k2: int,
)
    requires
        0 <= k1 <= k2 <= fields.len(),
        forall|c: int| k1 <= c < k2 ==> builder_kind_of(#[trigger] fields[c].data_type) is None,
    ensures
        cols_upto(fields, rows, k2) == cols_upto(fields, rows, k1),
    decreases k2 - k1,
{
    if k2 > k1 {
        lemma_cols_upto_skip_unsupported(fields, rows, k1, k2 - 1);
        assert(cols_upto(fields, rows, k2) =~= cols_upto(fields, rows, k2 - 1));
    }
}

/// No more fields are supported than there are fields.
pub proof fn lemma_count_supported_le(fields: Seq<FieldV>)
    ensures
        count_supported(fields) <= fields.len(),
    decreases fields.len(),
{
    if fields.len() > 0 {
        lemma_count_supported_le(fields.drop_last());
    }
}

/// An unsupported field makes the supported count strictly smaller than the
/// field count.
pub proof fn lemma_count_supported_lt(fields: Seq<FieldV>, c: int)
    requires
        0 <= c < fields.len(),
        builder_kind_of(fields[c].data_type) is None,
    ensures
        count_supported(fields) < fields.len(),
    decreases fields.len(),
{
    if c == fields.len() - 1 {
        lemma_count_supported_le(fields.drop_last());
    } else {
        lemma_count_supported_lt(fields.drop_last(), c);
        assert(fields.drop_last()[c] == fields[c]);
    }
}

} // verus!

verus! {

/// Converts an ordered collection of row batches into one immutable columnar
/// batch bound to `schema`, accumulating cells into lazily created
/// per-column builders under strict type checking; see [`convert_post`] for
/// the full contract. Rows are consumed and emitted strictly in input order:
/// batch order, then row order, then schema order within a row.
pub fn rows_to_columns(schema: &Schema, rows_batch: &Vec<RowRecordBatch>) -> (r: Result<
    RecordBatch,
    RTStoreError,
>)
    requires
        rows_full(schema@, rows_batch@.map_values(|rb: RowRecordBatch| rb@)),
    ensures
        r matches Ok(b) ==> convert_post(
            schema@,
            rows_batch@.map_values(|rb: RowRecordBatch| rb@),
            Ok(b@),
        ),
        r matches Err(e) ==> convert_post(
            schema@,
            rows_batch@.map_values(|rb: RowRecordBatch| rb@),
            Err(e@),
        ),
{
    let ghost bsv = rows_batch@.map_values(|rb: RowRecordBatch| rb@);
    let ghost fieldsv = schema@;
    if rows_batch.len() == 0 {
        return Ok(RecordBatch::new_empty(schema.duplicate()));
    }
    let nf = schema.fields.len();
    let nb = rows_batch.len();
    let mut builders: Vec<Option<ColumnBuilder>> = Vec::new();
    let ghost mut seen: Seq<Seq<DataV>> = Seq::empty();
    proof {
        assert(bsv.take(0) =~= Seq::<RowRecordBatchV>::empty());
    }
    let mut bi: usize = 0;
    while bi < nb
        invariant
            bi <= nb,
            seen == flat_rows(bsv.take(bi as int)),
            forall|r: int| 0 <= r < seen.len() ==> (#[trigger] seen[r]).len() == nf,
            forall|r: int, c: int| !mismatch_at(fieldsv, seen, r, c),
            builders_inv(fieldsv, builders@, seen, Seq::<DataV>::empty(), 0),
            builders@.len() > 0 ==> seen.len() > 0,
        decreases nb - bi,
    {
        let rows = &rows_batch[bi];
        let nr = rows.batch.len();
        let ghost base = seen;
        proof {
            assert(bsv[bi as int] == rows_batch@[bi as int]@);
            assert(bsv[bi as int].rows.len() == nr);
            assert(bsv[bi as int].rows.take(0) =~= Seq::<Seq<DataV>>::empty());
            assert(base + bsv[bi as int].rows.take(0) =~= base);
        }
        let mut ri: usize = 0;
        while ri < nr
            invariant
                ri <= nr,
                seen == base + bsv[bi as int].rows.take(ri as int),
                forall|r: int| 0 <= r < seen.len() ==> (#[trigger] seen[r]).len() == nf,
                forall|r: int, c: int| !mismatch_at(fieldsv, seen, r, c),
                builders_inv(fieldsv, builders@, seen, Seq::<DataV>::empty(), 0),
                builders@.len() > 0 ==> seen.len() > 0,
            decreases nr - ri,
        {
            let row = &rows.batch[ri];
            let ghost w = row@.map_values(|d: Data| d@);
            proof {
                assert(bsv[bi as int].rows[ri as int] == w);
                assert(w.len() == nf);
                assert forall|c: int| 0 <= c < nf implies #[trigger] builder_ok_at(
                    fieldsv,
                    builders@,
                    seen,
                    w,
                    0,
                    c,
                ) by {
                    assert(builder_ok_at(fieldsv, builders@, seen, Seq::<DataV>::empty(), 0, c));
                    assert(column_prefix(seen, w, 0, c) == column_prefix(
                        seen,
                        Seq::<DataV>::empty(),
                        0,
                        c,
                    ));
                }
            }
            let mut ci: usize = 0;
            while ci < nf
                invariant
                    ci <= nf,
                    builders_inv(fieldsv, builders@, seen, w, ci as int),
                    forall|c: int| 0 <= c < ci ==> cell_ok(fieldsv, w, c),
                    builders@.len() > 0 ==> seen.len() + ci > 0,
                decreases nf - ci,
            {
                let field = &schema.fields[ci];
                let column = &row[ci];
                proof {
                    assert(column@ == w[ci as int]);
                    assert(field@ == fieldsv[ci as int]);
                }
                match expected_cell_kind(field.data_type) {
                    Some(_expected) => {
                        if builders.len() <= ci {
                            proof {
                                assert(builder_ok_at(
                                    fieldsv,
                                    builders@,
                                    seen,
                                    w,
                                    ci as int,
                                    ci as int,
                                ));
                                assert(seen.len() == 0);
                            }
                            while builders.len() < ci
                                invariant
                                    builders@.len() <= ci,
                                    builders_inv(fieldsv, builders@, seen, w, ci as int),
                                decreases ci - builders@.len(),
                            {
                                proof {
                                    let p = builders@.len() as int;
                                    assert(builder_ok_at(fieldsv, builders@, seen, w, ci as int, p));
                                    if builder_kind_of(fieldsv[p].data_type) is Some {
                                        assert(column_prefix(seen, w, ci as int, p).len() > 0);
                                        assert(false);
                                    }
                                }
                                let ghost old_bl = builders@;
                                builders.push(None);
                                proof {
                                    assert forall|c: int| 0 <= c < nf implies #[trigger] builder_ok_at(
                                        fieldsv,
                                        builders@,
                                        seen,
                                        w,
                                        ci as int,
                                        c,
                                    ) by {
                                        assert(builder_ok_at(fieldsv, old_bl, seen, w, ci as int, c));
                                        if c < old_bl.len() {
                                            assert(builders@[c] == old_bl[c]);
                                        }
                                    }
                                }
                            }
                            let ghost old_bl = builders@;
                            let nbuilder = ColumnBuilder::try_new(field.data_type);
                            builders.push(nbuilder);
                            proof {
                                assert(old_bl.len() == ci);
                                assert(column_cells(seen, ci as int) =~= Seq::<DataV>::empty());
                                assert(builders@[ci as int] matches Some(b) && b.kind()
                                    == builder_kind_of(fieldsv[ci as int].data_type)->0 && b@
                                    == column_cells(seen, ci as int));
                                assert forall|c: int|
                                    0 <= c < nf && c != ci implies #[trigger] builder_ok_at(
                                    fieldsv,
                                    builders@,
                                    seen,
                                    w,
                                    ci as int,
                                    c,
                                ) by {
                                    assert(builder_ok_at(fieldsv, old_bl, seen, w, ci as int, c));
                                    if c < old_bl.len() {
                                        assert(builders@[c] == old_bl[c]);
                                    } else {
                                        if builder_kind_of(fieldsv[c].data_type) is Some
                                            && column_prefix(seen, w, ci as int, c).len() > 0 {
                                            assert(false);
                                        }
                                    }
                                }
                            }
                        } else {
                            proof {
                                assert(builder_ok_at(
                                    fieldsv,
                                    builders@,
                                    seen,
                                    w,
                                    ci as int,
                                    ci as int,
                                ));
                                assert(column_prefix(seen, w, ci as int, ci as int) == column_cells(
                                    seen,
                                    ci as int,
                                ));
                                if column_cells(seen, ci as int).len() == 0 {
                                    assert(false);
                                }
                                assert(builders@[ci as int] matches Some(b) && b.kind()
                                    == builder_kind_of(fieldsv[ci as int].data_type)->0 && b@
                                    == column_cells(seen, ci as int));
                                assert forall|c: int|
                                    0 <= c < nf && c != ci implies #[trigger] builder_ok_at(
                                    fieldsv,
                                    builders@,
                                    seen,
                                    w,
                                    ci as int,
                                    c,
                                ) by {
                                    assert(builders_inv(fieldsv, builders@, seen, w, ci as int));
                                }
                            }
                        }
                        let ghost pre_bl = builders@;
                        let mut ob = builders.remove(ci);
                        let append_res = match &mut ob {
                            Some(b) => b.append(column),
                            None => {
                                proof {
                                    assert(false);
                                }
                                Ok(())
                            },
                        };
                        let ghost ob_val = ob;
                        builders.insert(ci, ob);
                        proof {
                            assert(builders@ =~= pre_bl.update(ci as int, ob_val));
                        }
                        match append_res {
                            Err(e) => {
                                proof {
                                    assert(!cell_ok(fieldsv, w, ci as int));
                                    lemma_first_mismatch(
                                        fieldsv,
                                        bsv,
                                        bi as int,
                                        ri as int,
                                        ci as int,
                                        seen,
                                        w,
                                    );
                                    assert(e@ == mismatch_error(
                                        builder_kind_of(fieldsv[ci as int].data_type)->0,
                                        data_kind(flat_rows(bsv)[seen.len() as int][ci as int]),
                                    ));
                                }
                                return Err(e);
                            },
                            Ok(_) => {},
                        }
                        proof {
                            assert(cell_ok(fieldsv, w, ci as int));
                            assert(ob_val matches Some(b2) && b2.kind() == builder_kind_of(
                                fieldsv[ci as int].data_type,
                            )->0 && b2@ == column_cells(seen, ci as int).push(w[ci as int]));
                            assert forall|c: int| 0 <= c < nf implies #[trigger] builder_ok_at(
                                fieldsv,
                                builders@,
                                seen,
                                w,
                                ci as int + 1,
                                c,
                            ) by {
                                if c != ci {
                                    assert(builder_ok_at(fieldsv, pre_bl, seen, w, ci as int, c));
                                    assert(builders@.len() == pre_bl.len());
                                    if 0 <= c < pre_bl.len() {
                                        assert(builders@[c] == pre_bl[c]);
                                    }
                                    assert(column_prefix(seen, w, ci as int + 1, c)
                                        == column_prefix(seen, w, ci as int, c));
                                } else {
                                    assert(builders@[c] == ob_val);
                                    assert(column_prefix(seen, w, ci as int + 1, c)
                                        == column_cells(seen, c).push(w[c]));
                                }
                            }
                        }
                    },
                    None => {
                        proof {
                            assert forall|c: int| 0 <= c < nf implies #[trigger] builder_ok_at(
                                fieldsv,
                                builders@,
                                seen,
                                w,
                                ci as int + 1,
                                c,
                            ) by {
                                assert(builder_ok_at(fieldsv, builders@, seen, w, ci as int, c));
                                if c != ci {
                                    assert(column_prefix(seen, w, ci as int + 1, c)
                                        == column_prefix(seen, w, ci as int, c));
                                } else {
                                    assert(cell_ok(fieldsv, w, c));
                                }
                            }
                        }
                    },
                }
                ci += 1;
            }
            proof {
                let seen2 = seen.push(w);
                assert forall|c: int| 0 <= c < nf implies #[trigger] builder_ok_at(
                    fieldsv,
                    builders@,
                    seen2,
                    Seq::<DataV>::empty(),
                    0,
                    c,
                ) by {
                    assert(builder_ok_at(fieldsv, builders@, seen, w, nf as int, c));
                    assert(column_cells(seen, c).push(w[c]) =~= column_cells(seen2, c));
                    assert(column_prefix(seen2, Seq::<DataV>::empty(), 0, c) == column_cells(
                        seen2,
                        c,
                    ));
                }
                assert forall|r: int, c: int| !mismatch_at(fieldsv, seen2, r, c) by {
                    if 0 <= r < seen2.len() && 0 <= c < nf {
                        if r < seen.len() {
                            assert(!mismatch_at(fieldsv, seen, r, c));
                            assert(seen2[r] == seen[r]);
                        } else {
                            assert(seen2[r] == w);
                            assert(cell_ok(fieldsv, w, c));
                        }
                    }
                }
                assert(bsv[bi as int].rows.take(ri as int + 1) =~= bsv[bi as int].rows.take(
                    ri as int,
                ).push(w));
                assert(base + bsv[bi as int].rows.take(ri as int).push(w) =~= seen2);
                seen = seen2;
            }
            ri += 1;
        }
        proof {
            assert(bsv[bi as int].rows.take(nr as int) =~= bsv[bi as int].rows);
            lemma_flat_take_succ(bsv, bi as int);
        }
        bi += 1;
    }
    proof {
        assert(bsv.take(nb as int) =~= bsv);
    }
    let ghost rows_all = seen;
    let ghost orig = builders@;
    let bl_len = builders.len();
    let mut columns: Vec<ColumnArray> = Vec::new();
    proof {
        assert(builders@ =~= orig.skip(0));
        assert(columns@.map_values(|c: ColumnArray| c@) =~= cols_upto(fieldsv, rows_all, 0));
    }
    let mut fi: usize = 0;
    while fi < bl_len
        invariant
            fi <= bl_len,
            bl_len == orig.len(),
            builders@ == orig.skip(fi as int),
            columns@.map_values(|c: ColumnArray| c@) == cols_upto(fieldsv, rows_all, fi as int),
        decreases bl_len - fi,
    {
        let ob = builders.remove(0);
        proof {
            assert(ob == orig.skip(fi as int)[0]);
            assert(ob == orig[fi as int]);
            assert(orig.skip(fi as int).remove(0) =~= orig.skip(fi as int + 1));
            assert(builder_ok_at(
                fieldsv,
                orig,
                rows_all,
                Seq::<DataV>::empty(),
                0,
                fi as int,
            ));
        }
        let ghost old_cols = columns@.map_values(|c: ColumnArray| c@);
        match ob {
            Some(b) => {
                proof {
                    if builder_kind_of(fieldsv[fi as int].data_type) is None {
                        assert(orig[fi as int] is None);
                        assert(false);
                    }
                }
                let col = b.finish();
                columns.push(col);
                proof {
                    assert(columns@.map_values(|c: ColumnArray| c@) =~= old_cols.push(col@));
                    assert(cols_upto(fieldsv, rows_all, fi as int + 1) =~= old_cols.push(
                        ColumnArrayV {
                            kind: builder_kind_of(fieldsv[fi as int].data_type)->0,
                            cells: column_cells(rows_all, fi as int),
                        },
                    ));
                }
            },
            None => {
                proof {
                    if builder_kind_of(fieldsv[fi as int].data_type) is Some {
                        assert(seen.len() > 0);
                        assert(column_prefix(
                            rows_all,
                            Seq::<DataV>::empty(),
                            0,
                            fi as int,
                        ).len() > 0);
                        assert(false);
                    }
                    assert(cols_upto(fieldsv, rows_all, fi as int + 1) =~= cols_upto(
                        fieldsv,
                        rows_all,
                        fi as int,
                    ));
                }
            },
        }
        fi += 1;
    }
    proof {
        // Builders were only ever materialized at positions the consumed rows
        // reached: every supported field beyond the arena is impossible once
        // a row was seen, and no builder exists when no row was seen.
        if rows_all.len() > 0 {
            assert forall|c: int| bl_len <= c < nf implies builder_kind_of(
                #[trigger] fieldsv[c].data_type,
            ) is None by {
                assert(builder_ok_at(fieldsv, orig, rows_all, Seq::<DataV>::empty(), 0, c));
                if builder_kind_of(fieldsv[c].data_type) is Some {
                    assert(column_prefix(rows_all, Seq::<DataV>::empty(), 0, c).len() > 0);
                }
            }
            lemma_cols_upto_skip_unsupported(fieldsv, rows_all, bl_len as int, nf as int);
        } else {
            assert(orig.len() == 0);
        }
    }
    let rb = RecordBatch::try_new(schema.duplicate(), columns);
    proof {
        let cls = columns@.map_values(|c: ColumnArray| c@);
        assert(!has_mismatch(fieldsv, rows_all));
        if rows_all.len() == 0 {
            assert(bl_len == 0);
            assert(cls =~= cols_upto(fieldsv, rows_all, 0));
            assert(cls.len() == 0);
            assert(count_built(fieldsv, rows_all.len()) == 0);
            if nf == 0 {
                assert(cls.len() == fieldsv.len());
            }
        } else {
            assert(cls == cols_upto(fieldsv, rows_all, nf as int));
            lemma_cols_upto_len(fieldsv, rows_all, nf as int);
            assert(fieldsv.take(nf as int) =~= fieldsv);
            assert(cls.len() == count_supported(fieldsv));
            if nf > 0 && all_supported(fieldsv) {
                lemma_cols_upto_all_supported(fieldsv, rows_all, nf as int);
                assert(cls.len() == nf);
                assert forall|j: int| 0 <= j < cls.len() implies #[trigger] cls[j].cells.len()
                    == cls[0].cells.len() by {
                    assert(cls[j].cells == column_cells(rows_all, j));
                    assert(cls[0].cells == column_cells(rows_all, 0));
                }
            } else if nf == 0 {
                lemma_count_supported_le(fieldsv);
                assert(cls.len() == 0);
            } else {
                let cbad = choose|c: int|
                    0 <= c < fieldsv.len() && !(builder_kind_of(
                        #[trigger] fieldsv[c].data_type,
                    ) is Some);
                lemma_count_supported_lt(fieldsv, cbad);
                assert(cls.len() != fieldsv.len());
            }
        }
    }
    rb
}

/// Row-to-columnar conversion is deterministic: any two results the
/// conversion contract admits for the same schema and the same row-batch
/// collection are equal. Re-running the accumulator on identical input
/// therefore yields an identical columnar batch or the identical error.
pub proof fn lemma_conversion_deterministic(
    fields: Seq<FieldV>,
    bs: Seq<RowRecordBatchV>,
    out1: Result<RecordBatchV, RTStoreErrorV>,
    out2: Result<RecordBatchV, RTStoreErrorV>,
)
    requires
        convert_post(fields, bs, out1),
        convert_post(fields, bs, out2),
    ensures
        out1 == out2,
{
    let rows = flat_rows(bs);
    if bs.len() == 0 {
        let b1 = out1->Ok_0;
        let b2 = out2->Ok_0;
        assert(b1.columns =~= b2.columns);
        assert(b1 =~= b2);
    } else if has_mismatch(fields, rows) {
        let (r1, c1) = choose|r: int, c: int|
            #[trigger] first_mismatch_at(fields, rows, r, c) && out1->Err_0 == mismatch_error(
                builder_kind_of(fields[c].data_type)->0,
                data_kind(rows[r][c]),
            );
        let (r2, c2) = choose|r: int, c: int|
            #[trigger] first_mismatch_at(fields, rows, r, c) && out2->Err_0 == mismatch_error(
                builder_kind_of(fields[c].data_type)->0,
                data_kind(rows[r][c]),
            );
        assert(mismatch_at(fields, rows, r1, c1));
        assert(mismatch_at(fields, rows, r2, c2));
        assert(r1 == r2 && c1 == c2);
    } else if fields.len() > 0 && all_supported(fields) && rows.len() > 0 {
        let b1 = out1->Ok_0;
        let b2 = out2->Ok_0;
        assert forall|c: int| 0 <= c < fields.len() implies b1.columns[c] == b2.columns[c] by {
            assert(b1.columns[c] == (ColumnArrayV {
                kind: builder_kind_of(fields[c].data_type)->0,
                cells: column_cells(rows, c),
            }));
        }
        assert(b1.columns =~= b2.columns);
        assert(b1 =~= b2);
    } else {
    }
}

} // verus!
