use vstd::prelude::*;

verus! {

/// The tag of a cell value: one per physical carrier the engine can hold in
/// a row.
#[derive(Clone, Copy, Debug, PartialEq, Eq, Structural)]
pub enum CellKind {
    Bool,
    Int8,
    UInt8,
    Int16,
    UInt16,
    Int32,
    UInt32,
    Int64,
    UInt64,
    Varchar,
    Date,
    Timestamp,
}

/// Mathematical value of a [`Data`] cell.
#[verifier::ext_equal]
pub enum DataV {
    Bool(bool),
    Int8(i8),
    UInt8(u8),
    Int16(i16),
    UInt16(u16),
    Int32(i32),
    UInt32(u32),
    Int64(i64),
    UInt64(u64),
    Varchar(Seq<char>),
    Date(i32),
    Timestamp(i64),
}

/// One cell of a row: a dynamically tagged value, as decoded from the
/// ingestion path. Dates are day numbers; timestamps are millisecond counts.
#[derive(Debug)]
pub enum Data {
    Bool(bool),
    Int8(i8),
    UInt8(u8),
    Int16(i16),
    UInt16(u16),
    Int32(i32),
    UInt32(u32),
    Int64(i64),
    UInt64(u64),
    Varchar(String),
    Date(i32),
    Timestamp(i64),
}

impl View for Data {
    type V = DataV;

    open spec fn view(&self) -> DataV {
        match self {
            Data::Bool(v) => DataV::Bool(*v),
            Data::Int8(v) => DataV::Int8(*v),
            Data::UInt8(v) => DataV::UInt8(*v),
            Data::Int16(v) => DataV::Int16(*v),
            Data::UInt16(v) => DataV::UInt16(*v),
            Data::Int32(v) => DataV::Int32(*v),
            Data::UInt32(v) => DataV::UInt32(*v),
            Data::Int64(v) => DataV::Int64(*v),
            Data::UInt64(v) => DataV::UInt64(*v),
            Data::Varchar(s) => DataV::Varchar(s@),
            Data::Date(v) => DataV::Date(*v),
            Data::Timestamp(v) => DataV::Timestamp(*v),
        }
    }
}

/// The tag of a cell value.
pub open spec fn data_kind(d: DataV) -> CellKind {
    match d {
        DataV::Bool(_) => CellKind::Bool,
        DataV::Int8(_) => CellKind::Int8,
        DataV::UInt8(_) => CellKind::UInt8,
        DataV::Int16(_) => CellKind::Int16,
        DataV::UInt16(_) => CellKind::UInt16,
        DataV::Int32(_) => CellKind::Int32,
        DataV::UInt32(_) => CellKind::UInt32,
        DataV::Int64(_) => CellKind::Int64,
        DataV::UInt64(_) => CellKind::UInt64,
        DataV::Varchar(_) => CellKind::Varchar,
        DataV::Date(_) => CellKind::Date,
        DataV::Timestamp(_) => CellKind::Timestamp,
    }
}

/// The label a cell tag is reported under in errors: the name of the
/// physical type the tag carries.
pub open spec fn kind_label(k: CellKind) -> Seq<char> {
    match k {
        CellKind::Bool => "boolean"@,
        CellKind::Int8 => "int8"@,
        CellKind::UInt8 => "uint8"@,
        CellKind::Int16 => "int16"@,
        CellKind::UInt16 => "uint16"@,
        CellKind::Int32 => "int32"@,
        CellKind::UInt32 => "uint32"@,
        CellKind::Int64 => "int64"@,
        CellKind::UInt64 => "uint64"@,
        CellKind::Varchar => "utf8"@,
        CellKind::Date => "date"@,
        CellKind::Timestamp => "timestamp"@,
    }
}

impl Data {
    /// The label of the cell's tag, as it appears in type-mismatch errors.
    pub fn name(&self) -> (r: &'static str)
        ensures
            r@ == kind_label(data_kind(self@)),
    {
        match self {
            Data::Bool(_) => "boolean",
            Data::Int8(_) => "int8",
            Data::UInt8(_) => "uint8",
            Data::Int16(_) => "int16",
            Data::UInt16(_) => "uint16",
            Data::Int32(_) => "int32",
            Data::UInt32(_) => "uint32",
            Data::Int64(_) => "int64",
            Data::UInt64(_) => "uint64",
            Data::Varchar(_) => "utf8",
            Data::Date(_) => "date",
            Data::Timestamp(_) => "timestamp",
        }
    }

    /// An equal copy of the cell.
    pub fn duplicate(&self) -> (d: Data)
        ensures
            d@ == self@,
    {
        match self {
            Data::Bool(v) => Data::Bool(*v),
            Data::Int8(v) => Data::Int8(*v),
            Data::UInt8(v) => Data::UInt8(*v),
            Data::Int16(v) => Data::Int16(*v),
            Data::UInt16(v) => Data::UInt16(*v),
            Data::Int32(v) => Data::Int32(*v),
            Data::UInt32(v) => Data::UInt32(*v),
            Data::Int64(v) => Data::Int64(*v),
            Data::UInt64(v) => Data::UInt64(*v),
            Data::Varchar(s) => Data::Varchar(s.clone()),
            Data::Date(v) => Data::Date(*v),
            Data::Timestamp(v) => Data::Timestamp(*v),
        }
    }
}

impl PartialEq for Data {
    fn eq(&self, other: &Data) -> (r: bool) {
        match (self, other) {
            (Data::Bool(a), Data::Bool(b)) => *a == *b,
            (Data::Int8(a), Data::Int8(b)) => *a == *b,
            (Data::UInt8(a), Data::UInt8(b)) => *a == *b,
            (Data::Int16(a), Data::Int16(b)) => *a == *b,
            (Data::UInt16(a), Data::UInt16(b)) => *a == *b,
            (Data::Int32(a), Data::Int32(b)) => *a == *b,
            (Data::UInt32(a), Data::UInt32(b)) => *a == *b,
            (Data::Int64(a), Data::Int64(b)) => *a == *b,
            (Data::UInt64(a), Data::UInt64(b)) => *a == *b,
            (Data::Varchar(a), Data::Varchar(b)) => *a == *b,
            (Data::Date(a), Data::Date(b)) => *a == *b,
            (Data::Timestamp(a), Data::Timestamp(b)) => *a == *b,
            _ => false,
        }
    }
}

impl vstd::std_specs::cmp::PartialEqSpecImpl for Data {
    open spec fn obeys_eq_spec() -> bool {
        true
    }

    open spec fn eq_spec(&self, other: &Data) -> bool {
        self@ == other@
    }
}

/// Mathematical value of a [`RowRecordBatch`].
#[verifier::ext_equal]
pub struct RowRecordBatchV {
    pub rows: Seq<Seq<DataV>>,
    pub schema_version: u32,
}

/// One row-oriented batch as received from the ingestion path: an ordered
/// sequence of rows, each an ordered sequence of cells, one per schema
/// column.
pub struct RowRecordBatch {
    pub batch: Vec<Vec<Data>>,
    pub schema_version: u32,
}

impl View for RowRecordBatch {
    type V = RowRecordBatchV;

    open spec fn view(&self) -> RowRecordBatchV {
        RowRecordBatchV {
            rows: self.batch@.map_values(|row: Vec<Data>| row@.map_values(|d: Data| d@)),
            schema_version: self.schema_version,
        }
    }
}

} // verus!
