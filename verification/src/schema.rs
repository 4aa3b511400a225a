use vstd::prelude::*;

use crate::error::{RTStoreError, RTStoreErrorV};

verus! {

/// Maximum precision of the fixed decimal representation that logical
/// decimals map to.
pub const DECIMAL_MAX_PRECISION: usize = 38;

/// Maximum scale of the fixed decimal representation that logical decimals
/// map to.
pub const DECIMAL_MAX_SCALE: usize = 38;

/// The logical column-type vocabulary of a table definition. This set is
/// closed: adding a variant requires extending the schema mapper and the
/// row-batch accumulator's dispatch together.
#[derive(Clone, Copy, Debug, PartialEq, Eq, Structural)]
pub enum RtStoreType {
    KBool,
    KTinyInt,
    KSmallInt,
    KInt,
    KBigInt,
    KFloat,
    KDouble,
    KDate,
    KDecimal,
    KTimestampSecond,
    KTimestampMillsSecond,
    KTimestampMicroSecond,
    KStringUtf8,
}

/// The resolution of a physical timestamp column.
#[derive(Clone, Copy, Debug, PartialEq, Eq, Structural)]
pub enum TimeUnit {
    Second,
    Millisecond,
    Microsecond,
}

/// The physical columnar-array type vocabulary that logical types are
/// stored as.
#[derive(Clone, Copy, Debug, PartialEq, Eq, Structural)]
pub enum DataType {
    Boolean,
    Int8,
    Int16,
    Int32,
    Int64,
    UInt8,
    UInt16,
    UInt32,
    UInt64,
    Float32,
    Float64,
    Decimal(usize, usize),
    Date32,
    Timestamp(TimeUnit),
    Utf8,
}

/// The logical type a raw wire code stands for, if any.
pub open spec fn logical_type_of(code: i32) -> Option<RtStoreType> {
    if code == 0 {
        Some(RtStoreType::KBool)
    } else if code == 1 {
        Some(RtStoreType::KTinyInt)
    } else if code == 2 {
        Some(RtStoreType::KSmallInt)
    } else if code == 3 {
        Some(RtStoreType::KInt)
    } else if code == 4 {
        Some(RtStoreType::KBigInt)
    } else if code == 5 {
        Some(RtStoreType::KFloat)
    } else if code == 6 {
        Some(RtStoreType::KDouble)
    } else if code == 7 {
        Some(RtStoreType::KDate)
    } else if code == 8 {
        Some(RtStoreType::KDecimal)
    } else if code == 9 {
        Some(RtStoreType::KTimestampSecond)
    } else if code == 10 {
        Some(RtStoreType::KTimestampMillsSecond)
    } else if code == 11 {
        Some(RtStoreType::KTimestampMicroSecond)
    } else if code == 12 {
        Some(RtStoreType::KStringUtf8)
    } else {
        None
    }
}

/// The wire code of a logical type; the inverse of [`logical_type_of`].
pub open spec fn spec_type_code(t: RtStoreType) -> i32 {
    match t {
        RtStoreType::KBool => 0,
        RtStoreType::KTinyInt => 1,
        RtStoreType::KSmallInt => 2,
        RtStoreType::KInt => 3,
        RtStoreType::KBigInt => 4,
        RtStoreType::KFloat => 5,
        RtStoreType::KDouble => 6,
        RtStoreType::KDate => 7,
        RtStoreType::KDecimal => 8,
        RtStoreType::KTimestampSecond => 9,
        RtStoreType::KTimestampMillsSecond => 10,
        RtStoreType::KTimestampMicroSecond => 11,
        RtStoreType::KStringUtf8 => 12,
    }
}

impl RtStoreType {
    /// Decodes a raw wire code into a logical type.
    pub fn from_i32(code: i32) -> (t: Option<RtStoreType>)
        ensures
            t == logical_type_of(code),
    {
        if code == 0 {
            Some(RtStoreType::KBool)
        } else if code == 1 {
            Some(RtStoreType::KTinyInt)
        } else if code == 2 {
            Some(RtStoreType::KSmallInt)
        } else if code == 3 {
            Some(RtStoreType::KInt)
        } else if code == 4 {
            Some(RtStoreType::KBigInt)
        } else if code == 5 {
            Some(RtStoreType::KFloat)
        } else if code == 6 {
            Some(RtStoreType::KDouble)
        } else if code == 7 {
            Some(RtStoreType::KDate)
        } else if code == 8 {
            Some(RtStoreType::KDecimal)
        } else if code == 9 {
            Some(RtStoreType::KTimestampSecond)
        } else if code == 10 {
            Some(RtStoreType::KTimestampMillsSecond)
        } else if code == 11 {
            Some(RtStoreType::KTimestampMicroSecond)
        } else if code == 12 {
            Some(RtStoreType::KStringUtf8)
        } else {
            None
        }
    }

    /// The wire code of this logical type.
    pub fn to_i32(self) -> (code: i32)
        ensures
            code == spec_type_code(self),
            logical_type_of(code) == Some(self),
    {
        match self {
            RtStoreType::KBool => 0,
            RtStoreType::KTinyInt => 1,
            RtStoreType::KSmallInt => 2,
            RtStoreType::KInt => 3,
            RtStoreType::KBigInt => 4,
            RtStoreType::KFloat => 5,
            RtStoreType::KDouble => 6,
            RtStoreType::KDate => 7,
            RtStoreType::KDecimal => 8,
            RtStoreType::KTimestampSecond => 9,
            RtStoreType::KTimestampMillsSecond => 10,
            RtStoreType::KTimestampMicroSecond => 11,
            RtStoreType::KStringUtf8 => 12,
        }
    }
}

/// The physical type each logical type is stored as. Total over the logical
/// vocabulary: only unrecognized raw codes make schema mapping fail.
pub open spec fn physical_type_of(t: RtStoreType) -> DataType {
    match t {
        RtStoreType::KBool => DataType::Boolean,
        RtStoreType::KTinyInt => DataType::Int8,
        RtStoreType::KSmallInt => DataType::Int16,
        RtStoreType::KInt => DataType::Int32,
        RtStoreType::KBigInt => DataType::Int64,
        RtStoreType::KFloat => DataType::Float32,
        RtStoreType::KDouble => DataType::Float64,
        RtStoreType::KDate => DataType::Date32,
        RtStoreType::KDecimal => DataType::Decimal(DECIMAL_MAX_PRECISION, DECIMAL_MAX_SCALE),
        RtStoreType::KTimestampSecond => DataType::Timestamp(TimeUnit::Second),
        RtStoreType::KTimestampMillsSecond => DataType::Timestamp(TimeUnit::Millisecond),
        RtStoreType::KTimestampMicroSecond => DataType::Timestamp(TimeUnit::Microsecond),
        RtStoreType::KStringUtf8 => DataType::Utf8,
    }
}

/// Executable twin of [`physical_type_of`].
pub fn physical_data_type(t: RtStoreType) -> (dt: DataType)
    ensures
        dt == physical_type_of(t),
{
    match t {
        RtStoreType::KBool => DataType::Boolean,
        RtStoreType::KTinyInt => DataType::Int8,
        RtStoreType::KSmallInt => DataType::Int16,
        RtStoreType::KInt => DataType::Int32,
        RtStoreType::KBigInt => DataType::Int64,
        RtStoreType::KFloat => DataType::Float32,
        RtStoreType::KDouble => DataType::Float64,
        RtStoreType::KDate => DataType::Date32,
        RtStoreType::KDecimal => DataType::Decimal(DECIMAL_MAX_PRECISION, DECIMAL_MAX_SCALE),
        RtStoreType::KTimestampSecond => DataType::Timestamp(TimeUnit::Second),
        RtStoreType::KTimestampMillsSecond => DataType::Timestamp(TimeUnit::Millisecond),
        RtStoreType::KTimestampMicroSecond => DataType::Timestamp(TimeUnit::Microsecond),
        RtStoreType::KStringUtf8 => DataType::Utf8,
    }
}

/// One column of a logical schema, as received from the table-definition
/// path; `ctype` is the raw wire code of the column's logical type.
pub struct RtStoreColumnDesc {
    pub name: String,
    pub ctype: i32,
    pub null_allowed: bool,
}

/// Mathematical value of an [`RtStoreColumnDesc`].
#[verifier::ext_equal]
pub struct ColumnDescV {
    pub name: Seq<char>,
    pub ctype: i32,
    pub null_allowed: bool,
}

impl View for RtStoreColumnDesc {
    type V = ColumnDescV;

    open spec fn view(&self) -> ColumnDescV {
        ColumnDescV { name: self.name@, ctype: self.ctype, null_allowed: self.null_allowed }
    }
}

/// A logical schema: ordered column descriptors plus a version number.
/// Column order defines column position for all downstream indexing.
pub struct RtStoreSchemaDesc {
    pub columns: Vec<RtStoreColumnDesc>,
    pub version: u32,
}

/// Mathematical value of an [`RtStoreSchemaDesc`].
#[verifier::ext_equal]
pub struct SchemaDescV {
    pub columns: Seq<ColumnDescV>,
    pub version: u32,
}

impl View for RtStoreSchemaDesc {
    type V = SchemaDescV;

    open spec fn view(&self) -> SchemaDescV {
        SchemaDescV {
            columns: self.columns@.map_values(|c: RtStoreColumnDesc| c@),
            version: self.version,
        }
    }
}

impl RtStoreColumnDesc {
    /// An equal copy of the descriptor.
    pub fn duplicate(&self) -> (c: RtStoreColumnDesc)
        ensures
            c@ == self@,
    {
        RtStoreColumnDesc {
            name: self.name.clone(),
            ctype: self.ctype,
            null_allowed: self.null_allowed,
        }
    }
}

impl RtStoreSchemaDesc {
    /// An equal copy of the schema descriptor.
    pub fn duplicate(&self) -> (s: RtStoreSchemaDesc)
        ensures
            s@ == self@,
    {
        let mut columns: Vec<RtStoreColumnDesc> = Vec::new();
        let n = self.columns.len();
        let mut i: usize = 0;
        while i < n
            invariant
                n == self.columns.len(),
                i <= n,
                columns@.len() == i,
                forall|j: int| 0 <= j < i ==> columns@[j]@ == self@.columns[j],
            decreases n - i,
        {
            columns.push(self.columns[i].duplicate());
            i += 1;
        }
        let s = RtStoreSchemaDesc { columns, version: self.version };
        proof {
            assert(s@.columns =~= self@.columns);
        }
        s
    }
}

/// One field of a physical schema.
pub struct Field {
    pub name: String,
    pub data_type: DataType,
    pub nullable: bool,
}

/// Mathematical value of a [`Field`].
#[verifier::ext_equal]
pub struct FieldV {
    pub name: Seq<char>,
    pub data_type: DataType,
    pub nullable: bool,
}

impl View for Field {
    type V = FieldV;

    open spec fn view(&self) -> FieldV {
        FieldV { name: self.name@, data_type: self.data_type, nullable: self.nullable }
    }
}

impl Field {
    /// Builds a field from its parts.
    pub fn new(name: String, data_type: DataType, nullable: bool) -> (f: Field)
        ensures
            f@ == (FieldV { name: name@, data_type, nullable }),
    {
        Field { name, data_type, nullable }
    }

    /// The field's name.
    pub fn name(&self) -> (r: &String)
        ensures
            r@ == self@.name,
    {
        &self.name
    }

    /// The field's physical type.
    pub fn data_type(&self) -> (r: DataType)
        ensures
            r == self@.data_type,
    {
        self.data_type
    }

    /// Whether the field admits nulls.
    pub fn is_nullable(&self) -> (r: bool)
        ensures
            r == self@.nullable,
    {
        self.nullable
    }

    /// An equal copy of the field.
    pub fn duplicate(&self) -> (f: Field)
        ensures
            f@ == self@,
    {
        Field { name: self.name.clone(), data_type: self.data_type, nullable: self.nullable }
    }
}

/// A physical schema: ordered field descriptors, index-aligned with the
/// logical schema it was derived from. Shared read-only by every component
/// downstream of the schema mapper.
pub struct Schema {
    pub fields: Vec<Field>,
}

impl View for Schema {
    type V = Seq<FieldV>;

    open spec fn view(&self) -> Seq<FieldV> {
        self.fields@.map_values(|f: Field| f@)
    }
}

impl Schema {
    /// Builds a schema from an ordered field list.
    pub fn new(fields: Vec<Field>) -> (s: Schema)
        ensures
            s@ == fields@.map_values(|f: Field| f@),
    {
        Schema { fields }
    }

    /// The ordered fields of the schema.
    pub fn fields(&self) -> (r: &Vec<Field>)
        ensures
            r@.map_values(|f: Field| f@) == self@,
            r@.len() == self@.len(),
            forall|i: int| 0 <= i < r@.len() ==> r@[i]@ == self@[i],
    {
        &self.fields
    }

    /// An equal copy of the schema.
    pub fn duplicate(&self) -> (s: Schema)
        ensures
            s@ == self@,
    {
        let mut fields: Vec<Field> = Vec::new();
        let n = self.fields.len();
        let mut i: usize = 0;
        while i < n
            invariant
                n == self.fields.len(),
                i <= n,
                fields@.len() == i,
                forall|j: int| 0 <= j < i ==> fields@[j]@ == self@[j],
            decreases n - i,
        {
            fields.push(self.fields[i].duplicate());
            i += 1;
        }
        let s = Schema { fields };
        assert(s@ =~= self@);
        s
    }
}

/// Holds when `i` is the position of the first column of `cols` whose raw
/// type code is not a recognized logical type.
pub open spec fn first_unknown_code(cols: Seq<ColumnDescV>, i: int) -> bool {
    &&& 0 <= i < cols.len()
    &&& logical_type_of(cols[i].ctype) is None
    &&& forall|j: int| 0 <= j < i ==> logical_type_of(#[trigger] cols[j].ctype) is Some
}

/// What mapping a logical schema to a physical schema returns: the fields of
/// a successful mapping copy name and nullability verbatim, preserve order,
/// and store each column as the physical type of its logical type; mapping
/// fails exactly when some column carries an unrecognized raw type code, with
/// the first such code.
pub open spec fn schema_mapping_post(
    cols: Seq<ColumnDescV>,
    out: Result<Seq<FieldV>, RTStoreErrorV>,
) -> bool {
    match out {
        Ok(fields) => {
            &&& fields.len() == cols.len()
            &&& forall|i: int|
                0 <= i < cols.len() ==> logical_type_of(#[trigger] cols[i].ctype) is Some
            &&& forall|i: int|
                0 <= i < cols.len() ==> #[trigger] fields[i] == (FieldV {
                    name: cols[i].name,
                    data_type: physical_type_of(logical_type_of(cols[i].ctype)->0),
                    nullable: cols[i].null_allowed,
                })
        },
        Err(e) => exists|i: int|
            #[trigger] first_unknown_code(cols, i) && e == RTStoreErrorV::TableSchemaConvertError(
                cols[i].ctype,
            ),
    }
}

/// Maps a logical schema to the physical schema its data is stored under.
/// Pure and deterministic; fails only on an unrecognized raw type code.
pub fn table_desc_to_arrow_schema(desc: &RtStoreSchemaDesc) -> (r: Result<Schema, RTStoreError>)
    ensures
        r matches Ok(s) ==> schema_mapping_post(desc@.columns, Ok(s@)),
        r matches Err(e) ==> schema_mapping_post(desc@.columns, Err(e@)),
{
    let mut fields: Vec<Field> = Vec::new();
    let n = desc.columns.len();
    let mut i: usize = 0;
    while i < n
        invariant
            n == desc.columns.len(),
            i <= n,
            fields@.len() == i,
            forall|j: int|
                0 <= j < i ==> logical_type_of(#[trigger] desc@.columns[j].ctype) is Some,
            forall|j: int|
                0 <= j < i ==> #[trigger] fields@[j]@ == (FieldV {
                    name: desc@.columns[j].name,
                    data_type: physical_type_of(logical_type_of(desc@.columns[j].ctype)->0),
                    nullable: desc@.columns[j].null_allowed,
                }),
        decreases n - i,
    {
        let column = &desc.columns[i];
        match RtStoreType::from_i32(column.ctype) {
            Some(t) => {
                let dt = physical_data_type(t);
                fields.push(Field::new(column.name.clone(), dt, column.null_allowed));
            },
            None => {
                assert(first_unknown_code(desc@.columns, i as int));
                return Err(RTStoreError::TableSchemaConvertError(column.ctype));
            },
        }
        i += 1;
    }
    let s = Schema::new(fields);
    assert forall|j: int| 0 <= j < desc@.columns.len() implies #[trigger] s@[j] == (FieldV {
        name: desc@.columns[j].name,
        data_type: physical_type_of(logical_type_of(desc@.columns[j].ctype)->0),
        nullable: desc@.columns[j].null_allowed,
    }) by {
        assert(s@[j] == fields@[j]@);
    }
    Ok(s)
}

/// Schema mapping is deterministic: any two results that the mapping
/// contract admits for the same logical schema are equal, so re-running the
/// schema mapper on identical input yields an identical physical schema or
/// the identical error.
pub proof fn lemma_schema_mapping_deterministic(
    cols: Seq<ColumnDescV>,
    out1: Result<Seq<FieldV>, RTStoreErrorV>,
    out2: Result<Seq<FieldV>, RTStoreErrorV>,
)
    requires
        schema_mapping_post(cols, out1),
        schema_mapping_post(cols, out2),
    ensures
        out1 == out2,
{
    match (out1, out2) {
        (Ok(f1), Ok(f2)) => {
            assert(f1 =~= f2);
        },
        (Ok(f1), Err(e2)) => {
            let i = choose|i: int|
                first_unknown_code(cols, i) && e2 == RTStoreErrorV::TableSchemaConvertError(
                    cols[i].ctype,
                );
            assert(logical_type_of(cols[i].ctype) is Some);
        },
        (Err(e1), Ok(f2)) => {
            let i = choose|i: int|
                first_unknown_code(cols, i) && e1 == RTStoreErrorV::TableSchemaConvertError(
                    cols[i].ctype,
                );
            assert(logical_type_of(cols[i].ctype) is Some);
        },
        (Err(e1), Err(e2)) => {
            let i1 = choose|i: int|
                first_unknown_code(cols, i) && e1 == RTStoreErrorV::TableSchemaConvertError(
                    cols[i].ctype,
                );
            let i2 = choose|i: int|
                first_unknown_code(cols, i) && e2 == RTStoreErrorV::TableSchemaConvertError(
                    cols[i].ctype,
                );
            assert(i1 == i2) by {
                if i1 < i2 {
                    assert(logical_type_of(cols[i1].ctype) is Some);
                } else if i2 < i1 {
                    assert(logical_type_of(cols[i2].ctype) is Some);
                }
            }
        },
    }
}

} // verus!
