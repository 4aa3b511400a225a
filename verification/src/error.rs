use vstd::prelude::*;

verus! {

/// Mathematical value of an [`RTStoreError`], with text as character
/// sequences.
#[verifier::ext_equal]
pub enum RTStoreErrorV {
    TableSchemaConvertError(i32),
    TableTypeMismatchError { left: Seq<char>, right: Seq<char> },
    EncodingError(Seq<char>),
    TableInvalidNamesError,
    TableNamesExistError { name: Seq<char> },
    MemoryNodeExistError(Seq<char>),
    MetaRpcCreateTableError { err: Seq<char> },
    NodeRPCError(Seq<char>),
    InvalidArgumentError(Seq<char>),
}

/// Every failure of the engine. No call recovers locally: each error aborts
/// the call that raised it and is surfaced to the caller verbatim.
#[derive(Debug)]
pub enum RTStoreError {
    /// A logical schema held an unrecognized type code; carries the raw code.
    TableSchemaConvertError(i32),
    /// A cell's tagged type disagrees with its column's established builder
    /// type; `left` is the expected type label, `right` the cell's own label.
    TableTypeMismatchError { left: String, right: String },
    /// A columnar batch could not be assembled from the finished builders.
    EncodingError(String),
    /// A table descriptor held no name to derive a table id from.
    TableInvalidNamesError,
    /// A table with the same id already exists.
    TableNamesExistError { name: String },
    /// A memory node with the same endpoint is already registered.
    MemoryNodeExistError(String),
    /// A create-table request was malformed.
    MetaRpcCreateTableError { err: String },
    /// A node could not be reached over the network.
    NodeRPCError(String),
    /// A request argument was rejected.
    InvalidArgumentError(String),
}

impl View for RTStoreError {
    type V = RTStoreErrorV;

    open spec fn view(&self) -> RTStoreErrorV {
        match self {
            RTStoreError::TableSchemaConvertError(code) => RTStoreErrorV::TableSchemaConvertError(
                *code,
            ),
            RTStoreError::TableTypeMismatchError { left, right } => {
                RTStoreErrorV::TableTypeMismatchError { left: left@, right: right@ }
            },
            RTStoreError::EncodingError(msg) => RTStoreErrorV::EncodingError(msg@),
            RTStoreError::TableInvalidNamesError => RTStoreErrorV::TableInvalidNamesError,
            RTStoreError::TableNamesExistError { name } => RTStoreErrorV::TableNamesExistError {
                name: name@,
            },
            RTStoreError::MemoryNodeExistError(endpoint) => RTStoreErrorV::MemoryNodeExistError(
                endpoint@,
            ),
            RTStoreError::MetaRpcCreateTableError { err } => {
                RTStoreErrorV::MetaRpcCreateTableError { err: err@ }
            },
            RTStoreError::NodeRPCError(endpoint) => RTStoreErrorV::NodeRPCError(endpoint@),
            RTStoreError::InvalidArgumentError(msg) => RTStoreErrorV::InvalidArgumentError(msg@),
        }
    }
}

} // verus!
