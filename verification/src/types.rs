use vstd::prelude::*;

verus! {

/// The storage type of a table column.
#[derive(Debug, Eq, PartialEq)]
pub enum ColumnType {
    Uuid,
    Int,
    Long,
    Float,
    Double,
    Timestamp,
    Text,
    Bool,
}

} // verus!
