//! What a response says about its columns.
use vstd::prelude::*;

verus! {

/// The declared type of a column.
#[derive(Clone, Copy, Debug, PartialEq, Eq, Structural)]
pub enum ColumnType {
    Ascii,
    BigInt,
    Blob,
    Boolean,
    Counter,
    Date,
    Decimal,
    Double,
    Duration,
    Float,
    Inet,
    Int,
    SmallInt,
    Text,
    Time,
    Timestamp,
    Timeuuid,
    TinyInt,
    Uuid,
    Varint,
}

/// The name and the declared type of one column of a result.
#[derive(Clone, Copy, Debug, PartialEq, Eq)]
pub struct ColumnSpec<'metadata> {
    pub name: &'metadata str,
    pub typ: ColumnType,
}

impl<'metadata> ColumnSpec<'metadata> {
    /// A column spec that borrows its name.
    pub fn borrowed(name: &'metadata str, typ: ColumnType) -> (spec: Self)
        ensures
            spec.name == name,
            spec.typ == typ,
    {
        ColumnSpec { name, typ }
    }

    /// The column's name.
    pub fn name(&self) -> (name: &'metadata str)
        ensures
            name == self.name,
    {
        self.name
    }

    /// The column's declared type.
    pub fn typ(&self) -> (typ: &ColumnType)
        ensures
            *typ == self.typ,
    {
        &self.typ
    }
}

} // verus!
