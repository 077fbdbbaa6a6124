//! Decoding of single cells into Rust values.
use crate::frame::{be_i32, cell_bytes, FrameSlice};
use crate::metadata::ColumnType;
use vstd::prelude::*;
use vstd::slice::slice_to_vec;

verus! {

/// A Rust type was asked to hold a column whose declared type it cannot
/// decode.
#[derive(Clone, Copy, Debug, PartialEq, Eq)]
pub struct MismatchedType {
    /// The declared type that the Rust type decodes.
    pub expected: ColumnType,
    /// The declared type of the column.
    pub got: ColumnType,
}

/// Why the bytes of a cell are no value of the Rust type.
#[derive(Clone, Copy, Debug, PartialEq, Eq)]
pub enum ValueDeserializationError {
    /// The cell is null, and the Rust type has no value for that.
    ExpectedNonNull,
    /// The cell holds `got` bytes where the type takes exactly `expected`.
    ByteLengthMismatch { expected: usize, got: usize },
}

/// A type that single cells can be decoded into.
///
/// `accepted_type` and `decode` say what the two executable methods compute:
/// an implementation is held to them.
pub trait DeserializeValue<'frame>: Sized + View {
    /// The declared column type whose cells this type decodes.
    spec fn accepted_type() -> ColumnType;

    /// The value that a cell stands for, or why it stands for none.
    spec fn decode(cell: Option<Seq<u8>>) -> Result<Self::V, ValueDeserializationError>;

    /// Checks that a column of declared type `typ` can be decoded into this
    /// type.
    fn type_check(typ: &ColumnType) -> (verdict: Result<(), MismatchedType>)
        ensures
            verdict == if *typ == Self::accepted_type() {
                Ok::<(), MismatchedType>(())
            } else {
                Err::<(), _>(MismatchedType { expected: Self::accepted_type(), got: *typ })
            },
    ;

    /// Decodes one cell.
    fn deserialize(v: Option<FrameSlice<'frame>>) -> (value: Result<
        Self,
        ValueDeserializationError,
    >)
        ensures
            match Self::decode(cell_bytes(v)) {
                Ok(x) => value matches Ok(y) && y@ == x,
                Err(e) => value == Err::<Self, _>(e),
            },
    ;
}

/// The verdict of a type that decodes exactly the columns declared as
/// `expected`.
fn exact_type_check(typ: &ColumnType, expected: ColumnType) -> (verdict: Result<
    (),
    MismatchedType,
>)
    ensures
        verdict == if *typ == expected {
            Ok::<(), MismatchedType>(())
        } else {
            Err::<(), _>(MismatchedType { expected, got: *typ })
        },
{
    if *typ == expected {
        Ok(())
    } else {
        Err(MismatchedType { expected, got: *typ })
    }
}

/// A blob, borrowed from the frame.
impl<'frame> DeserializeValue<'frame> for &'frame [u8] {
    open spec fn accepted_type() -> ColumnType {
        ColumnType::Blob
    }

    open spec fn decode(cell: Option<Seq<u8>>) -> Result<Seq<u8>, ValueDeserializationError> {
        match cell {
            Some(bytes) => Ok(bytes),
            None => Err(ValueDeserializationError::ExpectedNonNull),
        }
    }

    fn type_check(typ: &ColumnType) -> (verdict: Result<(), MismatchedType>) {
        exact_type_check(typ, ColumnType::Blob)
    }

    fn deserialize(v: Option<FrameSlice<'frame>>) -> (value: Result<
        Self,
        ValueDeserializationError,
    >) {
        match v {
            Some(slice) => Ok(slice.as_slice()),
            None => Err(ValueDeserializationError::ExpectedNonNull),
        }
    }
}

/// A blob, copied out of the frame.
impl<'frame> DeserializeValue<'frame> for Vec<u8> {
    open spec fn accepted_type() -> ColumnType {
        ColumnType::Blob
    }

    open spec fn decode(cell: Option<Seq<u8>>) -> Result<Seq<u8>, ValueDeserializationError> {
        match cell {
            Some(bytes) => Ok(bytes),
            None => Err(ValueDeserializationError::ExpectedNonNull),
        }
    }

    fn type_check(typ: &ColumnType) -> (verdict: Result<(), MismatchedType>) {
        exact_type_check(typ, ColumnType::Blob)
    }

    fn deserialize(v: Option<FrameSlice<'frame>>) -> (value: Result<
        Self,
        ValueDeserializationError,
    >) {
        match v {
            Some(slice) => Ok(slice_to_vec(slice.as_slice())),
            None => Err(ValueDeserializationError::ExpectedNonNull),
        }
    }
}

/// A 32-bit integer: four bytes, big-endian, two's complement.
impl<'frame> DeserializeValue<'frame> for i32 {
    open spec fn accepted_type() -> ColumnType {
        ColumnType::Int
    }

    open spec fn decode(cell: Option<Seq<u8>>) -> Result<i32, ValueDeserializationError> {
        match cell {
            Some(bytes) => if bytes.len() == 4 {
                Ok(be_i32(bytes) as i32)
            } else {
                Err(
                    ValueDeserializationError::ByteLengthMismatch {
                        expected: 4,
                        got: bytes.len() as usize,
                    },
                )
            },
            None => Err(ValueDeserializationError::ExpectedNonNull),
        }
    }

    fn type_check(typ: &ColumnType) -> (verdict: Result<(), MismatchedType>) {
        exact_type_check(typ, ColumnType::Int)
    }

    fn deserialize(v: Option<FrameSlice<'frame>>) -> (value: Result<
        Self,
        ValueDeserializationError,
    >) {
        match v {
            Some(slice) => {
                let b = slice.as_slice();
                if b.len() != 4 {
                    return Err(
                        ValueDeserializationError::ByteLengthMismatch {
                            expected: 4,
                            got: b.len(),
                        },
                    );
                }
                let u: i64 = (b[0] as i64) * 0x100_0000 + (b[1] as i64) * 0x1_0000 + (b[2] as i64)
                    * 0x100 + (b[3] as i64);
                let w: i64 = if u >= 0x8000_0000 {
                    u - 0x1_0000_0000
                } else {
                    u
                };
                Ok(w as i32)
            },
            None => Err(ValueDeserializationError::ExpectedNonNull),
        }
    }
}

/// The value of the eight-byte big-endian two's complement integer at the
/// start of `b`.
pub open spec fn be_i64(b: Seq<u8>) -> int
    recommends
        b.len() >= 8,
{
    let u = b[0] as int * 0x100_0000_0000_0000 + b[1] as int * 0x1_0000_0000_0000 + b[2] as int
        * 0x100_0000_0000 + b[3] as int * 0x1_0000_0000 + b[4] as int * 0x100_0000 + b[5] as int
        * 0x1_0000 + b[6] as int * 0x100 + b[7] as int;
    if u >= 0x8000_0000_0000_0000 {
        u - 0x1_0000_0000_0000_0000
    } else {
        u
    }
}

/// A 64-bit integer: eight bytes, big-endian, two's complement.
impl<'frame> DeserializeValue<'frame> for i64 {
    open spec fn accepted_type() -> ColumnType {
        ColumnType::BigInt
    }

    open spec fn decode(cell: Option<Seq<u8>>) -> Result<i64, ValueDeserializationError> {
        match cell {
            Some(bytes) => if bytes.len() == 8 {
                Ok(be_i64(bytes) as i64)
            } else {
                Err(
                    ValueDeserializationError::ByteLengthMismatch {
                        expected: 8,
                        got: bytes.len() as usize,
                    },
                )
            },
            None => Err(ValueDeserializationError::ExpectedNonNull),
        }
    }

    fn type_check(typ: &ColumnType) -> (verdict: Result<(), MismatchedType>) {
        exact_type_check(typ, ColumnType::BigInt)
    }

    fn deserialize(v: Option<FrameSlice<'frame>>) -> (value: Result<
        Self,
        ValueDeserializationError,
    >) {
        match v {
            Some(slice) => {
                let b = slice.as_slice();
                if b.len() != 8 {
                    return Err(
                        ValueDeserializationError::ByteLengthMismatch {
                            expected: 8,
                            got: b.len(),
                        },
                    );
                }
                let high: u64 = (b[0] as u64) * 0x100_0000 + (b[1] as u64) * 0x1_0000 + (
                b[2] as u64) * 0x100 + (b[3] as u64);
                let low: u64 = (b[4] as u64) * 0x100_0000 + (b[5] as u64) * 0x1_0000 + (
                b[6] as u64) * 0x100 + (b[7] as u64);
                let u: u64 = high * 0x1_0000_0000 + low;
                if u >= 0x8000_0000_0000_0000 {
                    Ok((u - 0x8000_0000_0000_0000) as i64 + i64::MIN)
                } else {
                    Ok(u as i64)
                }
            },
            None => Err(ValueDeserializationError::ExpectedNonNull),
        }
    }
}

} // verus!
