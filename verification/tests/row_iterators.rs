use bytes::{BufMut, Bytes, BytesMut};
use scylla_core::frame::{FrameSlice, LowLevelDeserializationError};
use scylla_core::metadata::{ColumnSpec, ColumnType};
use scylla_core::result::{RawRowIterator, TypedRowIterator};
use scylla_core::row::{DeserializationError, DeserializeRow, TypeCheckError};
use scylla_core::value::{MismatchedType, ValueDeserializationError};

const CELL1: &[u8] = &[1, 2, 3];
const CELL2: &[u8] = &[4, 5, 6, 7];

fn append_cell(b: &mut BytesMut, cell: Option<&[u8]>) {
    match cell {
        Some(cell) => {
            b.put_i32(cell.len() as i32);
            b.put_slice(cell);
        }
        None => b.put_i32(-1),
    }
}

fn serialize_cells<const N: usize>(cells: [Option<&[u8]>; N]) -> Bytes {
    let mut bytes = BytesMut::new();
    for cell in cells {
        append_cell(&mut bytes, cell);
    }
    bytes.freeze()
}

fn spec<'a>(name: &'a str, typ: ColumnType) -> ColumnSpec<'a> {
    ColumnSpec::borrowed(name, typ)
}

#[test]
fn test_row_iterator_basic_parse() {
    let raw_data = serialize_cells([Some(CELL1), Some(CELL2), Some(CELL2), Some(CELL1)]);
    let specs = [spec("b1", ColumnType::Blob), spec("b2", ColumnType::Blob)];
    let mut iter = RawRowIterator::new(2, &specs, FrameSlice::new(&raw_data));

    let mut row1 = iter.next().unwrap().unwrap();
    let c11 = row1.next().unwrap().unwrap();
    assert_eq!(c11.slice.unwrap().as_slice(), CELL1);
    let c12 = row1.next().unwrap().unwrap();
    assert_eq!(c12.slice.unwrap().as_slice(), CELL2);
    assert!(row1.next().is_none());

    let mut row2 = iter.next().unwrap().unwrap();
    let c21 = row2.next().unwrap().unwrap();
    assert_eq!(c21.slice.unwrap().as_slice(), CELL2);
    let c22 = row2.next().unwrap().unwrap();
    assert_eq!(c22.slice.unwrap().as_slice(), CELL1);
    assert!(row2.next().is_none());

    assert!(iter.next().is_none());
}

#[test]
fn test_row_iterator_too_few_rows() {
    let raw_data = serialize_cells([Some(CELL1), Some(CELL2)]);
    let specs = [spec("b1", ColumnType::Blob), spec("b2", ColumnType::Blob)];
    let mut iter = RawRowIterator::new(2, &specs, FrameSlice::new(&raw_data));

    iter.next().unwrap().unwrap();
    assert!(iter.next().unwrap().is_err());
}

#[test]
fn test_typed_row_iterator_basic_parse() {
    let raw_data = serialize_cells([Some(CELL1), Some(CELL2), Some(CELL2), Some(CELL1)]);
    let specs = [spec("b1", ColumnType::Blob), spec("b2", ColumnType::Blob)];
    let iter = RawRowIterator::new(2, &specs, FrameSlice::new(&raw_data));
    let mut iter = TypedRowIterator::<'_, '_, (&[u8], Vec<u8>)>::new(iter).unwrap();

    let (c11, c12) = iter.next().unwrap().unwrap();
    assert_eq!(c11, CELL1);
    assert_eq!(c12, CELL2);

    let (c21, c22) = iter.next().unwrap().unwrap();
    assert_eq!(c21, CELL2);
    assert_eq!(c22, CELL1);

    assert!(iter.next().is_none());
}

#[test]
fn test_typed_row_iterator_wrong_type() {
    let raw_data = Bytes::new();
    let specs = [spec("b1", ColumnType::Blob), spec("b2", ColumnType::Blob)];
    let iter = RawRowIterator::new(0, &specs, FrameSlice::new(&raw_data));
    assert!(TypedRowIterator::<'_, '_, (i32, i64)>::new(iter).is_err());
}

#[test]
fn example_two_blob_rows_raw_and_typed_agree() {
    let a: &[u8] = &[0xAA, 0xAB];
    let b: &[u8] = &[0xBB];
    let raw_data = serialize_cells([Some(a), Some(b), Some(b), Some(a)]);
    let specs = [spec("b1", ColumnType::Blob), spec("b2", ColumnType::Blob)];

    let mut raw = RawRowIterator::new(2, &specs, FrameSlice::new(&raw_data));
    let mut raw_rows: Vec<(Vec<u8>, Vec<u8>)> = Vec::new();
    while let Some(row) = raw.next() {
        let mut row = row.unwrap();
        let first = row.next().unwrap().unwrap();
        let second = row.next().unwrap().unwrap();
        assert_eq!(first.index, 0);
        assert_eq!(second.index, 1);
        assert_eq!(first.spec.name(), "b1");
        assert_eq!(second.spec.name(), "b2");
        raw_rows.push((
            first.slice.unwrap().as_slice().to_vec(),
            second.slice.unwrap().as_slice().to_vec(),
        ));
    }
    assert_eq!(raw_rows, vec![(a.to_vec(), b.to_vec()), (b.to_vec(), a.to_vec())]);

    let raw = RawRowIterator::new(2, &specs, FrameSlice::new(&raw_data));
    let mut typed = TypedRowIterator::<'_, '_, (Vec<u8>, Vec<u8>)>::new(raw).unwrap();
    let mut typed_rows: Vec<(Vec<u8>, Vec<u8>)> = Vec::new();
    while let Some(row) = typed.next() {
        typed_rows.push(row.unwrap());
    }
    assert_eq!(typed_rows, raw_rows);
}

#[test]
fn size_hint_is_exact_also_after_an_error() {
    let raw_data = serialize_cells([Some(CELL1), Some(CELL2)]);
    let specs = [spec("b1", ColumnType::Blob), spec("b2", ColumnType::Blob)];
    let mut iter = RawRowIterator::new(3, &specs, FrameSlice::new(&raw_data));
    assert_eq!(iter.size_hint(), (3, Some(3)));
    assert_eq!(iter.rows_remaining(), 3);
    assert_eq!(iter.specs().len(), 2);
    assert!(iter.next().unwrap().is_ok());
    assert_eq!(iter.size_hint(), (2, Some(2)));
    assert!(iter.next().unwrap().is_err());
    assert_eq!(iter.size_hint(), (1, Some(1)));
    assert!(iter.next().unwrap().is_err());
    assert_eq!(iter.size_hint(), (0, Some(0)));
    assert!(iter.next().is_none());
    assert!(iter.next().is_none());
    assert_eq!(iter.rows_remaining(), 0);
}

#[test]
fn iterator_stops_at_the_row_count_though_bytes_remain() {
    let raw_data = serialize_cells([Some(CELL1), Some(CELL2), Some(CELL2), Some(CELL1)]);
    let specs = [spec("b1", ColumnType::Blob), spec("b2", ColumnType::Blob)];
    let mut iter = RawRowIterator::new(1, &specs, FrameSlice::new(&raw_data));
    assert!(iter.next().unwrap().is_ok());
    assert!(iter.next().is_none());
}

#[test]
fn abandoned_row_does_not_disturb_the_next() {
    let raw_data = serialize_cells([Some(CELL1), Some(CELL2), Some(CELL2), Some(CELL1)]);
    let specs = [spec("b1", ColumnType::Blob), spec("b2", ColumnType::Blob)];
    let mut iter = RawRowIterator::new(2, &specs, FrameSlice::new(&raw_data));
    let mut row1 = iter.next().unwrap().unwrap();
    assert_eq!(row1.columns_remaining(), 2);
    let c11 = row1.next().unwrap().unwrap();
    assert_eq!(c11.slice.unwrap().as_slice(), CELL1);
    assert_eq!(row1.columns_remaining(), 1);
    // the second cell of the first row is never read
    let mut row2 = iter.next().unwrap().unwrap();
    let c21 = row2.next().unwrap().unwrap();
    assert_eq!(c21.slice.unwrap().as_slice(), CELL2);
}

#[test]
fn truncated_row_names_the_failing_column() {
    // the second cell announces four bytes and holds two
    let mut data = serialize_cells([Some(CELL1)]).to_vec();
    data.extend_from_slice(&[0, 0, 0, 4, 9, 9]);
    let specs = [spec("b1", ColumnType::Blob), spec("b2", ColumnType::Blob)];
    let mut iter = RawRowIterator::new(1, &specs, FrameSlice::new(&data));
    let err = iter.next().unwrap().unwrap_err();
    assert_eq!(
        err,
        DeserializationError::RawColumnDeserializationFailed {
            column_index: 1,
            column_name: String::from("b2"),
            err: LowLevelDeserializationError::TooFewBytesReceived { expected: 4, received: 2 },
        }
    );
    assert!(iter.next().is_none());
}

#[test]
fn truncated_length_prefix_is_reported() {
    let data: Vec<u8> = vec![0, 0, 1];
    let mut slice = FrameSlice::new(&data);
    assert_eq!(
        slice.read_cql_bytes().unwrap_err(),
        LowLevelDeserializationError::LengthPrefixTruncated { received: 3 }
    );
    // an error leaves the slice where it was
    assert_eq!(slice.as_slice(), &data[..]);
    assert!(!slice.is_empty());
}

#[test]
fn null_and_unset_cells_are_read_as_none() {
    let data: Vec<u8> = vec![0xFF, 0xFF, 0xFF, 0xFF, 0xFF, 0xFF, 0xFF, 0xFE, 0, 0, 0, 0];
    let mut slice = FrameSlice::new(&data);
    assert!(slice.read_cql_bytes().unwrap().is_none());
    assert!(slice.read_cql_bytes().unwrap().is_none());
    let empty = slice.read_cql_bytes().unwrap().unwrap();
    assert!(empty.is_empty());
    assert!(slice.is_empty());
}

#[test]
fn typed_row_reports_a_null_cell() {
    let raw_data = serialize_cells([Some(CELL1), None, Some(CELL2), Some(CELL1)]);
    let specs = [spec("b1", ColumnType::Blob), spec("b2", ColumnType::Blob)];
    let iter = RawRowIterator::new(2, &specs, FrameSlice::new(&raw_data));
    let mut iter = TypedRowIterator::<'_, '_, (&[u8], &[u8])>::new(iter).unwrap();
    assert_eq!(iter.rows_remaining(), 2);
    assert_eq!(iter.size_hint(), (2, Some(2)));
    assert_eq!(
        iter.next().unwrap().unwrap_err(),
        DeserializationError::ColumnDeserializationFailed {
            column_index: 1,
            column_name: String::from("b2"),
            err: ValueDeserializationError::ExpectedNonNull,
        }
    );
    // the rows behind the bad one are decoded all the same
    assert_eq!(iter.next().unwrap().unwrap(), (CELL2, CELL1));
    assert!(iter.next().is_none());
}

#[test]
fn typed_integers_are_big_endian() {
    let int: &[u8] = &[0xFF, 0xFF, 0xFF, 0xFE];
    let bigint: &[u8] = &[0, 0, 0, 1, 0, 0, 0, 2];
    let min: &[u8] = &[0x80, 0, 0, 0];
    let neg: &[u8] = &[0x80, 0, 0, 0, 0, 0, 0, 1];
    let raw_data = serialize_cells([Some(int), Some(bigint), Some(min), Some(neg)]);
    let specs = [spec("i", ColumnType::Int), spec("l", ColumnType::BigInt)];
    let iter = RawRowIterator::new(2, &specs, FrameSlice::new(&raw_data));
    let mut iter = TypedRowIterator::<'_, '_, (i32, i64)>::new(iter).unwrap();
    assert_eq!(iter.next().unwrap().unwrap(), (-2, 0x1_0000_0002));
    assert_eq!(iter.next().unwrap().unwrap(), (i32::MIN, i64::MIN + 1));
    assert!(iter.next().is_none());
}

#[test]
fn typed_integer_of_wrong_length_is_refused() {
    let raw_data = serialize_cells([Some(CELL1), Some(CELL2)]);
    let specs = [spec("i", ColumnType::Int), spec("l", ColumnType::BigInt)];
    let iter = RawRowIterator::new(1, &specs, FrameSlice::new(&raw_data));
    let mut iter = TypedRowIterator::<'_, '_, (i32, i64)>::new(iter).unwrap();
    assert_eq!(
        iter.next().unwrap().unwrap_err(),
        DeserializationError::ColumnDeserializationFailed {
            column_index: 0,
            column_name: String::from("i"),
            err: ValueDeserializationError::ByteLengthMismatch { expected: 4, got: 3 },
        }
    );
}

#[test]
fn type_check_names_the_mismatch_and_repeats_its_verdict() {
    let specs = [spec("b1", ColumnType::Blob), spec("b2", ColumnType::Int)];
    let first = <(&[u8], i64) as DeserializeRow>::type_check(&specs);
    let second = <(&[u8], i64) as DeserializeRow>::type_check(&specs);
    assert_eq!(first, second);
    assert_eq!(
        first,
        Err(TypeCheckError::ColumnTypeCheckFailed {
            column_index: 1,
            column_name: String::from("b2"),
            err: MismatchedType { expected: ColumnType::BigInt, got: ColumnType::Int },
        })
    );
    assert_eq!(<(&[u8], i32) as DeserializeRow>::type_check(&specs), Ok(()));
    let three = [
        spec("b1", ColumnType::Blob),
        spec("b2", ColumnType::Int),
        spec("b3", ColumnType::Int),
    ];
    assert_eq!(
        <(&[u8], i32) as DeserializeRow>::type_check(&three),
        Err(TypeCheckError::WrongColumnCount { rust_cols: 2, cql_cols: 3 })
    );
}

#[test]
fn type_check_fails_before_any_row_is_read() {
    // the bytes are no rows at all: the check does not look at them
    let data: Vec<u8> = vec![1, 2, 3];
    let specs = [spec("b1", ColumnType::Blob)];
    let iter = RawRowIterator::new(5, &specs, FrameSlice::new(&data));
    assert!(TypedRowIterator::<'_, '_, (Vec<u8>, Vec<u8>)>::new(iter).is_err());
}
