//! The cells of one row, and records decoded from them.
use crate::frame::{
    cell_bytes, encodable, encode_cell, lemma_read_encoded_cell, read_cell, FrameSlice,
    LowLevelDeserializationError,
};
use crate::metadata::ColumnSpec;
use crate::value::{DeserializeValue, MismatchedType, ValueDeserializationError};
use vstd::prelude::*;

verus! {

/// Why a row, or one of its columns, could not be decoded.
#[derive(Debug, PartialEq, Eq)]
#[allow(inconsistent_fields)]
pub enum DeserializationError {
    /// The bytes of the column are no complete length-prefixed region.
    RawColumnDeserializationFailed {
        column_index: usize,
        column_name: String,
        err: LowLevelDeserializationError,
    },
    /// The column's bytes are no value of the Rust type asked for.
    ColumnDeserializationFailed {
        column_index: usize,
        column_name: String,
        err: ValueDeserializationError,
    },
}

/// A [`DeserializationError`] with the column's name as a sequence of
/// characters.
#[allow(inconsistent_fields)]
pub enum DeserializationErrorView {
    RawColumnDeserializationFailed {
        column_index: usize,
        column_name: Seq<char>,
        err: LowLevelDeserializationError,
    },
    ColumnDeserializationFailed {
        column_index: usize,
        column_name: Seq<char>,
        err: ValueDeserializationError,
    },
}

impl View for DeserializationError {
    type V = DeserializationErrorView;

    open spec fn view(&self) -> DeserializationErrorView {
        match *self {
            DeserializationError::RawColumnDeserializationFailed {
                column_index,
                column_name,
                err,
            } => DeserializationErrorView::RawColumnDeserializationFailed {
                column_index,
                column_name: column_name@,
                err,
            },
            DeserializationError::ColumnDeserializationFailed {
                column_index,
                column_name,
                err,
            } => DeserializationErrorView::ColumnDeserializationFailed {
                column_index,
                column_name: column_name@,
                err,
            },
        }
    }
}

/// One cell of a row, not yet decoded.
#[derive(Clone, Copy, Debug)]
pub struct RawColumn<'frame, 'metadata> {
    /// The column's position in the row.
    pub index: usize,
    /// The column's name and declared type.
    pub spec: &'metadata ColumnSpec<'metadata>,
    /// The cell's bytes; `None` for a null.
    pub slice: Option<FrameSlice<'frame>>,
}

/// A [`RawColumn`] with its bytes as a sequence.
pub struct RawColumnView<'metadata> {
    pub index: usize,
    pub spec: ColumnSpec<'metadata>,
    pub slice: Option<Seq<u8>>,
}

impl<'frame, 'metadata> View for RawColumn<'frame, 'metadata> {
    type V = RawColumnView<'metadata>;

    open spec fn view(&self) -> RawColumnView<'metadata> {
        RawColumnView { index: self.index, spec: *self.spec, slice: cell_bytes(self.slice) }
    }
}

/// What one advance of a column iterator hands out, as values.
pub open spec fn column_item_view<'frame, 'metadata>(
    item: Option<Result<RawColumn<'frame, 'metadata>, DeserializationError>>,
) -> Option<Result<RawColumnView<'metadata>, DeserializationErrorView>> {
    match item {
        None => None,
        Some(Ok(column)) => Some(Ok(column@)),
        Some(Err(e)) => Some(Err(e@)),
    }
}

/// The state of a walk over the cells of one row: the columns of the row,
/// how many of them have been handed out, and the bytes that follow.
pub struct ColumnCursor<'metadata> {
    pub specs: Seq<ColumnSpec<'metadata>>,
    pub index: nat,
    pub bytes: Seq<u8>,
}

impl<'metadata> ColumnCursor<'metadata> {
    /// A cursor in front of the first cell of a row that starts at `bytes`.
    pub open spec fn at_row_start(specs: Seq<ColumnSpec<'metadata>>, bytes: Seq<u8>) -> Self {
        ColumnCursor { specs, index: 0, bytes }
    }

    /// No more columns are handed out than the row has.
    pub open spec fn wf(self) -> bool {
        self.index <= self.specs.len()
    }

    /// The number of columns not handed out yet.
    pub open spec fn columns_remaining(self) -> nat {
        (self.specs.len() - self.index) as nat
    }

    /// What the next advance hands out: nothing once every column has been
    /// handed out, else the next cell, or the error that names the column
    /// whose bytes are incomplete.
    pub open spec fn item(self) -> Option<Result<RawColumnView<'metadata>, DeserializationErrorView>> {
        if self.index >= self.specs.len() {
            None
        } else {
            let spec = self.specs[self.index as int];
            match read_cell(self.bytes) {
                Ok((cell, _)) => Some(
                    Ok(RawColumnView { index: self.index as usize, spec, slice: cell }),
                ),
                Err(err) => Some(
                    Err(
                        DeserializationErrorView::RawColumnDeserializationFailed {
                            column_index: self.index as usize,
                            column_name: spec.name@,
                            err,
                        },
                    ),
                ),
            }
        }
    }

    /// The cursor after the next advance. A column counts as handed out
    /// whether or not its bytes could be read; the bytes move on only if
    /// they could.
    pub open spec fn advanced(self) -> Self {
        if self.index >= self.specs.len() {
            self
        } else {
            ColumnCursor {
                specs: self.specs,
                index: self.index + 1,
                bytes: match read_cell(self.bytes) {
                    Ok((_, rest)) => rest,
                    Err(_) => self.bytes,
                },
            }
        }
    }
}

/// Walks the cells of one row, one column spec at a time.
#[derive(Clone, Copy, Debug)]
pub struct ColumnIterator<'frame, 'metadata> {
    specs: &'metadata [ColumnSpec<'metadata>],
    index: usize,
    slice: FrameSlice<'frame>,
}

impl<'frame, 'metadata> View for ColumnIterator<'frame, 'metadata> {
    type V = ColumnCursor<'metadata>;

    closed spec fn view(&self) -> ColumnCursor<'metadata> {
        ColumnCursor { specs: self.specs@, index: self.index as nat, bytes: self.slice@ }
    }
}

impl<'frame, 'metadata> ColumnIterator<'frame, 'metadata> {
    #[verifier::type_invariant]
    spec fn index_in_bounds(self) -> bool {
        self.index <= self.specs@.len()
    }

    /// An iterator over the cells of the row that starts at `slice`.
    pub fn new(specs: &'metadata [ColumnSpec<'metadata>], slice: FrameSlice<'frame>) -> (iter: Self)
        ensures
            iter@ == ColumnCursor::at_row_start(specs@, slice@),
    {
        ColumnIterator { specs, index: 0, slice }
    }

    /// The number of columns that the iterator has not handed out yet.
    pub fn columns_remaining(&self) -> (count: usize)
        ensures
            self@.wf(),
            count == self@.columns_remaining(),
    {
        proof {
            use_type_invariant(self);
        }
        self.specs.len() - self.index
    }

    /// Hands out the next cell of the row.
    pub fn next(&mut self) -> (item: Option<
        Result<RawColumn<'frame, 'metadata>, DeserializationError>,
    >)
        ensures
            column_item_view(item) == old(self)@.item(),
            final(self)@ == old(self)@.advanced(),
            final(self)@.wf(),
    {
        proof {
            use_type_invariant(&*self);
        }
        if self.index >= self.specs.len() {
            return None;
        }
        let column_index = self.index;
        let spec = &self.specs[column_index];
        self.index = column_index + 1;
        let mut slice = self.slice;
        let cell = slice.read_cql_bytes();
        self.slice = slice;
        match cell {
            Ok(slice) => Some(Ok(RawColumn { index: column_index, spec, slice })),
            Err(err) => Some(
                Err(
                    DeserializationError::RawColumnDeserializationFailed {
                        column_index,
                        column_name: spec.name().to_owned(),
                        err,
                    },
                ),
            ),
        }
    }
}

} // verus!

verus! {

/// Why a record type cannot hold the rows of a result.
#[derive(Debug, PartialEq, Eq)]
pub enum TypeCheckError {
    /// The record has `rust_cols` fields, the rows have `cql_cols` columns.
    WrongColumnCount { rust_cols: usize, cql_cols: usize },
    /// The field at `column_index` cannot hold the column's declared type.
    ColumnTypeCheckFailed { column_index: usize, column_name: String, err: MismatchedType },
}

/// A [`TypeCheckError`] with the column's name as a sequence of characters.
pub enum TypeCheckErrorView {
    WrongColumnCount { rust_cols: usize, cql_cols: usize },
    ColumnTypeCheckFailed { column_index: usize, column_name: Seq<char>, err: MismatchedType },
}

impl View for TypeCheckError {
    type V = TypeCheckErrorView;

    open spec fn view(&self) -> TypeCheckErrorView {
        match *self {
            TypeCheckError::WrongColumnCount {
                rust_cols,
                cql_cols,
            } => TypeCheckErrorView::WrongColumnCount { rust_cols, cql_cols },
            TypeCheckError::ColumnTypeCheckFailed {
                column_index,
                column_name,
                err,
            } => TypeCheckErrorView::ColumnTypeCheckFailed {
                column_index,
                column_name: column_name@,
                err,
            },
        }
    }
}

/// The verdict of a type check, as values.
pub open spec fn verdict_view(verdict: Result<(), TypeCheckError>) -> Result<
    (),
    TypeCheckErrorView,
> {
    match verdict {
        Ok(_) => Ok(()),
        Err(e) => Err(e@),
    }
}

/// A record type that whole rows can be decoded into.
///
/// `type_check_spec` and `deserialize_spec` say what the two executable
/// methods compute: an implementation is held to them, so both are functions
/// of the column specs and of the row's bytes alone.
pub trait DeserializeRow<'frame, 'metadata>: Sized + View {
    /// Whether rows with the columns `specs` fit this record type, and if
    /// not, why not.
    spec fn type_check_spec(specs: Seq<ColumnSpec<'metadata>>) -> Result<(), TypeCheckErrorView>;

    /// The record that the row under `row` stands for, or why it stands for
    /// none.
    spec fn deserialize_spec(row: ColumnCursor<'metadata>) -> Result<
        Self::V,
        DeserializationErrorView,
    >;

    /// Checks that rows with the columns `specs` fit this record type.
    fn type_check(specs: &'metadata [ColumnSpec<'metadata>]) -> (verdict: Result<
        (),
        TypeCheckError,
    >)
        ensures
            verdict_view(verdict) == Self::type_check_spec(specs@),
    ;

    /// Decodes one row. The row's columns must have passed `type_check`, and
    /// the iterator must stand in front of the row's first cell.
    fn deserialize(row: ColumnIterator<'frame, 'metadata>) -> (record: Result<
        Self,
        DeserializationError,
    >)
        requires
            Self::type_check_spec(row@.specs) is Ok,
            row@.index == 0,
        ensures
            match Self::deserialize_spec(row@) {
                Ok(x) => record matches Ok(y) && y@ == x,
                Err(e) => record matches Err(f) && f@ == e,
            },
    ;
}

/// The verdict on the column at `index` for a field of type `T`.
pub open spec fn column_type_check<'frame, 'metadata, T: DeserializeValue<'frame>>(
    specs: Seq<ColumnSpec<'metadata>>,
    index: int,
) -> Result<(), TypeCheckErrorView> {
    if specs[index].typ == T::accepted_type() {
        Ok(())
    } else {
        Err(
            TypeCheckErrorView::ColumnTypeCheckFailed {
                column_index: index as usize,
                column_name: specs[index].name@,
                err: MismatchedType { expected: T::accepted_type(), got: specs[index].typ },
            },
        )
    }
}

/// The value of type `T` that the cell stands for which `item` hands out, or
/// the error in its place.
pub open spec fn column_value<'frame, 'metadata, T: DeserializeValue<'frame>>(
    item: Option<Result<RawColumnView<'metadata>, DeserializationErrorView>>,
) -> Result<T::V, DeserializationErrorView>
    recommends
        item is Some,
{
    match item->0 {
        Err(e) => Err(e),
        Ok(column) => match T::decode(column.slice) {
            Ok(value) => Ok(value),
            Err(err) => Err(
                DeserializationErrorView::ColumnDeserializationFailed {
                    column_index: column.index,
                    column_name: column.spec.name@,
                    err,
                },
            ),
        },
    }
}

/// Checks the column at `index` for a field of type `T`.
fn check_column<'frame, 'metadata, T: DeserializeValue<'frame>>(
    specs: &'metadata [ColumnSpec<'metadata>],
    index: usize,
) -> (verdict: Result<(), TypeCheckError>)
    requires
        index < specs@.len(),
    ensures
        verdict_view(verdict) == column_type_check::<T>(specs@, index as int),
{
    match T::type_check(specs[index].typ()) {
        Ok(_) => Ok(()),
        Err(err) => Err(
            TypeCheckError::ColumnTypeCheckFailed {
                column_index: index,
                column_name: specs[index].name().to_owned(),
                err,
            },
        ),
    }
}

/// Takes the next cell off `row` and decodes it into a `T`.
fn next_value<'frame, 'metadata, T: DeserializeValue<'frame>>(
    row: &mut ColumnIterator<'frame, 'metadata>,
) -> (value: Result<T, DeserializationError>)
    requires
        old(row)@.index < old(row)@.specs.len(),
    ensures
        final(row)@ == old(row)@.advanced(),
        match column_value::<T>(old(row)@.item()) {
            Ok(x) => value matches Ok(y) && y@ == x,
            Err(e) => value matches Err(f) && f@ == e,
        },
{
    match row.next() {
        Some(Ok(column)) => match T::deserialize(column.slice) {
            Ok(value) => Ok(value),
            Err(err) => Err(
                DeserializationError::ColumnDeserializationFailed {
                    column_index: column.index,
                    column_name: column.spec.name().to_owned(),
                    err,
                },
            ),
        },
        Some(Err(e)) => Err(e),
        None => vstd::pervasive::unreached(),
    }
}

/// A row of two columns.
impl<'frame, 'metadata, T0, T1> DeserializeRow<'frame, 'metadata> for (T0, T1) where
    T0: DeserializeValue<'frame>,
    T1: DeserializeValue<'frame>,
 {
    open spec fn type_check_spec(specs: Seq<ColumnSpec<'metadata>>) -> Result<
        (),
        TypeCheckErrorView,
    > {
        if specs.len() != 2 {
            Err(
                TypeCheckErrorView::WrongColumnCount {
                    rust_cols: 2,
                    cql_cols: specs.len() as usize,
                },
            )
        } else if column_type_check::<T0>(specs, 0) is Err {
            column_type_check::<T0>(specs, 0)
        } else {
            column_type_check::<T1>(specs, 1)
        }
    }

    open spec fn deserialize_spec(row: ColumnCursor<'metadata>) -> Result<
        (T0::V, T1::V),
        DeserializationErrorView,
    > {
        match column_value::<T0>(row.item()) {
            Err(e) => Err(e),
            Ok(v0) => match column_value::<T1>(row.advanced().item()) {
                Err(e) => Err(e),
                Ok(v1) => Ok((v0, v1)),
            },
        }
    }

    fn type_check(specs: &'metadata [ColumnSpec<'metadata>]) -> (verdict: Result<
        (),
        TypeCheckError,
    >) {
        if specs.len() != 2 {
            return Err(TypeCheckError::WrongColumnCount { rust_cols: 2, cql_cols: specs.len() });
        }
        match check_column::<T0>(specs, 0) {
            Ok(_) => check_column::<T1>(specs, 1),
            Err(e) => Err(e),
        }
    }

    fn deserialize(row: ColumnIterator<'frame, 'metadata>) -> (record: Result<
        Self,
        DeserializationError,
    >) {
        let mut row = row;
        let v0 = match next_value::<T0>(&mut row) {
            Ok(v) => v,
            Err(e) => { return Err(e); },
        };
        let v1 = match next_value::<T1>(&mut row) {
            Ok(v) => v,
            Err(e) => { return Err(e); },
        };
        Ok((v0, v1))
    }
}

impl<'metadata> ColumnCursor<'metadata> {
    /// Everything that the walk hands out from here on, in order.
    pub open spec fn items(self) -> Seq<Result<RawColumnView<'metadata>, DeserializationErrorView>>
        decreases self.specs.len() - self.index,
    {
        if self.index >= self.specs.len() {
            Seq::empty()
        } else {
            seq![self.item()->0] + self.advanced().items()
        }
    }
}

/// A walk hands out one item for each column that is left, and no more.
pub proof fn lemma_column_items_len(cursor: ColumnCursor)
    requires
        cursor.wf(),
    ensures
        cursor.items().len() == cursor.columns_remaining(),
    decreases cursor.specs.len() - cursor.index,
{
    if cursor.index < cursor.specs.len() {
        lemma_column_items_len(cursor.advanced());
    }
}

/// The bytes that stand for a row on the wire: its cells, one behind the
/// other.
pub open spec fn encode_row(cells: Seq<Option<Seq<u8>>>) -> Seq<u8>
    decreases cells.len(),
{
    if cells.len() == 0 {
        Seq::empty()
    } else {
        encode_cell(cells.first()) + encode_row(cells.drop_first())
    }
}

/// Whether the wire format has room for every cell of the row.
pub open spec fn row_encodable(cells: Seq<Option<Seq<u8>>>) -> bool {
    forall|i: int| 0 <= i < cells.len() ==> encodable(#[trigger] cells[i])
}

/// A walk over the bytes of an encoded row hands out the cells that were
/// encoded, in order, each with its position and its column spec, and ends
/// in front of what follows the row.
pub proof fn lemma_encoded_row_items(
    cursor: ColumnCursor,
    cells: Seq<Option<Seq<u8>>>,
    tail: Seq<u8>,
)
    requires
        cursor.wf(),
        cells.len() == cursor.columns_remaining(),
        row_encodable(cells),
        cursor.bytes == encode_row(cells) + tail,
    ensures
        cursor.items().len() == cells.len(),
        forall|k: int|
            0 <= k < cells.len() ==> #[trigger] cursor.items()[k] == Ok::<
                _,
                DeserializationErrorView,
            >(
                RawColumnView {
                    index: (cursor.index + k) as usize,
                    spec: cursor.specs[cursor.index + k],
                    slice: cells[k],
                },
            ),
    decreases cells.len(),
{
    if cells.len() > 0 {
        let rest = cells.drop_first();
        let behind = encode_row(rest) + tail;
        assert(cursor.bytes =~= encode_cell(cells.first()) + behind);
        assert(encodable(cells[0]));
        lemma_read_encoded_cell(cells.first(), behind);
        let next = cursor.advanced();
        assert(row_encodable(rest)) by {
            assert forall|i: int| 0 <= i < rest.len() implies encodable(#[trigger] rest[i]) by {
                assert(rest[i] == cells[i + 1]);
            }
        }
        lemma_encoded_row_items(next, rest, tail);
        assert forall|k: int| 0 <= k < cells.len() implies #[trigger] cursor.items()[k] == Ok::<
            _,
            DeserializationErrorView,
        >(
            RawColumnView {
                index: (cursor.index + k) as usize,
                spec: cursor.specs[cursor.index + k],
                slice: cells[k],
            },
        ) by {
            if k > 0 {
                assert(cursor.items()[k] == next.items()[k - 1]);
                assert(rest[k - 1] == cells[k]);
            }
        }
    }
}

} // verus!
