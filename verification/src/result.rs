//! Iterators over the rows of a result.
use crate::frame::{
    encodable, encode_cell, lemma_read_encoded_cell, read_cell, FrameSlice,
    LowLevelDeserializationError,
};
use crate::metadata::ColumnSpec;
use crate::row::{
    column_value, encode_row, lemma_encoded_row_items, row_encodable, ColumnCursor, ColumnIterator,
    DeserializationError, DeserializationErrorView, DeserializeRow, RawColumnView, TypeCheckError,
    verdict_view,
};
use crate::value::DeserializeValue;
use std::marker::PhantomData;
use vstd::prelude::*;

verus! {

/// Where and why skipping over the cells of a row stopped.
pub struct SkipFailure {
    /// The number of cells that were skipped before the one that failed.
    pub column: nat,
    /// Why the cell could not be read.
    pub err: LowLevelDeserializationError,
    /// The bytes in front of the cell that could not be read.
    pub at: Seq<u8>,
}

/// Skips `count` cells off the front of `bytes`: the bytes that follow them,
/// or the first cell that is incomplete.
pub open spec fn skip_cells(bytes: Seq<u8>, count: nat) -> Result<Seq<u8>, SkipFailure>
    decreases count,
{
    if count == 0 {
        Ok(bytes)
    } else {
        match read_cell(bytes) {
            Err(err) => Err(SkipFailure { column: 0, err, at: bytes }),
            Ok((_, rest)) => match skip_cells(rest, (count - 1) as nat) {
                Ok(end) => Ok(end),
                Err(f) => Err(SkipFailure { column: f.column + 1, err: f.err, at: f.at }),
            },
        }
    }
}

/// The outcome of a skip that has `done` cells behind it already.
pub open spec fn skip_after(done: nat, outcome: Result<Seq<u8>, SkipFailure>) -> Result<
    Seq<u8>,
    SkipFailure,
> {
    match outcome {
        Ok(end) => Ok(end),
        Err(f) => Err(SkipFailure { column: f.column + done, err: f.err, at: f.at }),
    }
}

/// Skipping `count` cells is skipping `done` of them and then the rest.
pub proof fn lemma_skip_cells_split(bytes: Seq<u8>, done: nat, count: nat)
    requires
        done <= count,
    ensures
        skip_cells(bytes, count) == match skip_cells(bytes, done) {
            Ok(mid) => skip_after(done, skip_cells(mid, (count - done) as nat)),
            Err(f) => Err::<Seq<u8>, _>(f),
        },
    decreases done,
{
    if done == 0 {
        assert(skip_after(0, skip_cells(bytes, count)) == skip_cells(bytes, count));
    } else {
        match read_cell(bytes) {
            Err(_) => {},
            Ok((_, rest)) => {
                lemma_skip_cells_split(rest, (done - 1) as nat, (count - 1) as nat);
            },
        }
    }
}

/// The state of a walk over the rows of a result: the columns of each row,
/// the number of rows still owed, and the bytes not walked over yet.
pub struct RowCursor<'metadata> {
    pub specs: Seq<ColumnSpec<'metadata>>,
    pub remaining: nat,
    pub bytes: Seq<u8>,
}

impl<'metadata> RowCursor<'metadata> {
    /// What the next advance hands out: nothing once no row is owed, else a
    /// cursor in front of the row's first cell if all cells of the row are
    /// complete, else the error that names the first incomplete cell.
    pub open spec fn item(self) -> Option<Result<ColumnCursor<'metadata>, DeserializationErrorView>> {
        if self.remaining == 0 {
            None
        } else {
            match skip_cells(self.bytes, self.specs.len()) {
                Ok(_) => Some(Ok(ColumnCursor::at_row_start(self.specs, self.bytes))),
                Err(f) => Some(
                    Err(
                        DeserializationErrorView::RawColumnDeserializationFailed {
                            column_index: f.column as usize,
                            column_name: self.specs[f.column as int].name@,
                            err: f.err,
                        },
                    ),
                ),
            }
        }
    }

    /// The cursor after the next advance: one row less is owed, and the bytes
    /// start behind the row, or in front of its first incomplete cell.
    pub open spec fn advanced(self) -> Self {
        if self.remaining == 0 {
            self
        } else {
            RowCursor {
                specs: self.specs,
                remaining: (self.remaining - 1) as nat,
                bytes: match skip_cells(self.bytes, self.specs.len()) {
                    Ok(end) => end,
                    Err(f) => f.at,
                },
            }
        }
    }

    /// Everything that the walk hands out from here on, in order.
    pub open spec fn items(self) -> Seq<Result<ColumnCursor<'metadata>, DeserializationErrorView>>
        decreases self.remaining,
    {
        if self.remaining == 0 {
            Seq::empty()
        } else {
            seq![self.item()->0] + self.advanced().items()
        }
    }
}

/// What one advance of a row iterator hands out, as values.
pub open spec fn row_item_view<'frame, 'metadata>(
    item: Option<Result<ColumnIterator<'frame, 'metadata>, DeserializationError>>,
) -> Option<Result<ColumnCursor<'metadata>, DeserializationErrorView>> {
    match item {
        None => None,
        Some(Ok(row)) => Some(Ok(row@)),
        Some(Err(e)) => Some(Err(e@)),
    }
}

/// Iterates over the whole result, returning raw rows.
#[derive(Debug)]
pub struct RawRowIterator<'frame, 'metadata> {
    specs: &'metadata [ColumnSpec<'metadata>],
    remaining: usize,
    slice: FrameSlice<'frame>,
}

impl<'frame, 'metadata> View for RawRowIterator<'frame, 'metadata> {
    type V = RowCursor<'metadata>;

    closed spec fn view(&self) -> RowCursor<'metadata> {
        RowCursor { specs: self.specs@, remaining: self.remaining as nat, bytes: self.slice@ }
    }
}

impl<'frame, 'metadata> RawRowIterator<'frame, 'metadata> {
    /// Creates a new iterator over raw rows from a serialized response.
    ///
    /// - `remaining` - number of the remaining rows in the serialized response,
    /// - `specs` - information about columns of the serialized response,
    /// - `slice` - a [FrameSlice] that points to the serialized rows data.
    #[inline]
    pub fn new(
        remaining: usize,
        specs: &'metadata [ColumnSpec<'metadata>],
        slice: FrameSlice<'frame>,
    ) -> (iter: Self)
        ensures
            iter@ == (RowCursor { specs: specs@, remaining: remaining as nat, bytes: slice@ }),
    {
        Self { specs, remaining, slice }
    }

    /// Returns information about the columns of rows that are iterated over.
    #[inline]
    pub fn specs(&self) -> (specs: &'metadata [ColumnSpec<'metadata>])
        ensures
            specs@ == self@.specs,
    {
        self.specs
    }

    /// Returns the remaining number of rows that this iterator is supposed
    /// to return.
    #[inline]
    pub fn rows_remaining(&self) -> (remaining: usize)
        ensures
            remaining == self@.remaining,
    {
        self.remaining
    }

    /// Hands out the next row and moves behind it, whether or not the caller
    /// reads the row's cells.
    #[inline]
    pub fn next(&mut self) -> (item: Option<
        Result<ColumnIterator<'frame, 'metadata>, DeserializationError>,
    >)
        ensures
            row_item_view(item) == old(self)@.item(),
            final(self)@ == old(self)@.advanced(),
    {
        let ghost before = self@;
        match self.remaining.checked_sub(1) {
            Some(remaining) => {
                self.remaining = remaining;
            },
            None => {
                return None;
            },
        }
        let iter = ColumnIterator::new(self.specs, self.slice);

        // Skip the row here, manually
        let count = self.specs.len();
        let mut slice = self.slice;
        let mut column_index: usize = 0;
        while column_index < count
            invariant
                column_index <= count,
                count == before.specs.len(),
                before == old(self)@,
                before.remaining > 0,
                self@.specs == before.specs,
                self@.remaining == before.remaining - 1,
                iter@ == ColumnCursor::at_row_start(before.specs, before.bytes),
                skip_cells(before.bytes, column_index as nat) == Ok::<_, SkipFailure>(slice@),
            decreases count - column_index,
        {
            proof {
                lemma_skip_cells_split(before.bytes, column_index as nat, (column_index + 1) as nat);
                lemma_skip_cells_split(before.bytes, column_index as nat, count as nat);
                reveal_with_fuel(skip_cells, 2);
            }
            if let Err(err) = slice.read_cql_bytes() {
                self.slice = slice;
                return Some(
                    Err(
                        DeserializationError::RawColumnDeserializationFailed {
                            column_index,
                            column_name: self.specs[column_index].name().to_owned(),
                            err,
                        },
                    ),
                );
            }
            column_index += 1;
        }
        self.slice = slice;
        Some(Ok(iter))
    }

    /// The number of items that the iterator will still hand out, as a lower
    /// and an upper bound. Both are exact.
    #[inline]
    pub fn size_hint(&self) -> (hint: (usize, Option<usize>))
        ensures
            hint.0 == self@.remaining,
            hint.1 == Some(hint.0),
    {
        (self.remaining, Some(self.remaining))
    }
}

/// What one advance of a typed iterator hands out when the raw iterator
/// under it stands at `cursor`: the record that the next raw row stands for,
/// or the error in the row's place.
pub open spec fn typed_item<'frame, 'metadata, R: DeserializeRow<'frame, 'metadata>>(
    cursor: RowCursor<'metadata>,
) -> Option<Result<R::V, DeserializationErrorView>> {
    match cursor.item() {
        None => None,
        Some(Err(e)) => Some(Err(e)),
        Some(Ok(row)) => Some(R::deserialize_spec(row)),
    }
}

/// A typed version of [RawRowIterator] which deserializes the rows before
/// returning them.
#[derive(Debug)]
pub struct TypedRowIterator<'frame, 'metadata, R> where R: DeserializeRow<'frame, 'metadata> {
    inner: RawRowIterator<'frame, 'metadata>,
    _phantom: PhantomData<R>,
}

impl<'frame, 'metadata, R> View for TypedRowIterator<'frame, 'metadata, R> where
    R: DeserializeRow<'frame, 'metadata>,
 {
    type V = RowCursor<'metadata>;

    /// The state of the raw iterator underneath.
    closed spec fn view(&self) -> RowCursor<'metadata> {
        self.inner@
    }
}

impl<'frame, 'metadata, R> TypedRowIterator<'frame, 'metadata, R> where
    R: DeserializeRow<'frame, 'metadata>,
 {
    /// The record type has been checked against the columns.
    #[verifier::type_invariant]
    spec fn type_checked(self) -> bool {
        R::type_check_spec(self.inner@.specs) is Ok
    }

    /// Creates a new [TypedRowIterator] from given [RawRowIterator].
    ///
    /// Calls `R::type_check` and fails if the type check fails.
    #[inline]
    pub fn new(raw: RawRowIterator<'frame, 'metadata>) -> (iter: Result<Self, TypeCheckError>)
        ensures
            match R::type_check_spec(raw@.specs) {
                Ok(_) => iter matches Ok(typed) && typed@ == raw@,
                Err(e) => iter matches Err(f) && f@ == e,
            },
    {
        match R::type_check(raw.specs()) {
            Ok(_) => Ok(Self { inner: raw, _phantom: PhantomData }),
            Err(e) => Err(e),
        }
    }

    /// Returns information about the columns of rows that are iterated over.
    #[inline]
    pub fn specs(&self) -> (specs: &'metadata [ColumnSpec<'metadata>])
        ensures
            specs@ == self@.specs,
            R::type_check_spec(specs@) is Ok,
    {
        proof {
            use_type_invariant(self);
        }
        self.inner.specs()
    }

    /// Returns the remaining number of rows that this iterator is supposed
    /// to return.
    #[inline]
    pub fn rows_remaining(&self) -> (remaining: usize)
        ensures
            remaining == self@.remaining,
    {
        self.inner.rows_remaining()
    }

    /// Hands out the next row as a record and moves behind the row.
    #[inline]
    pub fn next(&mut self) -> (item: Option<Result<R, DeserializationError>>)
        ensures
            final(self)@ == old(self)@.advanced(),
            match typed_item::<R>(old(self)@) {
                None => item is None,
                Some(Ok(x)) => item matches Some(Ok(y)) && y@ == x,
                Some(Err(e)) => item matches Some(Err(f)) && f@ == e,
            },
    {
        proof {
            use_type_invariant(&*self);
        }
        let mut inner = RawRowIterator {
            specs: self.inner.specs,
            remaining: self.inner.remaining,
            slice: self.inner.slice,
        };
        let raw = inner.next();
        self.inner = inner;
        match raw {
            None => None,
            Some(Err(e)) => Some(Err(e)),
            Some(Ok(row)) => Some(R::deserialize(row)),
        }
    }

    /// The number of items that the iterator will still hand out, as a lower
    /// and an upper bound. Both are exact.
    #[inline]
    pub fn size_hint(&self) -> (hint: (usize, Option<usize>))
        ensures
            hint.0 == self@.remaining,
            hint.1 == Some(hint.0),
    {
        self.inner.size_hint()
    }
}

/// The walk hands out exactly as many items as rows are owed, whatever the
/// bytes hold.
pub proof fn lemma_row_items_len(cursor: RowCursor)
    ensures
        cursor.items().len() == cursor.remaining,
    decreases cursor.remaining,
{
    if cursor.remaining > 0 {
        lemma_row_items_len(cursor.advanced());
    }
}

/// The item at `i` is what the advance after `i` earlier ones hands out.
pub proof fn lemma_row_items_index(cursor: RowCursor, i: int)
    requires
        0 <= i < cursor.remaining,
    ensures
        i == 0 ==> cursor.items()[i] == cursor.item()->0,
        i > 0 ==> cursor.items()[i] == cursor.advanced().items()[i - 1],
{
    lemma_row_items_len(cursor.advanced());
}

/// A skip that fails stops in front of a cell that cannot be read, and a
/// skip that starts there fails at once for the same reason.
pub proof fn lemma_skip_failure_repeats(bytes: Seq<u8>, count: nat)
    ensures
        skip_cells(bytes, count) matches Err(f) ==> {
            &&& f.column < count
            &&& read_cell(f.at) == Err::<(Option<Seq<u8>>, Seq<u8>), _>(f.err)
            &&& skip_cells(f.at, count) == Err::<Seq<u8>, _>(
                SkipFailure { column: 0, err: f.err, at: f.at },
            )
        },
    decreases count,
{
    if count > 0 {
        match read_cell(bytes) {
            Err(_) => {},
            Ok((_, rest)) => {
                lemma_skip_failure_repeats(rest, (count - 1) as nat);
            },
        }
    }
}

/// The bytes behind `rows` complete rows of `columns` cells each at the
/// front of `bytes`, or `None` if the bytes hold fewer complete rows.
pub open spec fn skip_rows(bytes: Seq<u8>, columns: nat, rows: nat) -> Option<Seq<u8>>
    decreases rows,
{
    if rows == 0 {
        Some(bytes)
    } else {
        match skip_cells(bytes, columns) {
            Ok(rest) => skip_rows(rest, columns, (rows - 1) as nat),
            Err(_) => None,
        }
    }
}

/// Where the bytes hold `complete` complete rows and no more, the walk hands
/// out these rows, each starting where the one before it ends, and an error
/// in place of every further row that is owed: never a row behind an error,
/// and in all exactly as many items as rows are owed.
pub proof fn lemma_rows_then_errors(cursor: RowCursor, complete: nat)
    requires
        complete <= cursor.remaining,
        skip_rows(cursor.bytes, cursor.specs.len(), complete) is Some,
        complete < cursor.remaining ==> skip_rows(
            cursor.bytes,
            cursor.specs.len(),
            complete + 1,
        ) is None,
    ensures
        cursor.items().len() == cursor.remaining,
        forall|i: int|
            0 <= i < complete ==> #[trigger] cursor.items()[i] == Ok::<_, DeserializationErrorView>(
                ColumnCursor::at_row_start(
                    cursor.specs,
                    skip_rows(cursor.bytes, cursor.specs.len(), i as nat)->0,
                ),
            ),
        forall|i: int| complete <= i < cursor.remaining ==> #[trigger] cursor.items()[i] is Err,
    decreases cursor.remaining,
{
    lemma_row_items_len(cursor);
    if cursor.remaining > 0 {
        let columns = cursor.specs.len();
        let next = cursor.advanced();
        lemma_skip_failure_repeats(cursor.bytes, columns);
        reveal_with_fuel(skip_rows, 2);
        if complete == 0 {
            lemma_rows_then_errors(next, 0);
        } else {
            lemma_rows_then_errors(next, (complete - 1) as nat);
        }
        assert forall|i: int| 0 <= i < complete implies #[trigger] cursor.items()[i] == Ok::<
            _,
            DeserializationErrorView,
        >(
            ColumnCursor::at_row_start(
                cursor.specs,
                skip_rows(cursor.bytes, cursor.specs.len(), i as nat)->0,
            ),
        ) by {
            lemma_row_items_index(cursor, i);
            if i > 0 {
                assert(skip_rows(cursor.bytes, columns, i as nat) == skip_rows(
                    next.bytes,
                    columns,
                    (i - 1) as nat,
                ));
            }
        }
        assert forall|i: int| complete <= i < cursor.remaining implies #[trigger] cursor.items()[i]
            is Err by {
            lemma_row_items_index(cursor, i);
        }
    }
}

/// Where the bytes are short of the rows that are owed by one row, the walk
/// hands out every complete row and then exactly one error, which is its
/// last item.
pub proof fn lemma_one_row_short(cursor: RowCursor)
    requires
        cursor.remaining > 0,
        skip_rows(cursor.bytes, cursor.specs.len(), (cursor.remaining - 1) as nat) is Some,
        skip_rows(cursor.bytes, cursor.specs.len(), cursor.remaining) is None,
    ensures
        cursor.items().len() == cursor.remaining,
        forall|i: int| 0 <= i < cursor.remaining - 1 ==> #[trigger] cursor.items()[i] is Ok,
        cursor.items().last() is Err,
{
    lemma_rows_then_errors(cursor, (cursor.remaining - 1) as nat);
}

/// Skipping over an encoded row ends in front of what follows it.
pub proof fn lemma_skip_encoded_row(cells: Seq<Option<Seq<u8>>>, tail: Seq<u8>)
    requires
        row_encodable(cells),
    ensures
        skip_cells(encode_row(cells) + tail, cells.len()) == Ok::<_, SkipFailure>(tail),
    decreases cells.len(),
{
    if cells.len() == 0 {
        assert(encode_row(cells) + tail =~= tail);
    } else {
        let rest = cells.drop_first();
        let behind = encode_row(rest) + tail;
        assert(encode_row(cells) + tail =~= encode_cell(cells.first()) + behind);
        assert(encodable(cells[0]));
        lemma_read_encoded_cell(cells.first(), behind);
        assert(row_encodable(rest)) by {
            assert forall|i: int| 0 <= i < rest.len() implies encodable(
                #[trigger] rest[i],
            ) by {
                assert(rest[i] == cells[i + 1]);
            }
        }
        lemma_skip_encoded_row(rest, tail);
    }
}

/// The bytes that stand for rows on the wire: the rows, one behind the
/// other.
pub open spec fn encode_rows(rows: Seq<Seq<Option<Seq<u8>>>>) -> Seq<u8>
    decreases rows.len(),
{
    if rows.len() == 0 {
        Seq::empty()
    } else {
        encode_row(rows.first()) + encode_rows(rows.drop_first())
    }
}

/// Whether `rows` can be the rows of a result with `columns` columns: each
/// has that many cells, and the wire format has room for each cell.
pub open spec fn rows_encodable(rows: Seq<Seq<Option<Seq<u8>>>>, columns: nat) -> bool {
    forall|i: int|
        0 <= i < rows.len() ==> (#[trigger] rows[i]).len() == columns && row_encodable(rows[i])
}

/// What a walk over the cells of a row hands out where the row holds
/// `cells`: each cell with its position and its column spec.
pub open spec fn raw_columns<'metadata>(
    specs: Seq<ColumnSpec<'metadata>>,
    cells: Seq<Option<Seq<u8>>>,
) -> Seq<Result<RawColumnView<'metadata>, DeserializationErrorView>> {
    Seq::new(
        cells.len(),
        |k: int| Ok(RawColumnView { index: k as usize, spec: specs[k], slice: cells[k] }),
    )
}

/// Decoding gives back what was encoded: a walk over the encoded bytes of
/// `rows`, told to expect as many rows as there are, hands out one row for
/// each of them, in order and without an error, and the walk over the cells
/// of each hands out the cells that were encoded.
pub proof fn lemma_encoded_rows_decode(
    specs: Seq<ColumnSpec>,
    rows: Seq<Seq<Option<Seq<u8>>>>,
    tail: Seq<u8>,
)
    requires
        rows_encodable(rows, specs.len()),
    ensures
        ({
            let cursor = RowCursor {
                specs,
                remaining: rows.len(),
                bytes: encode_rows(rows) + tail,
            };
            &&& cursor.items().len() == rows.len()
            &&& forall|i: int|
                0 <= i < rows.len() ==> (#[trigger] cursor.items()[i] matches Ok(row)
                    && row.items() == raw_columns(specs, rows[i]))
        }),
    decreases rows.len(),
{
    let cursor = RowCursor { specs, remaining: rows.len(), bytes: encode_rows(rows) + tail };
    lemma_row_items_len(cursor);
    if rows.len() > 0 {
        let rest = rows.drop_first();
        let behind = encode_rows(rest) + tail;
        assert(cursor.bytes =~= encode_row(rows.first()) + behind);
        assert(rows[0].len() == specs.len() && row_encodable(rows[0]));
        lemma_skip_encoded_row(rows.first(), behind);
        let row = ColumnCursor::at_row_start(specs, cursor.bytes);
        lemma_encoded_row_items(row, rows.first(), behind);
        assert(row.items() =~= raw_columns(specs, rows[0]));
        assert(rows_encodable(rest, specs.len())) by {
            assert forall|i: int| 0 <= i < rest.len() implies (#[trigger] rest[i]).len()
                == specs.len() && row_encodable(rest[i]) by {
                assert(rest[i] == rows[i + 1]);
            }
        }
        lemma_encoded_rows_decode(specs, rest, tail);
        let next = cursor.advanced();
        assert(next == RowCursor { specs, remaining: rest.len(), bytes: behind });
        assert forall|i: int| 0 <= i < rows.len() implies (#[trigger] cursor.items()[i]
            matches Ok(row) && row.items() == raw_columns(specs, rows[i])) by {
            lemma_row_items_index(cursor, i);
            if i > 0 {
                assert(rest[i - 1] == rows[i]);
            }
        }
    }
}

/// The verdict of a type check rests on the columns alone: run again on the
/// same columns, the check gives the same verdict.
pub proof fn lemma_type_check_repeats<'frame, 'metadata, R: DeserializeRow<'frame, 'metadata>>(
    specs: &'metadata [ColumnSpec<'metadata>],
    first: Result<(), TypeCheckError>,
    second: Result<(), TypeCheckError>,
)
    requires
        call_ensures(R::type_check, (specs,), first),
        call_ensures(R::type_check, (specs,), second),
    ensures
        verdict_view(first) == verdict_view(second),
{
}

/// A typed iterator is made or refused on the columns alone, before any row
/// is looked at: where the record type does not fit the columns, none is
/// made, whatever the rows hold; where it fits, the iterator stands where
/// the raw one stood. Two raw iterators over the same columns fare alike.
pub proof fn lemma_typed_iterator_checks_columns_only<
    'frame,
    'metadata,
    R: DeserializeRow<'frame, 'metadata>,
>(
    raw: RawRowIterator<'frame, 'metadata>,
    other: RawRowIterator<'frame, 'metadata>,
    made: Result<TypedRowIterator<'frame, 'metadata, R>, TypeCheckError>,
    other_made: Result<TypedRowIterator<'frame, 'metadata, R>, TypeCheckError>,
)
    requires
        raw@.specs == other@.specs,
        call_ensures(TypedRowIterator::<'frame, 'metadata, R>::new, (raw,), made),
        call_ensures(TypedRowIterator::<'frame, 'metadata, R>::new, (other,), other_made),
    ensures
        made is Err <==> R::type_check_spec(raw@.specs) is Err,
        made is Err <==> other_made is Err,
        made matches Ok(typed) ==> typed@ == raw@,
        made matches Err(e) ==> other_made matches Err(f) && e@ == f@,
{
}

/// Decoding a row into a pair agrees with decoding its cells one by one:
/// where the raw walk over the row hands out the two cells `first` and
/// `second`, the typed iterator hands out the pair of the values that the
/// two cells stand for, or the error of the first cell that stands for
/// none.
pub proof fn lemma_typed_pair_agrees_with_raw<'frame, 'metadata, T0, T1>(
    cursor: RowCursor<'metadata>,
    row: ColumnCursor<'metadata>,
    first: RawColumnView<'metadata>,
    second: RawColumnView<'metadata>,
) where T0: DeserializeValue<'frame>, T1: DeserializeValue<'frame>
    requires
        cursor.item() == Some(Ok::<_, DeserializationErrorView>(row)),
        row.items() == seq![
            Ok::<_, DeserializationErrorView>(first),
            Ok::<_, DeserializationErrorView>(second),
        ],
    ensures
        typed_item::<(T0, T1)>(cursor) == Some(
            match T0::decode(first.slice) {
                Err(err) => Err(
                    DeserializationErrorView::ColumnDeserializationFailed {
                        column_index: first.index,
                        column_name: first.spec.name@,
                        err,
                    },
                ),
                Ok(v0) => match T1::decode(second.slice) {
                    Err(err) => Err(
                        DeserializationErrorView::ColumnDeserializationFailed {
                            column_index: second.index,
                            column_name: second.spec.name@,
                            err,
                        },
                    ),
                    Ok(v1) => Ok((v0, v1)),
                },
            },
        ),
{
    let items = row.items();
    assert(items.len() == 2);
    assert(items[0] == Ok::<_, DeserializationErrorView>(first));
    assert(items[1] == Ok::<_, DeserializationErrorView>(second));
    assert(row.index < row.specs.len());
    assert(items[0] == row.item()->0);
    let next = row.advanced();
    assert(next.items() =~= items.drop_first());
    assert(next.items()[0] == items[1]);
    assert(next.index < next.specs.len());
}

} // verus!
