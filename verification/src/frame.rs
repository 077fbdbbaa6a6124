//! A cursor over the bytes of one received frame.
use vstd::prelude::*;
use vstd::slice::slice_subrange;

verus! {

/// The value of the four-byte big-endian two's complement integer at the
/// start of `b`.
pub open spec fn be_i32(b: Seq<u8>) -> int
    recommends
        b.len() >= 4,
{
    let u = b[0] as int * 0x100_0000 + b[1] as int * 0x1_0000 + b[2] as int * 0x100 + b[3] as int;
    if u >= 0x8000_0000 {
        u - 0x1_0000_0000
    } else {
        u
    }
}

/// Why a length-prefixed region could not be read.
#[derive(Clone, Copy, Debug, PartialEq, Eq)]
pub enum LowLevelDeserializationError {
    /// The buffer ends inside the four-byte length prefix; `received` bytes
    /// were left.
    LengthPrefixTruncated { received: usize },
    /// The prefix announces `expected` bytes, but only `received` follow it.
    TooFewBytesReceived { expected: usize, received: usize },
}

/// What reading one cell off the front of `s` gives: the cell (`None` for a
/// null or unset marker, which is any negative length) and the bytes that
/// follow it, or the reason why there is no complete cell.
pub open spec fn read_cell(s: Seq<u8>) -> Result<
    (Option<Seq<u8>>, Seq<u8>),
    LowLevelDeserializationError,
> {
    if s.len() < 4 {
        Err(LowLevelDeserializationError::LengthPrefixTruncated { received: s.len() as usize })
    } else {
        let n = be_i32(s);
        if n < 0 {
            Ok((None, s.skip(4)))
        } else if s.len() - 4 < n {
            Err(
                LowLevelDeserializationError::TooFewBytesReceived {
                    expected: n as usize,
                    received: (s.len() - 4) as usize,
                },
            )
        } else {
            Ok((Some(s.subrange(4, 4 + n)), s.skip(4 + n)))
        }
    }
}

/// The bytes of a cell that may be absent.
pub open spec fn cell_bytes(cell: Option<FrameSlice<'_>>) -> Option<Seq<u8>> {
    match cell {
        Some(slice) => Some(slice@),
        None => None,
    }
}

/// A borrowed region of a frame. Reading from it moves its start forward and
/// never copies or changes the bytes.
#[derive(Clone, Copy, Debug)]
pub struct FrameSlice<'frame> {
    frame_subslice: &'frame [u8],
}

impl<'frame> View for FrameSlice<'frame> {
    type V = Seq<u8>;

    /// The bytes that have not been read yet.
    closed spec fn view(&self) -> Seq<u8> {
        self.frame_subslice@
    }
}

impl<'frame> FrameSlice<'frame> {
    /// A slice over all of `frame`.
    pub fn new(frame: &'frame [u8]) -> (slice: Self)
        ensures
            slice@ == frame@,
    {
        FrameSlice { frame_subslice: frame }
    }

    /// Whether every byte has been read.
    pub fn is_empty(&self) -> (empty: bool)
        ensures
            empty == (self@.len() == 0),
    {
        self.frame_subslice.len() == 0
    }

    /// The bytes that have not been read yet.
    pub fn as_slice(&self) -> (bytes: &'frame [u8])
        ensures
            bytes@ == self@,
    {
        self.frame_subslice
    }

    /// Reads one length-prefixed cell and moves past it. On an error the
    /// slice stays where it was.
    pub fn read_cql_bytes(&mut self) -> (cell: Result<
        Option<FrameSlice<'frame>>,
        LowLevelDeserializationError,
    >)
        ensures
            match read_cell(old(self)@) {
                Ok((bytes, rest)) => cell matches Ok(c) && cell_bytes(c) == bytes && final(self)@
                    == rest,
                Err(e) => cell == Err::<Option<FrameSlice<'frame>>, _>(e) && final(self)@ == old(
                    self,
                )@,
            },
    {
        let buf = self.frame_subslice;
        let len = buf.len();
        if len < 4 {
            return Err(LowLevelDeserializationError::LengthPrefixTruncated { received: len });
        }
        let prefix: u32 = (buf[0] as u32) * 0x100_0000 + (buf[1] as u32) * 0x1_0000 + (
        buf[2] as u32) * 0x100 + (buf[3] as u32);
        if prefix >= 0x8000_0000 {
            self.frame_subslice = slice_subrange(buf, 4, len);
            return Ok(None);
        }
        let count = prefix as usize;
        if len - 4 < count {
            return Err(
                LowLevelDeserializationError::TooFewBytesReceived {
                    expected: count,
                    received: len - 4,
                },
            );
        }
        let cell = slice_subrange(buf, 4, 4 + count);
        self.frame_subslice = slice_subrange(buf, 4 + count, len);
        Ok(Some(FrameSlice { frame_subslice: cell }))
    }
}

/// The four bytes that stand for `n` as a big-endian two's complement
/// integer.
pub open spec fn i32_be_bytes(n: int) -> Seq<u8>
    recommends
        -0x8000_0000 <= n < 0x8000_0000,
{
    let u = if n < 0 {
        n + 0x1_0000_0000
    } else {
        n
    };
    seq![
        (u / 0x100_0000) as u8,
        (u / 0x1_0000 % 0x100) as u8,
        (u / 0x100 % 0x100) as u8,
        (u % 0x100) as u8,
    ]
}

/// The bytes that stand for a cell on the wire: the length and the bytes of
/// a value, or the length -1 for a null.
pub open spec fn encode_cell(cell: Option<Seq<u8>>) -> Seq<u8> {
    match cell {
        None => i32_be_bytes(-1),
        Some(bytes) => i32_be_bytes(bytes.len() as int) + bytes,
    }
}

/// Whether the wire format has room for the cell: the length of a value
/// must fit the signed four-byte prefix.
pub open spec fn encodable(cell: Option<Seq<u8>>) -> bool {
    cell matches Some(bytes) ==> bytes.len() <= i32::MAX
}

/// The four bytes of an integer stand for that integer, whatever follows
/// them.
pub proof fn lemma_be_i32_of_bytes(n: int, tail: Seq<u8>)
    requires
        -0x8000_0000 <= n < 0x8000_0000,
    ensures
        i32_be_bytes(n).len() == 4,
        be_i32(i32_be_bytes(n) + tail) == n,
{
    let u = if n < 0 {
        n + 0x1_0000_0000
    } else {
        n
    };
    let b = i32_be_bytes(n) + tail;
    assert(b[0] == (u / 0x100_0000) as u8);
    assert(b[1] == (u / 0x1_0000 % 0x100) as u8);
    assert(b[2] == (u / 0x100 % 0x100) as u8);
    assert(b[3] == (u % 0x100) as u8);
}

/// Reading gives back the cell that was encoded, and stops in front of what
/// follows it.
pub proof fn lemma_read_encoded_cell(cell: Option<Seq<u8>>, tail: Seq<u8>)
    requires
        encodable(cell),
    ensures
        read_cell(encode_cell(cell) + tail) == Ok::<_, LowLevelDeserializationError>((cell, tail)),
{
    let s = encode_cell(cell) + tail;
    match cell {
        None => {
            lemma_be_i32_of_bytes(-1, tail);
            assert(s.skip(4) =~= tail);
        },
        Some(bytes) => {
            let n = bytes.len() as int;
            lemma_be_i32_of_bytes(n, bytes + tail);
            assert(s =~= i32_be_bytes(n) + (bytes + tail));
            assert(s.subrange(4, 4 + n) =~= bytes);
            assert(s.skip(4 + n) =~= tail);
        },
    }
}

} // verus!
