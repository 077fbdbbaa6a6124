//! Result decoding and request racing for a CQL client driver.
//!
//! The crate has two halves. The first walks the row payload of a query
//! response without copying it: [`frame::FrameSlice`] reads length-prefixed
//! cells, [`row::ColumnIterator`] walks the cells of one row,
//! [`result::RawRowIterator`] walks the rows and [`result::TypedRowIterator`]
//! turns each row into a caller-defined record. The second half decides how a
//! request is raced against delayed duplicates of itself on other nodes:
//! [`speculative_execution`] holds the policies, the classification of
//! failures and the race itself, written as a state machine that the caller
//! feeds with timer ticks and finished attempts.
pub mod errors;
pub mod frame;
pub mod metadata;
pub mod result;
pub mod row;
pub mod speculative_execution;
pub mod value;
