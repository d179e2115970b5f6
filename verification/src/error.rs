//! Validation failures raised while building a player set.
//!
//! Both are user-data problems detected during construction, never during
//! scoring: either one aborts the whole batch on the first offending row.

use vstd::prelude::*;

verus! {

/// Why a batch of rows was rejected.
#[derive(Debug, Clone)]
pub enum Error {
    /// A later row repeats the name of an already-accepted row; `row` is
    /// the offending (later) row's number.
    DoubleGuesser { row: u32, name: String },
    /// A row's guess text does not yield exactly the required number of
    /// squares: it gave `amount`, the variant needs `needed`.
    NotEnoughValidSquares { name: String, row: u32, amount: usize, needed: usize },
}

} // verus!
