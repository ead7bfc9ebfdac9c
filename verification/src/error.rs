//! What can go wrong in the ledger's own rules.

use vstd::prelude::*;

verus! {

/// A failure of one of the ledger's operations.
#[derive(Debug, Clone, Copy, PartialEq, Eq)]
pub enum LedgerError {
    /// A typed price text denotes no price.
    InvalidPrice,
    /// The text of the store cannot be split into records.
    Unreadable,
    /// No record stands at the position asked for.
    OutOfRange,
}

} // verus!
