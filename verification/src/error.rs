//! The closed set of conditions that stop a parse.

use vstd::prelude::*;

verus! {

/// Why the library refused an input. Every one of them is fatal to the
/// parse in which it occurs.
#[derive(Clone, Copy, Debug, PartialEq, Eq, Structural)]
pub enum LedgerError {
    /// A line that its place in the input does not allow, or a header
    /// whose date cannot be read.
    MalformedLine,
    /// Two amounts of different commodities were to be added.
    CommodityMismatch,
    /// A transaction has a second posting without an amount.
    DoubleNullPost,
    /// An index that the journal never handed out.
    IndexNotFound,
    /// A sum that no quantity holds exactly.
    QuantityOverflow,
}

} // verus!
