//! Error kinds returned by ledger operations.
//!
//! Every ledger method returns success or one of these errors; none panics as
//! part of normal validation. The calling shell treats any error as fatal to
//! the enclosing operation: nothing is committed on failure.

use vstd::prelude::*;

verus! {

/// The kind of entity a failed lookup was searching for.
#[derive(Clone, Copy, Debug, PartialEq, Eq, Structural)]
pub enum EntityKind {
    Viewer,
    Creator,
    Advertiser,
    Campaign,
    Vault,
    Loan,
}

/// Why a ledger operation was rejected. The whole operation is discarded:
/// a rejected operation never changes the ledger.
#[derive(Clone, Copy, Debug, PartialEq, Eq, Structural)]
pub enum LedgerError {
    /// The id is already present in its registry.
    AlreadyRegistered,
    /// No entry with the given id exists in the named registry.
    NotFound(EntityKind),
    /// A campaign with the given id already exists.
    AlreadyExists,
    /// The campaign or advertiser budget cannot cover the reward.
    InsufficientBudget,
    /// The requested credit would push the outstanding balance past the limit.
    CreditLimitExceeded,
    /// The reward multiplication would exceed the integer range.
    Overflow,
    /// Zero attention units, or an unparsable amount string.
    InvalidInput,
}

} // verus!
