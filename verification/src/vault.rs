//! Staking vaults and short-term loans.
//!
//! A creator vault compounds periodic yield into its stake; a viewer loan
//! tracks a principal and the outstanding part still owed.

use vstd::prelude::*;

verus! {

/// A creator's staking vault. The stake only ever grows: by staking and by
/// compounded yield.
#[derive(Clone, Debug, PartialEq, Eq)]
pub struct CreatorVault {
    pub creator_id: String,
    pub staked_amount: u128,
    pub apy_bps: u64,
    pub last_harvest_slot: u64,
}

/// Whether a loan is still being repaid.
#[derive(Clone, Copy, Debug, PartialEq, Eq, Structural)]
pub enum LoanStatus {
    Active,
    Settled,
}

/// A viewer's short-term loan.
#[derive(Clone, Debug, PartialEq, Eq)]
pub struct AfiLoan {
    pub viewer_id: String,
    pub principal: u128,
    pub outstanding: u128,
    pub status: LoanStatus,
}

impl AfiLoan {
    /// The books are consistent: no more is owed than was lent, and the loan
    /// is settled exactly when nothing is outstanding.
    pub open spec fn wf(self) -> bool {
        &&& self.outstanding <= self.principal
        &&& (self.status == LoanStatus::Settled <==> self.outstanding == 0)
    }

    /// Decides the loan's well-formedness.
    pub fn is_wf(&self) -> (r: bool)
        ensures
            r == self.wf(),
    {
        let settled = match self.status {
            LoanStatus::Settled => true,
            LoanStatus::Active => false,
        };
        self.outstanding <= self.principal && settled == (self.outstanding == 0)
    }
}

} // verus!
