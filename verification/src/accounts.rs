//! The three account kinds of the marketplace: viewers, creators and
//! advertisers.
//!
//! All monetary and counter fields are non-negative integers; amounts use
//! 128-bit unsigned integers so balances cannot overflow across the lifetime
//! of an account under ordinary use.

use vstd::prelude::*;
use vstd::string::StringExecFns;

verus! {

/// The dynamic credit limit derived from an attention score:
/// `5 + max(score / 5, 5)` with integer division.
pub open spec fn spec_credit_limit(score: u64) -> int {
    5 + if score / 5 > 5 {
        score / 5
    } else {
        5
    }
}

/// A higher attention score never lowers the derived credit limit.
pub proof fn lemma_credit_limit_monotone(s1: u64, s2: u64)
    requires
        s1 <= s2,
    ensures
        spec_credit_limit(s1) <= spec_credit_limit(s2),
{
    vstd::arithmetic::div_mod::lemma_div_is_ordered(s1 as int, s2 as int, 5);
}

/// Recomputes the score-derived credit limit: `5 + max(score / 5, 5)`.
pub fn derived_credit_limit(score: u64) -> (r: u128)
    ensures
        r == spec_credit_limit(score),
{
    let fifth: u128 = (score / 5) as u128;
    let dynamic: u128 = if fifth > 5 {
        fifth
    } else {
        5
    };
    5 + dynamic
}

/// A viewer: earns reward shares for verified attention and may carry
/// revolving credit against a score-derived limit.
#[derive(Clone, Debug, PartialEq, Eq)]
pub struct ViewerAccount {
    pub handle: String,
    pub attention_score: u64,
    pub total_earned: u128,
    pub lifetime_impressions: u64,
    pub outstanding_credit: u128,
    pub credit_limit: u128,
}

impl ViewerAccount {
    /// The credit books are consistent: the outstanding balance never exceeds
    /// the stored limit, and the stored limit never exceeds the limit the
    /// current score would yield (the stored value may lag behind: it is
    /// recomputed lazily, before every credit check).
    pub open spec fn wf(self) -> bool {
        &&& self.outstanding_credit <= self.credit_limit
        &&& self.credit_limit <= spec_credit_limit(self.attention_score)
    }

    /// Decides the account's well-formedness.
    pub fn is_wf(&self) -> (r: bool)
        ensures
            r == self.wf(),
    {
        self.outstanding_credit <= self.credit_limit && self.credit_limit <= derived_credit_limit(
            self.attention_score,
        )
    }

    /// A freshly registered viewer: all counters zero, credit limit 5.
    pub fn new(handle: String) -> (r: Self)
        ensures
            r == (ViewerAccount {
                handle,
                attention_score: 0,
                total_earned: 0,
                lifetime_impressions: 0,
                outstanding_credit: 0,
                credit_limit: 5,
            }),
            r.wf(),
    {
        ViewerAccount {
            handle,
            attention_score: 0,
            total_earned: 0,
            lifetime_impressions: 0,
            outstanding_credit: 0,
            credit_limit: 5,
        }
    }

    /// Recomputes the stored credit limit from the current attention score.
    pub fn sync_credit_limit(&mut self)
        ensures
            *final(self) == (ViewerAccount {
                credit_limit: spec_credit_limit(old(self).attention_score) as u128,
                ..*old(self)
            }),
    {
        self.credit_limit = derived_credit_limit(self.attention_score);
    }
}

/// A creator: serves impressions and accumulates earnings; earnings and
/// impressions only ever grow.
#[derive(Clone, Debug, PartialEq, Eq)]
pub struct CreatorAccount {
    pub handle: String,
    pub category: String,
    pub total_earned: u128,
    pub impressions_served: u64,
    pub ai_optimization: bool,
}

impl CreatorAccount {
    /// A freshly registered creator: counters zero, AI optimization on.
    pub fn new(handle: String, category: String) -> (r: Self)
        ensures
            r == (CreatorAccount {
                handle,
                category,
                total_earned: 0,
                impressions_served: 0,
                ai_optimization: true,
            }),
    {
        CreatorAccount { handle, category, total_earned: 0, impressions_served: 0, ai_optimization: true }
    }
}

/// The notes a fresh advertiser account starts with.
pub open spec fn default_ai_notes() -> Seq<char> {
    "Autopilot awaiting first signal."@
}

/// An advertiser: deposits funds and spends them on rewards; the remaining
/// budget can never exceed the lifetime deposits.
#[derive(Clone, Debug, PartialEq, Eq)]
pub struct AdvertiserAccount {
    pub brand: String,
    pub ai_notes: String,
    pub total_deposited: u128,
    pub budget_remaining: u128,
    pub floor_cpm_micros: u64,
    pub auto_bid_multiplier_bps: u64,
}

impl AdvertiserAccount {
    /// The books are consistent: what remains was once deposited.
    pub open spec fn wf(self) -> bool {
        self.budget_remaining <= self.total_deposited
    }

    /// Decides the account's well-formedness.
    pub fn is_wf(&self) -> (r: bool)
        ensures
            r == self.wf(),
    {
        self.budget_remaining <= self.total_deposited
    }

    /// A freshly registered advertiser: no deposits yet, neutral bid
    /// multiplier, default AI notes.
    pub fn new(brand: String, floor_cpm_micros: u64) -> (r: Self)
        ensures
            r.brand == brand,
            r.ai_notes@ == default_ai_notes(),
            r.total_deposited == 0,
            r.budget_remaining == 0,
            r.floor_cpm_micros == floor_cpm_micros,
            r.auto_bid_multiplier_bps == 10000,
            r.wf(),
    {
        AdvertiserAccount {
            brand,
            ai_notes: String::from_str("Autopilot awaiting first signal."),
            total_deposited: 0,
            budget_remaining: 0,
            floor_cpm_micros,
            auto_bid_multiplier_bps: 10000,
        }
    }

    /// Overwrites the AI notes and the CPM floor, unconditionally.
    pub fn configure(&mut self, notes: String, floor_cpm_micros: u64)
        ensures
            *final(self) == (AdvertiserAccount { ai_notes: notes, floor_cpm_micros, ..*old(self) }),
    {
        self.ai_notes = notes;
        self.floor_cpm_micros = floor_cpm_micros;
    }
}

} // verus!
