//! The aggregate ledger: all registries, the global counters and the audit
//! logs, together with the atomic state-transition operations that mutate
//! them.
//!
//! Every operation is a synchronous, deterministic transformation of one
//! aggregate value: it either applies completely and returns `Ok`, or it
//! rejects the input, returns an error and leaves the ledger exactly as it
//! was. Each public operation's contract states both directions: exactly
//! when each error is returned, and exactly how the books change on success.

use crate::accounts::{
    default_ai_notes, derived_credit_limit, lemma_credit_limit_monotone, spec_credit_limit,
    AdvertiserAccount, CreatorAccount, ViewerAccount,
};
use crate::arith::{lemma_div_sum_le, lemma_mul_div_le, mul_frac};
use crate::campaign::{AdVariant, Campaign};
use crate::errors::{EntityKind, LedgerError};
use crate::logs::{
    log_push, AttentionEvent, BrandInstruction, MAX_EVENT_HISTORY, MAX_INSTRUCTION_HISTORY,
};
use crate::registry::{
    contains_key, find_key, keys_unique, lemma_map_of_contains, lemma_map_of_index,
    lemma_map_of_push, lemma_map_of_update, map_of,
};
use crate::vault::{AfiLoan, CreatorVault, LoanStatus};
use vstd::prelude::*;
use vstd::string::StringExecFns;

verus! {

/// The share of each reward paid to the viewer, in basis points.
pub const VIEWER_SHARE_BPS: u64 = 3500;

/// The share of each reward paid to the creator, in basis points.
pub const CREATOR_SHARE_BPS: u64 = 5500;

/// The basis-point denominator.
pub const BPS_DENOMINATOR: u64 = 10000;

/// The fixed annual yield of every creator vault, in basis points.
pub const VAULT_APY_BPS: u64 = 1200;

/// The whole marketplace state: one process-wide value, created once at
/// bootstrap and replaced wholesale by every successful operation.
#[derive(Clone, Debug, PartialEq, Eq)]
pub struct AdloomLedger {
    pub viewers: Vec<(String, ViewerAccount)>,
    pub creators: Vec<(String, CreatorAccount)>,
    pub advertisers: Vec<(String, AdvertiserAccount)>,
    pub campaigns: Vec<(String, Campaign)>,
    pub creator_vaults: Vec<(String, CreatorVault)>,
    pub viewer_loans: Vec<(String, AfiLoan)>,
    pub brand_instructions: Vec<BrandInstruction>,
    pub attention_events: Vec<AttentionEvent>,
    pub protocol_treasury: u128,
    pub total_advertiser_value_locked: u128,
    pub total_impressions: u64,
    pub next_event_id: u64,
}

impl AdloomLedger {
    /// The viewer registry, as a map from id to account.
    pub open spec fn viewers_map(self) -> Map<Seq<char>, ViewerAccount> {
        map_of(self.viewers@)
    }

    /// The creator registry, as a map from id to account.
    pub open spec fn creators_map(self) -> Map<Seq<char>, CreatorAccount> {
        map_of(self.creators@)
    }

    /// The advertiser registry, as a map from id to account.
    pub open spec fn advertisers_map(self) -> Map<Seq<char>, AdvertiserAccount> {
        map_of(self.advertisers@)
    }

    /// The campaign registry, as a map from id to campaign.
    pub open spec fn campaigns_map(self) -> Map<Seq<char>, Campaign> {
        map_of(self.campaigns@)
    }

    /// The staking vaults, as a map from creator id to vault.
    pub open spec fn vaults_map(self) -> Map<Seq<char>, CreatorVault> {
        map_of(self.creator_vaults@)
    }

    /// The loans, as a map from viewer id to loan.
    pub open spec fn loans_map(self) -> Map<Seq<char>, AfiLoan> {
        map_of(self.viewer_loans@)
    }

    /// The books are consistent. Established at bootstrap and preserved by
    /// every operation:
    /// - each registry has unique ids;
    /// - every viewer's outstanding credit is within its (possibly lazily
    ///   recomputed) limit;
    /// - every advertiser's remaining budget is within its lifetime deposits;
    /// - every campaign's remaining budget is within its budget, its variant
    ///   ids are unique, and its stored id matches its key;
    /// - every vault carries the fixed yield rate;
    /// - every loan owes at most its principal and is settled exactly when
    ///   nothing is outstanding;
    /// - the logs are within their caps, and every logged event splits its
    ///   reward exactly.
    pub open spec fn well_formed(self) -> bool {
        &&& keys_unique(self.viewers@)
        &&& keys_unique(self.creators@)
        &&& keys_unique(self.advertisers@)
        &&& keys_unique(self.campaigns@)
        &&& keys_unique(self.creator_vaults@)
        &&& keys_unique(self.viewer_loans@)
        &&& forall|i: int| 0 <= i < self.viewers@.len() ==> (#[trigger] self.viewers@[i]).1.wf()
        &&& forall|i: int|
            0 <= i < self.advertisers@.len() ==> (#[trigger] self.advertisers@[i]).1.wf()
        &&& forall|i: int|
            0 <= i < self.campaigns@.len()
                ==> (#[trigger] self.campaigns@[i]).1.wf() && self.campaigns@[i].1.id@
                == self.campaigns@[i].0@
        &&& forall|i: int|
            0 <= i < self.creator_vaults@.len()
                ==> (#[trigger] self.creator_vaults@[i]).1.apy_bps == VAULT_APY_BPS
        &&& forall|i: int| 0 <= i < self.viewer_loans@.len() ==> (#[trigger] self.viewer_loans@[i]).1.wf()
        &&& self.attention_events@.len() <= MAX_EVENT_HISTORY
        &&& self.brand_instructions@.len() <= MAX_INSTRUCTION_HISTORY
        &&& forall|i: int|
            0 <= i < self.attention_events@.len()
                ==> (#[trigger] self.attention_events@[i]).split_exact()
    }

    /// In a well-formed ledger, every value reachable through the map views
    /// satisfies its own well-formedness: the per-entry facts carry over
    /// from the underlying registries.
    pub proof fn lemma_wf_map_values(self)
        requires
            self.well_formed(),
        ensures
            forall|k: Seq<char>|
                self.viewers_map().contains_key(k) ==> (#[trigger] self.viewers_map()[k]).wf(),
            forall|k: Seq<char>|
                self.advertisers_map().contains_key(k) ==> (
                #[trigger] self.advertisers_map()[k]).wf(),
            forall|k: Seq<char>|
                self.campaigns_map().contains_key(k) ==> (#[trigger] self.campaigns_map()[k]).wf()
                    && self.campaigns_map()[k].id@ == k,
            forall|k: Seq<char>|
                self.vaults_map().contains_key(k) ==> (#[trigger] self.vaults_map()[k]).apy_bps
                    == VAULT_APY_BPS,
            forall|k: Seq<char>|
                self.loans_map().contains_key(k) ==> (#[trigger] self.loans_map()[k]).wf(),
    {
        assert forall|k: Seq<char>| self.viewers_map().contains_key(k) implies (
        #[trigger] self.viewers_map()[k]).wf() by {
            lemma_map_of_contains(self.viewers@, k);
            let i = choose|i: int| 0 <= i < self.viewers@.len() && self.viewers@[i].0@ == k;
            lemma_map_of_index(self.viewers@, i);
        }
        assert forall|k: Seq<char>| self.advertisers_map().contains_key(k) implies (
        #[trigger] self.advertisers_map()[k]).wf() by {
            lemma_map_of_contains(self.advertisers@, k);
            let i = choose|i: int| 0 <= i < self.advertisers@.len() && self.advertisers@[i].0@ == k;
            lemma_map_of_index(self.advertisers@, i);
        }
        assert forall|k: Seq<char>| self.campaigns_map().contains_key(k) implies (
        #[trigger] self.campaigns_map()[k]).wf() && self.campaigns_map()[k].id@ == k by {
            lemma_map_of_contains(self.campaigns@, k);
            let i = choose|i: int| 0 <= i < self.campaigns@.len() && self.campaigns@[i].0@ == k;
            lemma_map_of_index(self.campaigns@, i);
        }
        assert forall|k: Seq<char>| self.vaults_map().contains_key(k) implies (
        #[trigger] self.vaults_map()[k]).apy_bps == VAULT_APY_BPS by {
            lemma_map_of_contains(self.creator_vaults@, k);
            let i = choose|i: int|
                0 <= i < self.creator_vaults@.len() && self.creator_vaults@[i].0@ == k;
            lemma_map_of_index(self.creator_vaults@, i);
        }
        assert forall|k: Seq<char>| self.loans_map().contains_key(k) implies (
        #[trigger] self.loans_map()[k]).wf() by {
            lemma_map_of_contains(self.viewer_loans@, k);
            let i = choose|i: int|
                0 <= i < self.viewer_loans@.len() && self.viewer_loans@[i].0@ == k;
            lemma_map_of_index(self.viewer_loans@, i);
        }
    }

    /// The fresh ledger: all collections empty, all counters zero.
    pub fn bootstrap() -> (r: Self)
        ensures
            r.viewers@ == Seq::<(String, ViewerAccount)>::empty(),
            r.creators@ == Seq::<(String, CreatorAccount)>::empty(),
            r.advertisers@ == Seq::<(String, AdvertiserAccount)>::empty(),
            r.campaigns@ == Seq::<(String, Campaign)>::empty(),
            r.creator_vaults@ == Seq::<(String, CreatorVault)>::empty(),
            r.viewer_loans@ == Seq::<(String, AfiLoan)>::empty(),
            r.brand_instructions@ == Seq::<BrandInstruction>::empty(),
            r.attention_events@ == Seq::<AttentionEvent>::empty(),
            r.protocol_treasury == 0,
            r.total_advertiser_value_locked == 0,
            r.total_impressions == 0,
            r.next_event_id == 0,
            r.well_formed(),
    {
        AdloomLedger {
            viewers: Vec::new(),
            creators: Vec::new(),
            advertisers: Vec::new(),
            campaigns: Vec::new(),
            creator_vaults: Vec::new(),
            viewer_loans: Vec::new(),
            brand_instructions: Vec::new(),
            attention_events: Vec::new(),
            protocol_treasury: 0,
            total_advertiser_value_locked: 0,
            total_impressions: 0,
            next_event_id: 0,
        }
    }

    /// What `register_viewer` does: a taken id is rejected with no state
    /// change; a fresh id inserts a defaulted account and touches nothing
    /// else.
    pub open spec fn register_viewer_spec(
        pre: Self,
        post: Self,
        viewer_id: Seq<char>,
        handle: String,
        r: Result<(), LedgerError>,
    ) -> bool {
        if pre.viewers_map().contains_key(viewer_id) {
            r == Err::<(), LedgerError>(LedgerError::AlreadyRegistered) && post == pre
        } else {
            &&& r == Ok::<(), LedgerError>(())
            &&& post == (AdloomLedger { viewers: post.viewers, ..pre })
            &&& post.viewers_map() == pre.viewers_map().insert(
                viewer_id,
                (ViewerAccount {
                    handle,
                    attention_score: 0,
                    total_earned: 0,
                    lifetime_impressions: 0,
                    outstanding_credit: 0,
                    credit_limit: 5,
                }),
            )
        }
    }

    /// Registers a viewer under a fresh id; a second registration with the
    /// same id always fails with no state change.
    pub fn register_viewer(&mut self, viewer_id: String, handle: String) -> (r: Result<
        (),
        LedgerError,
    >)
        requires
            old(self).well_formed(),
        ensures
            final(self).well_formed(),
            Self::register_viewer_spec(*old(self), *final(self), viewer_id@, handle, r),
    {
        if contains_key(&self.viewers, &viewer_id) {
            return Err(LedgerError::AlreadyRegistered);
        }
        let account = ViewerAccount::new(handle);
        proof {
            lemma_map_of_push(self.viewers@, viewer_id, account);
        }
        self.viewers.push((viewer_id, account));
        Ok(())
    }

    /// What `register_creator` does.
    pub open spec fn register_creator_spec(
        pre: Self,
        post: Self,
        creator_id: Seq<char>,
        handle: String,
        category: String,
        r: Result<(), LedgerError>,
    ) -> bool {
        if pre.creators_map().contains_key(creator_id) {
            r == Err::<(), LedgerError>(LedgerError::AlreadyRegistered) && post == pre
        } else {
            &&& r == Ok::<(), LedgerError>(())
            &&& post == (AdloomLedger { creators: post.creators, ..pre })
            &&& post.creators_map() == pre.creators_map().insert(
                creator_id,
                (CreatorAccount {
                    handle,
                    category,
                    total_earned: 0,
                    impressions_served: 0,
                    ai_optimization: true,
                }),
            )
        }
    }

    /// Registers a creator under a fresh id; a second registration with the
    /// same id always fails with no state change.
    pub fn register_creator(
        &mut self,
        creator_id: String,
        handle: String,
        category: String,
    ) -> (r: Result<(), LedgerError>)
        requires
            old(self).well_formed(),
        ensures
            final(self).well_formed(),
            Self::register_creator_spec(*old(self), *final(self), creator_id@, handle, category, r),
    {
        if contains_key(&self.creators, &creator_id) {
            return Err(LedgerError::AlreadyRegistered);
        }
        let account = CreatorAccount::new(handle, category);
        proof {
            lemma_map_of_push(self.creators@, creator_id, account);
        }
        self.creators.push((creator_id, account));
        Ok(())
    }

    /// What `register_advertiser` does. The fresh account is pinned except
    /// for its notes string, whose characters are the default notes.
    pub open spec fn register_advertiser_spec(
        pre: Self,
        post: Self,
        advertiser_id: Seq<char>,
        brand: String,
        floor_cpm_micros: u64,
        r: Result<(), LedgerError>,
    ) -> bool {
        if pre.advertisers_map().contains_key(advertiser_id) {
            r == Err::<(), LedgerError>(LedgerError::AlreadyRegistered) && post == pre
        } else {
            &&& r == Ok::<(), LedgerError>(())
            &&& post == (AdloomLedger { advertisers: post.advertisers, ..pre })
            &&& post.advertisers_map().contains_key(advertiser_id)
            &&& ({
                let a = post.advertisers_map()[advertiser_id];
                &&& a.brand == brand
                &&& a.ai_notes@ == default_ai_notes()
                &&& a.total_deposited == 0
                &&& a.budget_remaining == 0
                &&& a.floor_cpm_micros == floor_cpm_micros
                &&& a.auto_bid_multiplier_bps == 10000
                &&& post.advertisers_map() == pre.advertisers_map().insert(advertiser_id, a)
            })
        }
    }

    /// Registers an advertiser under a fresh id; a second registration with
    /// the same id always fails with no state change.
    pub fn register_advertiser(
        &mut self,
        advertiser_id: String,
        brand: String,
        floor_cpm_micros: u64,
    ) -> (r: Result<(), LedgerError>)
        requires
            old(self).well_formed(),
        ensures
            final(self).well_formed(),
            Self::register_advertiser_spec(
                *old(self),
                *final(self),
                advertiser_id@,
                brand,
                floor_cpm_micros,
                r,
            ),
    {
        if contains_key(&self.advertisers, &advertiser_id) {
            return Err(LedgerError::AlreadyRegistered);
        }
        let account = AdvertiserAccount::new(brand, floor_cpm_micros);
        proof {
            lemma_map_of_push(self.advertisers@, advertiser_id, account);
        }
        self.advertisers.push((advertiser_id, account));
        Ok(())
    }

    /// Funding an advertiser must not overflow its lifetime-deposit counter
    /// nor the global locked-value counter: a machine limit of the 128-bit
    /// books, not a business rule.
    pub open spec fn can_fund(self, advertiser_id: Seq<char>, amount: u128) -> bool {
        self.advertisers_map().contains_key(advertiser_id) ==> {
            let a = self.advertisers_map()[advertiser_id];
            &&& a.total_deposited + amount <= u128::MAX
            &&& self.total_advertiser_value_locked + amount <= u128::MAX
        }
    }

    /// What `fund_campaign` does: an unknown advertiser is rejected with no
    /// state change; otherwise the amount lands in both the lifetime deposits
    /// and the remaining budget, and in the global locked-value counter.
    pub open spec fn fund_campaign_spec(
        pre: Self,
        post: Self,
        advertiser_id: Seq<char>,
        amount: u128,
        r: Result<(), LedgerError>,
    ) -> bool {
        if !pre.advertisers_map().contains_key(advertiser_id) {
            r == Err::<(), LedgerError>(LedgerError::NotFound(EntityKind::Advertiser)) && post
                == pre
        } else {
            let a = pre.advertisers_map()[advertiser_id];
            &&& r == Ok::<(), LedgerError>(())
            &&& post == (AdloomLedger {
                advertisers: post.advertisers,
                total_advertiser_value_locked: post.total_advertiser_value_locked,
                ..pre
            })
            &&& post.advertisers_map() == pre.advertisers_map().insert(
                advertiser_id,
                (AdvertiserAccount {
                    total_deposited: (a.total_deposited + amount) as u128,
                    budget_remaining: (a.budget_remaining + amount) as u128,
                    ..a
                }),
            )
            &&& post.total_advertiser_value_locked == pre.total_advertiser_value_locked + amount
        }
    }

    /// Adds `amount` to the advertiser's deposits and remaining budget, and
    /// to the global locked-value counter.
    pub fn fund_campaign(&mut self, advertiser_id: &str, amount: u128) -> (r: Result<
        (),
        LedgerError,
    >)
        requires
            old(self).well_formed(),
            old(self).can_fund(advertiser_id@, amount),
        ensures
            final(self).well_formed(),
            Self::fund_campaign_spec(*old(self), *final(self), advertiser_id@, amount, r),
    {
        let key = String::from_str(advertiser_id);
        match find_key(&self.advertisers, &key) {
            None => {
                proof {
                    lemma_map_of_contains(self.advertisers@, advertiser_id@);
                }
                Err(LedgerError::NotFound(EntityKind::Advertiser))
            },
            Some(i) => {
                proof {
                    lemma_map_of_index(self.advertisers@, i as int);
                }
                self.advertisers[i].1.total_deposited = self.advertisers[i].1.total_deposited
                    + amount;
                self.advertisers[i].1.budget_remaining = self.advertisers[i].1.budget_remaining
                    + amount;
                self.total_advertiser_value_locked = self.total_advertiser_value_locked + amount;
                proof {
                    assert(self.advertisers@ =~= old(self).advertisers@.update(
                        i as int,
                        (old(self).advertisers@[i as int].0, self.advertisers@[i as int].1),
                    ));
                    lemma_map_of_update(
                        old(self).advertisers@,
                        i as int,
                        self.advertisers@[i as int].1,
                    );
                }
                Ok(())
            },
        }
    }

    /// What `configure_ai_agent` does: an unknown advertiser is rejected
    /// with no state change; otherwise the notes, the CPM floor and the bid
    /// multiplier are overwritten unconditionally.
    pub open spec fn configure_ai_agent_spec(
        pre: Self,
        post: Self,
        advertiser_id: Seq<char>,
        ai_notes: String,
        floor_cpm_micros: u64,
        bid_multiplier_bps: u64,
        r: Result<(), LedgerError>,
    ) -> bool {
        if !pre.advertisers_map().contains_key(advertiser_id) {
            r == Err::<(), LedgerError>(LedgerError::NotFound(EntityKind::Advertiser)) && post
                == pre
        } else {
            let a = pre.advertisers_map()[advertiser_id];
            &&& r == Ok::<(), LedgerError>(())
            &&& post == (AdloomLedger { advertisers: post.advertisers, ..pre })
            &&& post.advertisers_map() == pre.advertisers_map().insert(
                advertiser_id,
                (AdvertiserAccount {
                    ai_notes,
                    floor_cpm_micros,
                    auto_bid_multiplier_bps: bid_multiplier_bps,
                    ..a
                }),
            )
        }
    }

    /// Overwrites the advertiser's AI notes, CPM floor and bid multiplier
    /// (no validation on the multiplier range).
    pub fn configure_ai_agent(
        &mut self,
        advertiser_id: &str,
        ai_notes: String,
        floor_cpm_micros: u64,
        bid_multiplier_bps: u64,
    ) -> (r: Result<(), LedgerError>)
        requires
            old(self).well_formed(),
        ensures
            final(self).well_formed(),
            Self::configure_ai_agent_spec(
                *old(self),
                *final(self),
                advertiser_id@,
                ai_notes,
                floor_cpm_micros,
                bid_multiplier_bps,
                r,
            ),
    {
        let key = String::from_str(advertiser_id);
        match find_key(&self.advertisers, &key) {
            None => {
                proof {
                    lemma_map_of_contains(self.advertisers@, advertiser_id@);
                }
                Err(LedgerError::NotFound(EntityKind::Advertiser))
            },
            Some(i) => {
                proof {
                    lemma_map_of_index(self.advertisers@, i as int);
                }
                self.advertisers[i].1.ai_notes = ai_notes;
                self.advertisers[i].1.floor_cpm_micros = floor_cpm_micros;
                self.advertisers[i].1.auto_bid_multiplier_bps = bid_multiplier_bps;
                proof {
                    assert(self.advertisers@ =~= old(self).advertisers@.update(
                        i as int,
                        (old(self).advertisers@[i as int].0, self.advertisers@[i as int].1),
                    ));
                    lemma_map_of_update(
                        old(self).advertisers@,
                        i as int,
                        self.advertisers@[i as int].1,
                    );
                }
                Ok(())
            },
        }
    }

    /// What `register_campaign` does: a taken campaign id is rejected first,
    /// then an unknown advertiser, both with no state change. On success the
    /// advertiser is funded by the campaign budget (the budget tops up the
    /// advertiser's pool) and a fresh campaign carrying that budget is
    /// inserted, with an empty variant list.
    pub open spec fn register_campaign_spec(
        pre: Self,
        post: Self,
        advertiser_id: Seq<char>,
        campaign_id: Seq<char>,
        budget: u128,
        floor_cpm_micros: u64,
        r: Result<(), LedgerError>,
    ) -> bool {
        if pre.campaigns_map().contains_key(campaign_id) {
            r == Err::<(), LedgerError>(LedgerError::AlreadyExists) && post == pre
        } else if !pre.advertisers_map().contains_key(advertiser_id) {
            r == Err::<(), LedgerError>(LedgerError::NotFound(EntityKind::Advertiser)) && post
                == pre
        } else {
            let a = pre.advertisers_map()[advertiser_id];
            &&& r == Ok::<(), LedgerError>(())
            &&& post == (AdloomLedger {
                advertisers: post.advertisers,
                campaigns: post.campaigns,
                total_advertiser_value_locked: post.total_advertiser_value_locked,
                ..pre
            })
            &&& post.advertisers_map() == pre.advertisers_map().insert(
                advertiser_id,
                (AdvertiserAccount {
                    total_deposited: (a.total_deposited + budget) as u128,
                    budget_remaining: (a.budget_remaining + budget) as u128,
                    ..a
                }),
            )
            &&& post.total_advertiser_value_locked == pre.total_advertiser_value_locked + budget
            &&& post.campaigns_map().contains_key(campaign_id)
            &&& ({
                let c = post.campaigns_map()[campaign_id];
                &&& c.id@ == campaign_id
                &&& c.advertiser_id@ == advertiser_id
                &&& c.budget == budget
                &&& c.budget_remaining == budget
                &&& c.floor_cpm_micros == floor_cpm_micros
                &&& c.ad_variants@.len() == 0
                &&& c.impressions_served == 0
                &&& post.campaigns_map() == pre.campaigns_map().insert(campaign_id, c)
            })
        }
    }

    /// Creates a campaign under a fresh id, funding the owning advertiser by
    /// the campaign budget through the regular funding path.
    pub fn register_campaign(
        &mut self,
        advertiser_id: &str,
        campaign_id: String,
        budget: u128,
        floor_cpm_micros: u64,
    ) -> (r: Result<(), LedgerError>)
        requires
            old(self).well_formed(),
            !old(self).campaigns_map().contains_key(campaign_id@) ==> old(self).can_fund(
                advertiser_id@,
                budget,
            ),
        ensures
            final(self).well_formed(),
            Self::register_campaign_spec(
                *old(self),
                *final(self),
                advertiser_id@,
                campaign_id@,
                budget,
                floor_cpm_micros,
                r,
            ),
    {
        if contains_key(&self.campaigns, &campaign_id) {
            return Err(LedgerError::AlreadyExists);
        }
        match self.fund_campaign(advertiser_id, budget) {
            Err(e) => Err(e),
            Ok(()) => {
                let c = Campaign {
                    id: campaign_id.clone(),
                    advertiser_id: String::from_str(advertiser_id),
                    budget,
                    budget_remaining: budget,
                    floor_cpm_micros,
                    ad_variants: Vec::new(),
                    impressions_served: 0,
                };
                proof {
                    lemma_map_of_push(self.campaigns@, campaign_id, c);
                }
                self.campaigns.push((campaign_id, c));
                Ok(())
            },
        }
    }

    /// What `evolve_ad_variant` does: an unknown campaign is rejected with
    /// no state change; otherwise the variant is upserted by id (an existing
    /// variant is overwritten in place and stamped with the current event-id
    /// counter, a new id is appended with zero click-through rate).
    pub open spec fn evolve_ad_variant_spec(
        pre: Self,
        post: Self,
        campaign_id: Seq<char>,
        variant_id: String,
        headline: String,
        status: String,
        r: Result<(), LedgerError>,
    ) -> bool {
        if !pre.campaigns_map().contains_key(campaign_id) {
            r == Err::<(), LedgerError>(LedgerError::NotFound(EntityKind::Campaign)) && post == pre
        } else {
            let c = pre.campaigns_map()[campaign_id];
            &&& r == Ok::<(), LedgerError>(())
            &&& post == (AdloomLedger { campaigns: post.campaigns, ..pre })
            &&& post.campaigns_map().contains_key(campaign_id)
            &&& ({
                let c1 = post.campaigns_map()[campaign_id];
                &&& post.campaigns_map() == pre.campaigns_map().insert(campaign_id, c1)
                &&& c1 == (Campaign { ad_variants: c1.ad_variants, ..c })
                &&& c.has_variant(variant_id@) ==> ({
                    let j = c.variant_index(variant_id@);
                    c1.ad_variants@ == c.ad_variants@.update(
                        j,
                        (AdVariant {
                            variant_id: c.ad_variants@[j].variant_id,
                            headline,
                            status,
                            ctr_bps: c.ad_variants@[j].ctr_bps,
                            last_mutation_slot: pre.next_event_id,
                        }),
                    )
                })
                &&& !c.has_variant(variant_id@) ==> c1.ad_variants@ == c.ad_variants@.push(
                    (AdVariant {
                        variant_id,
                        headline,
                        status,
                        ctr_bps: 0,
                        last_mutation_slot: pre.next_event_id,
                    }),
                )
            })
        }
    }

    /// Upserts an ad variant of a campaign by variant id.
    pub fn evolve_ad_variant(
        &mut self,
        campaign_id: &str,
        variant_id: String,
        headline: String,
        status: String,
    ) -> (r: Result<(), LedgerError>)
        requires
            old(self).well_formed(),
        ensures
            final(self).well_formed(),
            Self::evolve_ad_variant_spec(
                *old(self),
                *final(self),
                campaign_id@,
                variant_id,
                headline,
                status,
                r,
            ),
    {
        let key = String::from_str(campaign_id);
        match find_key(&self.campaigns, &key) {
            None => {
                proof {
                    lemma_map_of_contains(self.campaigns@, campaign_id@);
                }
                Err(LedgerError::NotFound(EntityKind::Campaign))
            },
            Some(i) => {
                proof {
                    lemma_map_of_index(self.campaigns@, i as int);
                }
                let slot = self.next_event_id;
                self.campaigns[i].1.upsert_variant(variant_id, headline, status, slot);
                proof {
                    assert(self.campaigns@ =~= old(self).campaigns@.update(
                        i as int,
                        (old(self).campaigns@[i as int].0, self.campaigns@[i as int].1),
                    ));
                    lemma_map_of_update(old(self).campaigns@, i as int, self.campaigns@[i as int].1);
                }
                Ok(())
            },
        }
    }

    /// What `request_credit` does: the dynamic limit is recomputed from the
    /// current score before the check; a request that would push the
    /// outstanding balance past that limit is rejected with no state change;
    /// otherwise the outstanding balance grows by the amount and the stored
    /// limit is the recomputed one.
    pub open spec fn request_credit_spec(
        pre: Self,
        post: Self,
        viewer_id: Seq<char>,
        amount: u128,
        r: Result<(), LedgerError>,
    ) -> bool {
        if !pre.viewers_map().contains_key(viewer_id) {
            r == Err::<(), LedgerError>(LedgerError::NotFound(EntityKind::Viewer)) && post == pre
        } else {
            let v = pre.viewers_map()[viewer_id];
            let limit = spec_credit_limit(v.attention_score);
            if v.outstanding_credit + amount > limit {
                r == Err::<(), LedgerError>(LedgerError::CreditLimitExceeded) && post == pre
            } else {
                &&& r == Ok::<(), LedgerError>(())
                &&& post == (AdloomLedger { viewers: post.viewers, ..pre })
                &&& post.viewers_map() == pre.viewers_map().insert(
                    viewer_id,
                    (ViewerAccount {
                        outstanding_credit: (v.outstanding_credit + amount) as u128,
                        credit_limit: limit as u128,
                        ..v
                    }),
                )
            }
        }
    }

    /// Draws on a viewer's revolving credit line, against the score-derived
    /// dynamic limit recomputed at the moment of the check.
    pub fn request_credit(&mut self, viewer_id: &str, amount: u128) -> (r: Result<
        (),
        LedgerError,
    >)
        requires
            old(self).well_formed(),
        ensures
            final(self).well_formed(),
            Self::request_credit_spec(*old(self), *final(self), viewer_id@, amount, r),
    {
        let key = String::from_str(viewer_id);
        match find_key(&self.viewers, &key) {
            None => {
                proof {
                    lemma_map_of_contains(self.viewers@, viewer_id@);
                }
                Err(LedgerError::NotFound(EntityKind::Viewer))
            },
            Some(i) => {
                proof {
                    lemma_map_of_index(self.viewers@, i as int);
                }
                let limit = derived_credit_limit(self.viewers[i].1.attention_score);
                let outstanding = self.viewers[i].1.outstanding_credit;
                if amount > limit - outstanding {
                    return Err(LedgerError::CreditLimitExceeded);
                }
                self.viewers[i].1.credit_limit = limit;
                self.viewers[i].1.outstanding_credit = outstanding + amount;
                proof {
                    assert(self.viewers@ =~= old(self).viewers@.update(
                        i as int,
                        (old(self).viewers@[i as int].0, self.viewers@[i as int].1),
                    ));
                    lemma_map_of_update(old(self).viewers@, i as int, self.viewers@[i as int].1);
                }
                Ok(())
            },
        }
    }

    /// Settling credit off-ledger must not overflow the treasury: a machine
    /// limit of the 128-bit books.
    pub open spec fn can_clear_credit(self, viewer_id: Seq<char>, amount: u128) -> bool {
        self.viewers_map().contains_key(viewer_id) ==> {
            let v = self.viewers_map()[viewer_id];
            let applied = if amount < v.outstanding_credit {
                amount as int
            } else {
                v.outstanding_credit as int
            };
            self.protocol_treasury + applied <= u128::MAX
        }
    }

    /// What `clear_credit` does: an unknown viewer is rejected with no state
    /// change; otherwise the lesser of the amount and the outstanding
    /// balance is cleared and routed into the protocol treasury.
    pub open spec fn clear_credit_spec(
        pre: Self,
        post: Self,
        viewer_id: Seq<char>,
        amount: u128,
        r: Result<(), LedgerError>,
    ) -> bool {
        if !pre.viewers_map().contains_key(viewer_id) {
            r == Err::<(), LedgerError>(LedgerError::NotFound(EntityKind::Viewer)) && post == pre
        } else {
            let v = pre.viewers_map()[viewer_id];
            let applied = if amount < v.outstanding_credit {
                amount as int
            } else {
                v.outstanding_credit as int
            };
            &&& r == Ok::<(), LedgerError>(())
            &&& post == (AdloomLedger {
                viewers: post.viewers,
                protocol_treasury: post.protocol_treasury,
                ..pre
            })
            &&& post.viewers_map() == pre.viewers_map().insert(
                viewer_id,
                (ViewerAccount {
                    outstanding_credit: (v.outstanding_credit - applied) as u128,
                    ..v
                }),
            )
            &&& post.protocol_treasury == pre.protocol_treasury + applied
        }
    }

    /// Clears up to `amount` of a viewer's outstanding credit, routing the
    /// applied amount into the protocol treasury (a direct off-ledger
    /// settlement path).
    pub fn clear_credit(&mut self, viewer_id: &str, amount: u128) -> (r: Result<(), LedgerError>)
        requires
            old(self).well_formed(),
            old(self).can_clear_credit(viewer_id@, amount),
        ensures
            final(self).well_formed(),
            Self::clear_credit_spec(*old(self), *final(self), viewer_id@, amount, r),
    {
        let key = String::from_str(viewer_id);
        match find_key(&self.viewers, &key) {
            None => {
                proof {
                    lemma_map_of_contains(self.viewers@, viewer_id@);
                }
                Err(LedgerError::NotFound(EntityKind::Viewer))
            },
            Some(i) => {
                proof {
                    lemma_map_of_index(self.viewers@, i as int);
                }
                let outstanding = self.viewers[i].1.outstanding_credit;
                let applied = if amount < outstanding {
                    amount
                } else {
                    outstanding
                };
                self.viewers[i].1.outstanding_credit = outstanding - applied;
                self.protocol_treasury = self.protocol_treasury + applied;
                proof {
                    assert(self.viewers@ =~= old(self).viewers@.update(
                        i as int,
                        (old(self).viewers@[i as int].0, self.viewers@[i as int].1),
                    ));
                    lemma_map_of_update(old(self).viewers@, i as int, self.viewers@[i as int].1);
                }
                Ok(())
            },
        }
    }

    /// Staking must not overflow an existing vault's 128-bit stake.
    pub open spec fn can_stake(self, creator_id: Seq<char>, amount: u128) -> bool {
        self.vaults_map().contains_key(creator_id) ==> self.vaults_map()[creator_id].staked_amount
            + amount <= u128::MAX
    }

    /// What `stake_creator_vault` does: an unknown creator is rejected with
    /// no state change; otherwise the amount lands in the creator's vault
    /// (created on first stake, with the fixed yield rate) and the harvest
    /// slot is stamped with the current event-id counter.
    pub open spec fn stake_creator_vault_spec(
        pre: Self,
        post: Self,
        creator_id: Seq<char>,
        amount: u128,
        r: Result<(), LedgerError>,
    ) -> bool {
        if !pre.creators_map().contains_key(creator_id) {
            r == Err::<(), LedgerError>(LedgerError::NotFound(EntityKind::Creator)) && post == pre
        } else {
            &&& r == Ok::<(), LedgerError>(())
            &&& post == (AdloomLedger { creator_vaults: post.creator_vaults, ..pre })
            &&& if pre.vaults_map().contains_key(creator_id) {
                let v = pre.vaults_map()[creator_id];
                post.vaults_map() == pre.vaults_map().insert(
                    creator_id,
                    (CreatorVault {
                        staked_amount: (v.staked_amount + amount) as u128,
                        last_harvest_slot: pre.next_event_id,
                        ..v
                    }),
                )
            } else {
                &&& post.vaults_map().contains_key(creator_id)
                &&& ({
                    let v = post.vaults_map()[creator_id];
                    &&& v.creator_id@ == creator_id
                    &&& v.staked_amount == amount
                    &&& v.apy_bps == VAULT_APY_BPS
                    &&& v.last_harvest_slot == pre.next_event_id
                    &&& post.vaults_map() == pre.vaults_map().insert(creator_id, v)
                })
            }
        }
    }

    /// Stakes into a creator's vault, creating it on first stake.
    pub fn stake_creator_vault(&mut self, creator_id: &str, amount: u128) -> (r: Result<
        (),
        LedgerError,
    >)
        requires
            old(self).well_formed(),
            old(self).can_stake(creator_id@, amount),
        ensures
            final(self).well_formed(),
            Self::stake_creator_vault_spec(*old(self), *final(self), creator_id@, amount, r),
    {
        let key = String::from_str(creator_id);
        if !contains_key(&self.creators, &key) {
            return Err(LedgerError::NotFound(EntityKind::Creator));
        }
        let slot = self.next_event_id;
        match find_key(&self.creator_vaults, &key) {
            Some(i) => {
                proof {
                    lemma_map_of_index(self.creator_vaults@, i as int);
                }
                self.creator_vaults[i].1.staked_amount = self.creator_vaults[i].1.staked_amount
                    + amount;
                self.creator_vaults[i].1.last_harvest_slot = slot;
                proof {
                    assert(self.creator_vaults@ =~= old(self).creator_vaults@.update(
                        i as int,
                        (old(self).creator_vaults@[i as int].0, self.creator_vaults@[i as int].1),
                    ));
                    lemma_map_of_update(
                        old(self).creator_vaults@,
                        i as int,
                        self.creator_vaults@[i as int].1,
                    );
                }
                Ok(())
            },
            None => {
                proof {
                    lemma_map_of_contains(self.creator_vaults@, creator_id@);
                }
                let vault = CreatorVault {
                    creator_id: String::from_str(creator_id),
                    staked_amount: amount,
                    apy_bps: VAULT_APY_BPS,
                    last_harvest_slot: slot,
                };
                proof {
                    lemma_map_of_push(self.creator_vaults@, key, vault);
                }
                self.creator_vaults.push((key, vault));
                Ok(())
            },
        }
    }

    /// The monthly yield of a stake at the fixed annual rate:
    /// `staked * apy / 10000 / 12` with flooring division at each step.
    pub open spec fn spec_vault_yield(staked: u128) -> int {
        staked as int * VAULT_APY_BPS as int / BPS_DENOMINATOR as int / 12
    }

    /// Compounding must not overflow the vault's 128-bit stake.
    pub open spec fn can_harvest(self, creator_id: Seq<char>) -> bool {
        self.vaults_map().contains_key(creator_id) ==> {
            let v = self.vaults_map()[creator_id];
            v.staked_amount + Self::spec_vault_yield(v.staked_amount) <= u128::MAX
        }
    }

    /// What `harvest_creator_vault` does: with no vault for the creator the
    /// call is rejected with no state change; otherwise one period's yield
    /// is computed, compounded into the stake, returned, and the harvest
    /// slot stamped.
    pub open spec fn harvest_creator_vault_spec(
        pre: Self,
        post: Self,
        creator_id: Seq<char>,
        r: Result<u128, LedgerError>,
    ) -> bool {
        if !pre.vaults_map().contains_key(creator_id) {
            r == Err::<u128, LedgerError>(LedgerError::NotFound(EntityKind::Vault)) && post == pre
        } else {
            let v = pre.vaults_map()[creator_id];
            let y = Self::spec_vault_yield(v.staked_amount);
            &&& r == Ok::<u128, LedgerError>(y as u128)
            &&& post == (AdloomLedger { creator_vaults: post.creator_vaults, ..pre })
            &&& post.vaults_map() == pre.vaults_map().insert(
                creator_id,
                (CreatorVault {
                    staked_amount: (v.staked_amount + y) as u128,
                    last_harvest_slot: pre.next_event_id,
                    ..v
                }),
            )
        }
    }

    /// Harvests one period's yield of a creator's vault, compounding it into
    /// the stake and returning it.
    pub fn harvest_creator_vault(&mut self, creator_id: &str) -> (r: Result<u128, LedgerError>)
        requires
            old(self).well_formed(),
            old(self).can_harvest(creator_id@),
        ensures
            final(self).well_formed(),
            Self::harvest_creator_vault_spec(*old(self), *final(self), creator_id@, r),
    {
        let key = String::from_str(creator_id);
        match find_key(&self.creator_vaults, &key) {
            None => {
                proof {
                    lemma_map_of_contains(self.creator_vaults@, creator_id@);
                }
                Err(LedgerError::NotFound(EntityKind::Vault))
            },
            Some(i) => {
                proof {
                    lemma_map_of_index(self.creator_vaults@, i as int);
                }
                let staked = self.creator_vaults[i].1.staked_amount;
                let apy = self.creator_vaults[i].1.apy_bps;
                let reward = mul_frac(staked, apy, BPS_DENOMINATOR) / 12;
                self.creator_vaults[i].1.staked_amount = staked + reward;
                self.creator_vaults[i].1.last_harvest_slot = self.next_event_id;
                proof {
                    assert(self.creator_vaults@ =~= old(self).creator_vaults@.update(
                        i as int,
                        (old(self).creator_vaults@[i as int].0, self.creator_vaults@[i as int].1),
                    ));
                    lemma_map_of_update(
                        old(self).creator_vaults@,
                        i as int,
                        self.creator_vaults@[i as int].1,
                    );
                }
                Ok(reward)
            },
        }
    }

    /// Growing a loan must not overflow its 128-bit principal.
    pub open spec fn can_request_loan(self, viewer_id: Seq<char>, amount: u128) -> bool {
        self.loans_map().contains_key(viewer_id) ==> self.loans_map()[viewer_id].principal + amount
            <= u128::MAX
    }

    /// What `request_afi_loan` does: an unknown viewer is rejected with no
    /// state change; otherwise the amount is added to the loan's principal
    /// and outstanding balance (the loan is created lazily on first
    /// request), and the loan is settled exactly when nothing is
    /// outstanding.
    pub open spec fn request_afi_loan_spec(
        pre: Self,
        post: Self,
        viewer_id: Seq<char>,
        amount: u128,
        r: Result<(), LedgerError>,
    ) -> bool {
        if !pre.viewers_map().contains_key(viewer_id) {
            r == Err::<(), LedgerError>(LedgerError::NotFound(EntityKind::Viewer)) && post == pre
        } else {
            &&& r == Ok::<(), LedgerError>(())
            &&& post == (AdloomLedger { viewer_loans: post.viewer_loans, ..pre })
            &&& if pre.loans_map().contains_key(viewer_id) {
                let l = pre.loans_map()[viewer_id];
                post.loans_map() == pre.loans_map().insert(
                    viewer_id,
                    (AfiLoan {
                        principal: (l.principal + amount) as u128,
                        outstanding: (l.outstanding + amount) as u128,
                        status: if l.outstanding + amount == 0 {
                            LoanStatus::Settled
                        } else {
                            LoanStatus::Active
                        },
                        ..l
                    }),
                )
            } else {
                &&& post.loans_map().contains_key(viewer_id)
                &&& ({
                    let l = post.loans_map()[viewer_id];
                    &&& l.viewer_id@ == viewer_id
                    &&& l.principal == amount
                    &&& l.outstanding == amount
                    &&& l.status == if amount == 0 {
                        LoanStatus::Settled
                    } else {
                        LoanStatus::Active
                    }
                    &&& post.loans_map() == pre.loans_map().insert(viewer_id, l)
                })
            }
        }
    }

    /// Grows (or lazily creates) a viewer's short-term loan.
    pub fn request_afi_loan(&mut self, viewer_id: &str, amount: u128) -> (r: Result<
        (),
        LedgerError,
    >)
        requires
            old(self).well_formed(),
            old(self).can_request_loan(viewer_id@, amount),
        ensures
            final(self).well_formed(),
            Self::request_afi_loan_spec(*old(self), *final(self), viewer_id@, amount, r),
    {
        let key = String::from_str(viewer_id);
        if !contains_key(&self.viewers, &key) {
            return Err(LedgerError::NotFound(EntityKind::Viewer));
        }
        match find_key(&self.viewer_loans, &key) {
            Some(i) => {
                proof {
                    lemma_map_of_index(self.viewer_loans@, i as int);
                }
                let outstanding = self.viewer_loans[i].1.outstanding + amount;
                self.viewer_loans[i].1.principal = self.viewer_loans[i].1.principal + amount;
                self.viewer_loans[i].1.outstanding = outstanding;
                self.viewer_loans[i].1.status = if outstanding == 0 {
                    LoanStatus::Settled
                } else {
                    LoanStatus::Active
                };
                proof {
                    assert(self.viewer_loans@ =~= old(self).viewer_loans@.update(
                        i as int,
                        (old(self).viewer_loans@[i as int].0, self.viewer_loans@[i as int].1),
                    ));
                    lemma_map_of_update(
                        old(self).viewer_loans@,
                        i as int,
                        self.viewer_loans@[i as int].1,
                    );
                }
                Ok(())
            },
            None => {
                proof {
                    lemma_map_of_contains(self.viewer_loans@, viewer_id@);
                }
                let loan = AfiLoan {
                    viewer_id: String::from_str(viewer_id),
                    principal: amount,
                    outstanding: amount,
                    status: if amount == 0 {
                        LoanStatus::Settled
                    } else {
                        LoanStatus::Active
                    },
                };
                proof {
                    lemma_map_of_push(self.viewer_loans@, key, loan);
                }
                self.viewer_loans.push((key, loan));
                Ok(())
            },
        }
    }

    /// Repaying a loan must not overflow the treasury.
    pub open spec fn can_repay_loan(self, viewer_id: Seq<char>, amount: u128) -> bool {
        self.loans_map().contains_key(viewer_id) ==> {
            let l = self.loans_map()[viewer_id];
            let applied = if amount < l.outstanding {
                amount as int
            } else {
                l.outstanding as int
            };
            self.protocol_treasury + applied <= u128::MAX
        }
    }

    /// What `repay_afi_loan` does: with no loan for the viewer the call is
    /// rejected with no state change; otherwise the lesser of the amount and
    /// the outstanding balance is applied, routed into the protocol
    /// treasury, and the loan is settled exactly when nothing remains
    /// outstanding.
    pub open spec fn repay_afi_loan_spec(
        pre: Self,
        post: Self,
        viewer_id: Seq<char>,
        amount: u128,
        r: Result<(), LedgerError>,
    ) -> bool {
        if !pre.loans_map().contains_key(viewer_id) {
            r == Err::<(), LedgerError>(LedgerError::NotFound(EntityKind::Loan)) && post == pre
        } else {
            let l = pre.loans_map()[viewer_id];
            let applied = if amount < l.outstanding {
                amount as int
            } else {
                l.outstanding as int
            };
            &&& r == Ok::<(), LedgerError>(())
            &&& post == (AdloomLedger {
                viewer_loans: post.viewer_loans,
                protocol_treasury: post.protocol_treasury,
                ..pre
            })
            &&& post.loans_map() == pre.loans_map().insert(
                viewer_id,
                (AfiLoan {
                    outstanding: (l.outstanding - applied) as u128,
                    status: if l.outstanding - applied == 0 {
                        LoanStatus::Settled
                    } else {
                        LoanStatus::Active
                    },
                    ..l
                }),
            )
            &&& post.protocol_treasury == pre.protocol_treasury + applied
        }
    }

    /// Repays up to `amount` of a viewer's loan, routing the applied amount
    /// into the protocol treasury.
    pub fn repay_afi_loan(&mut self, viewer_id: &str, amount: u128) -> (r: Result<
        (),
        LedgerError,
    >)
        requires
            old(self).well_formed(),
            old(self).can_repay_loan(viewer_id@, amount),
        ensures
            final(self).well_formed(),
            Self::repay_afi_loan_spec(*old(self), *final(self), viewer_id@, amount, r),
    {
        let key = String::from_str(viewer_id);
        match find_key(&self.viewer_loans, &key) {
            None => {
                proof {
                    lemma_map_of_contains(self.viewer_loans@, viewer_id@);
                }
                Err(LedgerError::NotFound(EntityKind::Loan))
            },
            Some(i) => {
                proof {
                    lemma_map_of_index(self.viewer_loans@, i as int);
                }
                let outstanding = self.viewer_loans[i].1.outstanding;
                let applied = if amount < outstanding {
                    amount
                } else {
                    outstanding
                };
                let remaining = outstanding - applied;
                self.viewer_loans[i].1.outstanding = remaining;
                self.viewer_loans[i].1.status = if remaining == 0 {
                    LoanStatus::Settled
                } else {
                    LoanStatus::Active
                };
                self.protocol_treasury = self.protocol_treasury + applied;
                proof {
                    assert(self.viewer_loans@ =~= old(self).viewer_loans@.update(
                        i as int,
                        (old(self).viewer_loans@[i as int].0, self.viewer_loans@[i as int].1),
                    ));
                    lemma_map_of_update(
                        old(self).viewer_loans@,
                        i as int,
                        self.viewer_loans@[i as int].1,
                    );
                }
                Ok(())
            },
        }
    }

    /// What `submit_brand_instruction` does: an unknown advertiser is
    /// rejected with no state change; otherwise the instruction is appended
    /// under the current event-id counter (read, not incremented) and the
    /// log is truncated to its cap, oldest first.
    pub open spec fn submit_brand_instruction_spec(
        pre: Self,
        post: Self,
        advertiser_id: Seq<char>,
        instruction: String,
        r: Result<(), LedgerError>,
    ) -> bool {
        if !pre.advertisers_map().contains_key(advertiser_id) {
            r == Err::<(), LedgerError>(LedgerError::NotFound(EntityKind::Advertiser)) && post
                == pre
        } else {
            &&& r == Ok::<(), LedgerError>(())
            &&& post == (AdloomLedger { brand_instructions: post.brand_instructions, ..pre })
            &&& post.brand_instructions@.len() > 0
            &&& ({
                let e = post.brand_instructions@.last();
                &&& e.id == pre.next_event_id
                &&& e.advertiser_id@ == advertiser_id
                &&& e.instruction == instruction
                &&& post.brand_instructions@ == log_push(
                    pre.brand_instructions@,
                    e,
                    MAX_INSTRUCTION_HISTORY as nat,
                )
            })
        }
    }

    /// Appends an advertiser instruction to the bounded instruction log.
    pub fn submit_brand_instruction(&mut self, advertiser_id: &str, instruction: String) -> (r:
        Result<(), LedgerError>)
        requires
            old(self).well_formed(),
        ensures
            final(self).well_formed(),
            Self::submit_brand_instruction_spec(
                *old(self),
                *final(self),
                advertiser_id@,
                instruction,
                r,
            ),
    {
        let key = String::from_str(advertiser_id);
        if !contains_key(&self.advertisers, &key) {
            return Err(LedgerError::NotFound(EntityKind::Advertiser));
        }
        let entry = BrandInstruction {
            id: self.next_event_id,
            advertiser_id: key,
            instruction,
        };
        self.brand_instructions.push(entry);
        if self.brand_instructions.len() > MAX_INSTRUCTION_HISTORY {
            self.brand_instructions.remove(0);
            proof {
                assert(self.brand_instructions@ =~= log_push(
                    old(self).brand_instructions@,
                    self.brand_instructions@.last(),
                    MAX_INSTRUCTION_HISTORY as nat,
                ));
            }
        }
        Ok(())
    }

    /// Appends an event to the bounded event log, evicting the oldest entry
    /// once the cap is reached.
    fn push_event(&mut self, event: AttentionEvent)
        requires
            old(self).attention_events@.len() <= MAX_EVENT_HISTORY,
        ensures
            *final(self) == (AdloomLedger { attention_events: final(self).attention_events, ..*old(
                self,
            ) }),
            final(self).attention_events@ == log_push(
                old(self).attention_events@,
                event,
                MAX_EVENT_HISTORY as nat,
            ),
    {
        self.attention_events.push(event);
        if self.attention_events.len() > MAX_EVENT_HISTORY {
            self.attention_events.remove(0);
            proof {
                assert(self.attention_events@ =~= log_push(
                    old(self).attention_events@,
                    event,
                    MAX_EVENT_HISTORY as nat,
                ));
            }
        }
    }

    /// The view of an optional campaign id.
    pub open spec fn opt_view(o: Option<&str>) -> Option<Seq<char>> {
        match o {
            Some(s) => Some(s@),
            None => None,
        }
    }

    /// The creator's cut of a reward: 5500 basis points, floored.
    pub open spec fn spec_creator_share(reward: int) -> int {
        reward * CREATOR_SHARE_BPS as int / BPS_DENOMINATOR as int
    }

    /// The viewer's gross cut of a reward: 3500 basis points, floored.
    pub open spec fn spec_viewer_share(reward: int) -> int {
        reward * VIEWER_SHARE_BPS as int / BPS_DENOMINATOR as int
    }

    /// How much of the viewer's gross share is diverted to repay outstanding
    /// credit: up to 40% of the share (floored), capped at the outstanding
    /// balance.
    pub open spec fn spec_auto_repay(reward: int, outstanding: u128) -> int {
        if outstanding > 0 {
            let cap = Self::spec_viewer_share(reward) * 40 / 100;
            if cap < outstanding {
                cap
            } else {
                outstanding as int
            }
        } else {
            0
        }
    }

    /// Which result `record_verified_view` returns, in the order the checks
    /// are made: zero attention units, reward overflow, campaign lookup and
    /// budget, advertiser lookup and budget, creator lookup, viewer lookup.
    pub open spec fn record_view_outcome(
        pre: Self,
        campaign_id: Option<Seq<char>>,
        advertiser_id: Seq<char>,
        creator_id: Seq<char>,
        viewer_id: Seq<char>,
        attn_units: u64,
        reward_per_unit: u128,
    ) -> Result<(), LedgerError> {
        if attn_units == 0 {
            Err(LedgerError::InvalidInput)
        } else if reward_per_unit as int * attn_units as int > u128::MAX {
            Err(LedgerError::Overflow)
        } else {
            let reward = reward_per_unit as int * attn_units as int;
            let campaign_bad = match campaign_id {
                Some(cid) => if !pre.campaigns_map().contains_key(cid) {
                    Some(LedgerError::NotFound(EntityKind::Campaign))
                } else if pre.campaigns_map()[cid].budget_remaining < reward {
                    Some(LedgerError::InsufficientBudget)
                } else {
                    None
                },
                None => None,
            };
            match campaign_bad {
                Some(e) => Err(e),
                None => if !pre.advertisers_map().contains_key(advertiser_id) {
                    Err(LedgerError::NotFound(EntityKind::Advertiser))
                } else if pre.advertisers_map()[advertiser_id].budget_remaining < reward {
                    Err(LedgerError::InsufficientBudget)
                } else if !pre.creators_map().contains_key(creator_id) {
                    Err(LedgerError::NotFound(EntityKind::Creator))
                } else if !pre.viewers_map().contains_key(viewer_id) {
                    Err(LedgerError::NotFound(EntityKind::Viewer))
                } else {
                    Ok(())
                },
            }
        }
    }

    /// Recording a view that will succeed must not overflow the earning
    /// counters, the treasury, or the event-id counter: machine limits of
    /// the 128-bit books, not business rules.
    pub open spec fn can_record_view(
        self,
        campaign_id: Option<Seq<char>>,
        advertiser_id: Seq<char>,
        creator_id: Seq<char>,
        viewer_id: Seq<char>,
        attn_units: u64,
        reward_per_unit: u128,
    ) -> bool {
        Self::record_view_outcome(
            self,
            campaign_id,
            advertiser_id,
            creator_id,
            viewer_id,
            attn_units,
            reward_per_unit,
        ) == Ok::<(), LedgerError>(()) ==> {
            let reward = reward_per_unit as int * attn_units as int;
            &&& self.viewers_map()[viewer_id].total_earned + reward <= u128::MAX
            &&& self.creators_map()[creator_id].total_earned + reward <= u128::MAX
            &&& self.protocol_treasury + reward <= u128::MAX
            &&& self.next_event_id < u64::MAX
        }
    }

    /// What `record_verified_view` does. A rejected call (see
    /// `record_view_outcome`) leaves the ledger exactly as it was: the whole
    /// operation is atomic, nothing is partially debited. A successful call
    /// splits the reward three ways with the remainder folded into the
    /// protocol share, diverts part of the viewer's share to auto-repay
    /// outstanding credit, debits the campaign (if any) and the advertiser,
    /// credits the creator and the viewer, bumps the global counters and
    /// appends an event whose shares sum exactly to the reward.
    pub open spec fn record_view_spec(
        pre: Self,
        post: Self,
        campaign_id: Option<Seq<char>>,
        advertiser_id: Seq<char>,
        creator_id: Seq<char>,
        viewer_id: Seq<char>,
        attn_units: u64,
        reward_per_unit: u128,
        r: Result<(), LedgerError>,
    ) -> bool {
        let outcome = Self::record_view_outcome(
            pre,
            campaign_id,
            advertiser_id,
            creator_id,
            viewer_id,
            attn_units,
            reward_per_unit,
        );
        if outcome is Err {
            r == outcome && post == pre
        } else {
            let reward = reward_per_unit as int * attn_units as int;
            let cs = Self::spec_creator_share(reward);
            let vs = Self::spec_viewer_share(reward);
            let ps = reward - cs - vs;
            let v = pre.viewers_map()[viewer_id];
            let c = pre.creators_map()[creator_id];
            let a = pre.advertisers_map()[advertiser_id];
            let repay = Self::spec_auto_repay(reward, v.outstanding_credit);
            let new_score = v.attention_score.saturating_add(attn_units);
            &&& r == Ok::<(), LedgerError>(())
            &&& post == (AdloomLedger {
                viewers: post.viewers,
                creators: post.creators,
                advertisers: post.advertisers,
                campaigns: post.campaigns,
                attention_events: post.attention_events,
                protocol_treasury: post.protocol_treasury,
                total_advertiser_value_locked: post.total_advertiser_value_locked,
                total_impressions: post.total_impressions,
                next_event_id: post.next_event_id,
                ..pre
            })
            &&& post.viewers_map() == pre.viewers_map().insert(
                viewer_id,
                (ViewerAccount {
                    total_earned: (v.total_earned + vs - repay) as u128,
                    attention_score: new_score,
                    lifetime_impressions: v.lifetime_impressions.saturating_add(attn_units),
                    outstanding_credit: (v.outstanding_credit - repay) as u128,
                    credit_limit: spec_credit_limit(new_score) as u128,
                    ..v
                }),
            )
            &&& post.creators_map() == pre.creators_map().insert(
                creator_id,
                (CreatorAccount {
                    total_earned: (c.total_earned + cs) as u128,
                    impressions_served: c.impressions_served.saturating_add(attn_units),
                    ..c
                }),
            )
            &&& post.advertisers_map() == pre.advertisers_map().insert(
                advertiser_id,
                (AdvertiserAccount { budget_remaining: (a.budget_remaining - reward) as u128, ..a }),
            )
            &&& (match campaign_id {
                Some(cid) => {
                    let camp = pre.campaigns_map()[cid];
                    post.campaigns_map() == pre.campaigns_map().insert(
                        cid,
                        (Campaign {
                            budget_remaining: (camp.budget_remaining - reward) as u128,
                            impressions_served: camp.impressions_served.saturating_add(attn_units),
                            ..camp
                        }),
                    )
                },
                None => post.campaigns == pre.campaigns,
            })
            &&& post.protocol_treasury == pre.protocol_treasury + ps + repay
            &&& post.total_advertiser_value_locked == pre.total_advertiser_value_locked.saturating_sub(
                (reward as u128),
            )
            &&& post.total_impressions == pre.total_impressions.saturating_add(attn_units)
            &&& post.next_event_id == pre.next_event_id + 1
            &&& post.attention_events@.len() > 0
            &&& ({
                let e = post.attention_events@.last();
                &&& e.id == pre.next_event_id
                &&& (match (campaign_id, e.campaign_id) {
                    (Some(cid), Some(ec)) => ec@ == cid,
                    (None, None) => true,
                    _ => false,
                })
                &&& e.viewer_id@ == viewer_id
                &&& e.creator_id@ == creator_id
                &&& e.advertiser_id@ == advertiser_id
                &&& e.attn_units == attn_units
                &&& e.reward == reward
                &&& e.viewer_share == vs - repay
                &&& e.creator_share == cs
                &&& e.protocol_share == ps + repay
                &&& e.split_exact()
                &&& post.attention_events@ == log_push(
                    pre.attention_events@,
                    e,
                    MAX_EVENT_HISTORY as nat,
                )
            })
        }
    }

    /// The core operation: records one verified view, splitting the reward
    /// between viewer, creator and protocol treasury under the campaign's
    /// and the advertiser's budgets, with credit auto-repayment. Validates
    /// everything first: a rejected operation changes nothing.
    pub fn record_verified_view(
        &mut self,
        campaign_id: Option<&str>,
        advertiser_id: &str,
        creator_id: &str,
        viewer_id: &str,
        attn_units: u64,
        reward_per_unit: u128,
    ) -> (r: Result<(), LedgerError>)
        requires
            old(self).well_formed(),
            old(self).can_record_view(
                Self::opt_view(campaign_id),
                advertiser_id@,
                creator_id@,
                viewer_id@,
                attn_units,
                reward_per_unit,
            ),
        ensures
            final(self).well_formed(),
            Self::record_view_spec(
                *old(self),
                *final(self),
                Self::opt_view(campaign_id),
                advertiser_id@,
                creator_id@,
                viewer_id@,
                attn_units,
                reward_per_unit,
                r,
            ),
    {
        if attn_units == 0 {
            return Err(LedgerError::InvalidInput);
        }
        let reward = match reward_per_unit.checked_mul(attn_units as u128) {
            None => {
                return Err(LedgerError::Overflow);
            },
            Some(rw) => rw,
        };

        // Validation phase: resolve every entity and check every budget
        // before any mutation, so that a failure leaves the books untouched.
        let campaign_idx: Option<usize> = match campaign_id {
            Some(cid) => {
                let ckey = String::from_str(cid);
                match find_key(&self.campaigns, &ckey) {
                    None => {
                        proof {
                            lemma_map_of_contains(self.campaigns@, cid@);
                        }
                        return Err(LedgerError::NotFound(EntityKind::Campaign));
                    },
                    Some(i) => {
                        proof {
                            lemma_map_of_index(self.campaigns@, i as int);
                        }
                        if self.campaigns[i].1.budget_remaining < reward {
                            return Err(LedgerError::InsufficientBudget);
                        }
                        Some(i)
                    },
                }
            },
            None => None,
        };
        let akey = String::from_str(advertiser_id);
        let ai = match find_key(&self.advertisers, &akey) {
            None => {
                proof {
                    lemma_map_of_contains(self.advertisers@, advertiser_id@);
                }
                return Err(LedgerError::NotFound(EntityKind::Advertiser));
            },
            Some(i) => i,
        };
        proof {
            lemma_map_of_index(self.advertisers@, ai as int);
        }
        if self.advertisers[ai].1.budget_remaining < reward {
            return Err(LedgerError::InsufficientBudget);
        }
        let ckey = String::from_str(creator_id);
        let ci = match find_key(&self.creators, &ckey) {
            None => {
                proof {
                    lemma_map_of_contains(self.creators@, creator_id@);
                }
                return Err(LedgerError::NotFound(EntityKind::Creator));
            },
            Some(i) => i,
        };
        let vkey = String::from_str(viewer_id);
        let vi = match find_key(&self.viewers, &vkey) {
            None => {
                proof {
                    lemma_map_of_contains(self.viewers@, viewer_id@);
                }
                return Err(LedgerError::NotFound(EntityKind::Viewer));
            },
            Some(i) => i,
        };
        proof {
            lemma_map_of_index(self.creators@, ci as int);
            lemma_map_of_index(self.viewers@, vi as int);
        }

        // Commit phase: split the reward. The remainder of the two floored
        // shares is folded into the protocol share.
        let creator_share = mul_frac(reward, CREATOR_SHARE_BPS, BPS_DENOMINATOR);
        let viewer_gross = mul_frac(reward, VIEWER_SHARE_BPS, BPS_DENOMINATOR);
        proof {
            assert(reward as int * CREATOR_SHARE_BPS as int + reward as int
                * VIEWER_SHARE_BPS as int == reward as int * 9000);
            lemma_div_sum_le(
                reward as int * CREATOR_SHARE_BPS as int,
                reward as int * VIEWER_SHARE_BPS as int,
                BPS_DENOMINATOR as int,
            );
            lemma_mul_div_le(reward as int, 9000, BPS_DENOMINATOR as int);
        }
        let protocol_share = reward - creator_share - viewer_gross;

        let outstanding = self.viewers[vi].1.outstanding_credit;
        let auto_repay = if outstanding > 0 {
            let cap = mul_frac(viewer_gross, 40, 100);
            if cap < outstanding {
                cap
            } else {
                outstanding
            }
        } else {
            0
        };
        let viewer_share = viewer_gross - auto_repay;

        let campaign_ref: Option<String> = match campaign_idx {
            Some(i) => {
                self.campaigns[i].1.budget_remaining = self.campaigns[i].1.budget_remaining
                    - reward;
                self.campaigns[i].1.impressions_served = self.campaigns[
                    i
                ].1.impressions_served.saturating_add(attn_units);
                proof {
                    assert(self.campaigns@ =~= old(self).campaigns@.update(
                        i as int,
                        (old(self).campaigns@[i as int].0, self.campaigns@[i as int].1),
                    ));
                    lemma_map_of_update(old(self).campaigns@, i as int, self.campaigns@[i as int].1);
                }
                Some(self.campaigns[i].1.id.clone())
            },
            None => None,
        };

        self.advertisers[ai].1.budget_remaining = self.advertisers[ai].1.budget_remaining - reward;
        proof {
            assert(self.advertisers@ =~= old(self).advertisers@.update(
                ai as int,
                (old(self).advertisers@[ai as int].0, self.advertisers@[ai as int].1),
            ));
            lemma_map_of_update(old(self).advertisers@, ai as int, self.advertisers@[ai as int].1);
        }
        self.total_advertiser_value_locked = self.total_advertiser_value_locked.saturating_sub(
            reward,
        );

        self.creators[ci].1.total_earned = self.creators[ci].1.total_earned + creator_share;
        self.creators[ci].1.impressions_served = self.creators[
            ci
        ].1.impressions_served.saturating_add(attn_units);
        proof {
            assert(self.creators@ =~= old(self).creators@.update(
                ci as int,
                (old(self).creators@[ci as int].0, self.creators@[ci as int].1),
            ));
            lemma_map_of_update(old(self).creators@, ci as int, self.creators@[ci as int].1);
        }

        self.viewers[vi].1.outstanding_credit = outstanding - auto_repay;
        self.viewers[vi].1.total_earned = self.viewers[vi].1.total_earned + viewer_share;
        let new_score = self.viewers[vi].1.attention_score.saturating_add(attn_units);
        self.viewers[vi].1.attention_score = new_score;
        self.viewers[vi].1.lifetime_impressions = self.viewers[
            vi
        ].1.lifetime_impressions.saturating_add(attn_units);
        self.viewers[vi].1.credit_limit = derived_credit_limit(new_score);
        proof {
            lemma_credit_limit_monotone(
                old(self).viewers@[vi as int].1.attention_score,
                new_score,
            );
            assert(self.viewers@ =~= old(self).viewers@.update(
                vi as int,
                (old(self).viewers@[vi as int].0, self.viewers@[vi as int].1),
            ));
            lemma_map_of_update(old(self).viewers@, vi as int, self.viewers@[vi as int].1);
        }

        self.protocol_treasury = self.protocol_treasury + protocol_share + auto_repay;
        self.total_impressions = self.total_impressions.saturating_add(attn_units);

        let event = AttentionEvent {
            id: self.next_event_id,
            campaign_id: campaign_ref,
            viewer_id: vkey,
            creator_id: ckey,
            advertiser_id: akey,
            attn_units,
            reward,
            viewer_share,
            creator_share,
            protocol_share: protocol_share + auto_repay,
        };
        self.next_event_id = self.next_event_id + 1;
        self.push_event(event);
        Ok(())
    }

}

} // verus!
