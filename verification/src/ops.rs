//! The command surface: one operation = one state transition.
//!
//! Amount fields are transmitted as decimal text and parsed at this
//! boundary; an unparsable amount rejects the operation as invalid input.
//! `apply_operation` dispatches a decoded operation to the one ledger method
//! it names, and its contract ties each command to that method's transition
//! relation.

use crate::amount::{parse_amount, parse_amount_spec};
use crate::errors::{EntityKind, LedgerError};
use crate::ledger::AdloomLedger;
use vstd::prelude::*;

verus! {

/// One decoded command, carrying only primitive string and integer fields.
#[derive(Clone, Debug, PartialEq, Eq)]
pub enum Operation {
    RegisterViewer { viewer_id: String, handle: String },
    RegisterCreator { creator_id: String, handle: String, category: String },
    RegisterAdvertiser { advertiser_id: String, brand: String, floor_cpm_micros: u64 },
    FundCampaign { advertiser_id: String, amount: String },
    RegisterCampaign { advertiser_id: String, campaign_id: String, budget: String, floor_cpm_micros: u64 },
    ConfigureAiAgent { advertiser_id: String, ai_notes: String, floor_cpm_micros: u64, bid_multiplier_bps: u64 },
    RecordVerifiedView {
        campaign_id: Option<String>,
        advertiser_id: String,
        creator_id: String,
        viewer_id: String,
        attn_units: u64,
        reward_per_unit: String,
    },
    EvolveAdVariant { campaign_id: String, variant_id: String, headline: String, status: String },
    StakeCreatorVault { creator_id: String, amount: String },
    HarvestCreatorVaultYield { creator_id: String },
    RequestAttentionCredit { viewer_id: String, amount: String },
    ClearAttentionCredit { viewer_id: String, amount: String },
    RequestAfiLoan { viewer_id: String, amount: String },
    RepayAfiLoan { viewer_id: String, amount: String },
    SubmitBrandInstruction { advertiser_id: String, instruction: String },
}

/// The view of an optional id string.
pub open spec fn opt_string_view(o: Option<String>) -> Option<Seq<char>> {
    match o {
        Some(s) => Some(s@),
        None => None,
    }
}

/// The machine-limit conditions under which an operation can be applied:
/// the 128-bit counters the operation would grow must have room. Operations
/// that will be rejected anyway are always admissible.
pub open spec fn op_admissible(l: AdloomLedger, op: Operation) -> bool {
    match op {
        Operation::FundCampaign { advertiser_id, amount } => match parse_amount_spec(amount@) {
            Some(a) => l.can_fund(advertiser_id@, a),
            None => true,
        },
        Operation::RegisterCampaign { advertiser_id, campaign_id, budget, .. } => match parse_amount_spec(
            budget@,
        ) {
            Some(b) => !l.campaigns_map().contains_key(campaign_id@) ==> l.can_fund(
                advertiser_id@,
                b,
            ),
            None => true,
        },
        Operation::RecordVerifiedView {
            campaign_id,
            advertiser_id,
            creator_id,
            viewer_id,
            attn_units,
            reward_per_unit,
        } => match parse_amount_spec(reward_per_unit@) {
            Some(rpu) => l.can_record_view(
                opt_string_view(campaign_id),
                advertiser_id@,
                creator_id@,
                viewer_id@,
                attn_units,
                rpu,
            ),
            None => true,
        },
        Operation::StakeCreatorVault { creator_id, amount } => match parse_amount_spec(amount@) {
            Some(a) => l.can_stake(creator_id@, a),
            None => true,
        },
        Operation::HarvestCreatorVaultYield { creator_id } => l.can_harvest(creator_id@),
        Operation::ClearAttentionCredit { viewer_id, amount } => match parse_amount_spec(amount@) {
            Some(a) => l.can_clear_credit(viewer_id@, a),
            None => true,
        },
        Operation::RequestAfiLoan { viewer_id, amount } => match parse_amount_spec(amount@) {
            Some(a) => l.can_request_loan(viewer_id@, a),
            None => true,
        },
        Operation::RepayAfiLoan { viewer_id, amount } => match parse_amount_spec(amount@) {
            Some(a) => l.can_repay_loan(viewer_id@, a),
            None => true,
        },
        _ => true,
    }
}

/// What applying one decoded operation does: an unparsable amount is
/// rejected as invalid input with no state change; otherwise the operation
/// behaves exactly as the ledger method it names.
pub open spec fn apply_spec(
    pre: AdloomLedger,
    post: AdloomLedger,
    op: Operation,
    r: Result<(), LedgerError>,
) -> bool {
    match op {
        Operation::RegisterViewer { viewer_id, handle } => AdloomLedger::register_viewer_spec(
            pre,
            post,
            viewer_id@,
            handle,
            r,
        ),
        Operation::RegisterCreator { creator_id, handle, category } => AdloomLedger::register_creator_spec(
            pre,
            post,
            creator_id@,
            handle,
            category,
            r,
        ),
        Operation::RegisterAdvertiser {
            advertiser_id,
            brand,
            floor_cpm_micros,
        } => AdloomLedger::register_advertiser_spec(
            pre,
            post,
            advertiser_id@,
            brand,
            floor_cpm_micros,
            r,
        ),
        Operation::FundCampaign { advertiser_id, amount } => match parse_amount_spec(amount@) {
            Some(a) => AdloomLedger::fund_campaign_spec(pre, post, advertiser_id@, a, r),
            None => r == Err::<(), LedgerError>(LedgerError::InvalidInput) && post == pre,
        },
        Operation::RegisterCampaign {
            advertiser_id,
            campaign_id,
            budget,
            floor_cpm_micros,
        } => match parse_amount_spec(budget@) {
            Some(b) => AdloomLedger::register_campaign_spec(
                pre,
                post,
                advertiser_id@,
                campaign_id@,
                b,
                floor_cpm_micros,
                r,
            ),
            None => r == Err::<(), LedgerError>(LedgerError::InvalidInput) && post == pre,
        },
        Operation::ConfigureAiAgent {
            advertiser_id,
            ai_notes,
            floor_cpm_micros,
            bid_multiplier_bps,
        } => AdloomLedger::configure_ai_agent_spec(
            pre,
            post,
            advertiser_id@,
            ai_notes,
            floor_cpm_micros,
            bid_multiplier_bps,
            r,
        ),
        Operation::RecordVerifiedView {
            campaign_id,
            advertiser_id,
            creator_id,
            viewer_id,
            attn_units,
            reward_per_unit,
        } => match parse_amount_spec(reward_per_unit@) {
            Some(rpu) => AdloomLedger::record_view_spec(
                pre,
                post,
                opt_string_view(campaign_id),
                advertiser_id@,
                creator_id@,
                viewer_id@,
                attn_units,
                rpu,
                r,
            ),
            None => r == Err::<(), LedgerError>(LedgerError::InvalidInput) && post == pre,
        },
        Operation::EvolveAdVariant {
            campaign_id,
            variant_id,
            headline,
            status,
        } => AdloomLedger::evolve_ad_variant_spec(
            pre,
            post,
            campaign_id@,
            variant_id,
            headline,
            status,
            r,
        ),
        Operation::StakeCreatorVault { creator_id, amount } => match parse_amount_spec(amount@) {
            Some(a) => AdloomLedger::stake_creator_vault_spec(pre, post, creator_id@, a, r),
            None => r == Err::<(), LedgerError>(LedgerError::InvalidInput) && post == pre,
        },
        Operation::HarvestCreatorVaultYield { creator_id } => {
            if !pre.vaults_map().contains_key(creator_id@) {
                r == Err::<(), LedgerError>(LedgerError::NotFound(EntityKind::Vault)) && post
                    == pre
            } else {
                let y = AdloomLedger::spec_vault_yield(
                    pre.vaults_map()[creator_id@].staked_amount,
                );
                r == Ok::<(), LedgerError>(()) && AdloomLedger::harvest_creator_vault_spec(
                    pre,
                    post,
                    creator_id@,
                    Ok(y as u128),
                )
            }
        },
        Operation::RequestAttentionCredit { viewer_id, amount } => match parse_amount_spec(
            amount@,
        ) {
            Some(a) => AdloomLedger::request_credit_spec(pre, post, viewer_id@, a, r),
            None => r == Err::<(), LedgerError>(LedgerError::InvalidInput) && post == pre,
        },
        Operation::ClearAttentionCredit { viewer_id, amount } => match parse_amount_spec(amount@) {
            Some(a) => AdloomLedger::clear_credit_spec(pre, post, viewer_id@, a, r),
            None => r == Err::<(), LedgerError>(LedgerError::InvalidInput) && post == pre,
        },
        Operation::RequestAfiLoan { viewer_id, amount } => match parse_amount_spec(amount@) {
            Some(a) => AdloomLedger::request_afi_loan_spec(pre, post, viewer_id@, a, r),
            None => r == Err::<(), LedgerError>(LedgerError::InvalidInput) && post == pre,
        },
        Operation::RepayAfiLoan { viewer_id, amount } => match parse_amount_spec(amount@) {
            Some(a) => AdloomLedger::repay_afi_loan_spec(pre, post, viewer_id@, a, r),
            None => r == Err::<(), LedgerError>(LedgerError::InvalidInput) && post == pre,
        },
        Operation::SubmitBrandInstruction {
            advertiser_id,
            instruction,
        } => AdloomLedger::submit_brand_instruction_spec(pre, post, advertiser_id@, instruction, r),
    }
}

impl AdloomLedger {
    /// Applies one decoded operation: parses its amount fields and invokes
    /// exactly one ledger method. A failed parse or a rejected operation
    /// leaves the ledger unchanged.
    pub fn apply_operation(&mut self, op: Operation) -> (r: Result<(), LedgerError>)
        requires
            old(self).well_formed(),
            op_admissible(*old(self), op),
        ensures
            final(self).well_formed(),
            apply_spec(*old(self), *final(self), op, r),
    {
        match op {
            Operation::RegisterViewer { viewer_id, handle } => self.register_viewer(
                viewer_id,
                handle,
            ),
            Operation::RegisterCreator { creator_id, handle, category } => self.register_creator(
                creator_id,
                handle,
                category,
            ),
            Operation::RegisterAdvertiser { advertiser_id, brand, floor_cpm_micros } => self
                .register_advertiser(advertiser_id, brand, floor_cpm_micros),
            Operation::FundCampaign { advertiser_id, amount } => match parse_amount(
                amount.as_str(),
            ) {
                Some(a) => self.fund_campaign(advertiser_id.as_str(), a),
                None => Err(LedgerError::InvalidInput),
            },
            Operation::RegisterCampaign {
                advertiser_id,
                campaign_id,
                budget,
                floor_cpm_micros,
            } => match parse_amount(budget.as_str()) {
                Some(b) => self.register_campaign(
                    advertiser_id.as_str(),
                    campaign_id,
                    b,
                    floor_cpm_micros,
                ),
                None => Err(LedgerError::InvalidInput),
            },
            Operation::ConfigureAiAgent {
                advertiser_id,
                ai_notes,
                floor_cpm_micros,
                bid_multiplier_bps,
            } => self.configure_ai_agent(
                advertiser_id.as_str(),
                ai_notes,
                floor_cpm_micros,
                bid_multiplier_bps,
            ),
            Operation::RecordVerifiedView {
                campaign_id,
                advertiser_id,
                creator_id,
                viewer_id,
                attn_units,
                reward_per_unit,
            } => match parse_amount(reward_per_unit.as_str()) {
                Some(rpu) => match campaign_id {
                    Some(cid) => self.record_verified_view(
                        Some(cid.as_str()),
                        advertiser_id.as_str(),
                        creator_id.as_str(),
                        viewer_id.as_str(),
                        attn_units,
                        rpu,
                    ),
                    None => self.record_verified_view(
                        None,
                        advertiser_id.as_str(),
                        creator_id.as_str(),
                        viewer_id.as_str(),
                        attn_units,
                        rpu,
                    ),
                },
                None => Err(LedgerError::InvalidInput),
            },
            Operation::EvolveAdVariant { campaign_id, variant_id, headline, status } => self
                .evolve_ad_variant(campaign_id.as_str(), variant_id, headline, status),
            Operation::StakeCreatorVault { creator_id, amount } => match parse_amount(
                amount.as_str(),
            ) {
                Some(a) => self.stake_creator_vault(creator_id.as_str(), a),
                None => Err(LedgerError::InvalidInput),
            },
            Operation::HarvestCreatorVaultYield { creator_id } => match self.harvest_creator_vault(
                creator_id.as_str(),
            ) {
                Ok(_) => Ok(()),
                Err(e) => Err(e),
            },
            Operation::RequestAttentionCredit { viewer_id, amount } => match parse_amount(
                amount.as_str(),
            ) {
                Some(a) => self.request_credit(viewer_id.as_str(), a),
                None => Err(LedgerError::InvalidInput),
            },
            Operation::ClearAttentionCredit { viewer_id, amount } => match parse_amount(
                amount.as_str(),
            ) {
                Some(a) => self.clear_credit(viewer_id.as_str(), a),
                None => Err(LedgerError::InvalidInput),
            },
            Operation::RequestAfiLoan { viewer_id, amount } => match parse_amount(
                amount.as_str(),
            ) {
                Some(a) => self.request_afi_loan(viewer_id.as_str(), a),
                None => Err(LedgerError::InvalidInput),
            },
            Operation::RepayAfiLoan { viewer_id, amount } => match parse_amount(amount.as_str()) {
                Some(a) => self.repay_afi_loan(viewer_id.as_str(), a),
                None => Err(LedgerError::InvalidInput),
            },
            Operation::SubmitBrandInstruction { advertiser_id, instruction } => self
                .submit_brand_instruction(advertiser_id.as_str(), instruction),
        }
    }

    /// Decides whether an operation is admissible against the current
    /// ledger: whether the 128-bit counters it would grow have room. The
    /// shell checks this before applying an operation.
    pub fn can_apply(&self, op: &Operation) -> (b: bool)
        requires
            self.well_formed(),
        ensures
            b == op_admissible(*self, *op),
    {
        match op {
            Operation::FundCampaign { advertiser_id, amount } => match parse_amount(
                amount.as_str(),
            ) {
                Some(a) => self.fund_headroom(advertiser_id.as_str(), a),
                None => true,
            },
            Operation::RegisterCampaign { advertiser_id, campaign_id, budget, .. } => match parse_amount(
                budget.as_str(),
            ) {
                Some(b) => self.get_campaign(campaign_id.as_str()).is_some()
                    || self.fund_headroom(advertiser_id.as_str(), b),
                None => true,
            },
            Operation::RecordVerifiedView {
                campaign_id,
                advertiser_id,
                creator_id,
                viewer_id,
                attn_units,
                reward_per_unit,
            } => match parse_amount(reward_per_unit.as_str()) {
                Some(rpu) => {
                    if *attn_units == 0 {
                        true
                    } else {
                        match rpu.checked_mul(*attn_units as u128) {
                            None => true,
                            Some(reward) => {
                                let campaign_ok = match campaign_id {
                                    Some(cid) => match self.get_campaign(cid.as_str()) {
                                        Some(c) => c.budget_remaining >= reward,
                                        None => false,
                                    },
                                    None => true,
                                };
                                if !campaign_ok {
                                    true
                                } else {
                                    match self.get_advertiser(advertiser_id.as_str()) {
                                        None => true,
                                        Some(a) => if a.budget_remaining < reward {
                                            true
                                        } else {
                                            match (
                                                self.get_creator(creator_id.as_str()),
                                                self.get_viewer(viewer_id.as_str()),
                                            ) {
                                                (Some(c), Some(v)) => v.total_earned.checked_add(
                                                    reward,
                                                ).is_some() && c.total_earned.checked_add(
                                                    reward,
                                                ).is_some() && self.protocol_treasury.checked_add(
                                                    reward,
                                                ).is_some() && self.next_event_id < u64::MAX,
                                                _ => true,
                                            }
                                        },
                                    }
                                }
                            },
                        }
                    }
                },
                None => true,
            },
            Operation::StakeCreatorVault { creator_id, amount } => match parse_amount(
                amount.as_str(),
            ) {
                Some(a) => match self.get_vault(creator_id.as_str()) {
                    Some(v) => v.staked_amount.checked_add(a).is_some(),
                    None => true,
                },
                None => true,
            },
            Operation::HarvestCreatorVaultYield { creator_id } => match self.get_vault(
                creator_id.as_str(),
            ) {
                Some(v) => {
                    proof {
                        self.lemma_wf_map_values();
                    }
                    let y = crate::arith::mul_frac(
                        v.staked_amount,
                        v.apy_bps,
                        crate::ledger::BPS_DENOMINATOR,
                    ) / 12;
                    v.staked_amount.checked_add(y).is_some()
                },
                None => true,
            },
            Operation::ClearAttentionCredit { viewer_id, amount } => match parse_amount(
                amount.as_str(),
            ) {
                Some(a) => match self.get_viewer(viewer_id.as_str()) {
                    Some(v) => {
                        let applied = if a < v.outstanding_credit {
                            a
                        } else {
                            v.outstanding_credit
                        };
                        self.protocol_treasury.checked_add(applied).is_some()
                    },
                    None => true,
                },
                None => true,
            },
            Operation::RequestAfiLoan { viewer_id, amount } => match parse_amount(
                amount.as_str(),
            ) {
                Some(a) => match self.get_loan(viewer_id.as_str()) {
                    Some(l) => l.principal.checked_add(a).is_some(),
                    None => true,
                },
                None => true,
            },
            Operation::RepayAfiLoan { viewer_id, amount } => match parse_amount(amount.as_str()) {
                Some(a) => match self.get_loan(viewer_id.as_str()) {
                    Some(l) => {
                        let applied = if a < l.outstanding {
                            a
                        } else {
                            l.outstanding
                        };
                        self.protocol_treasury.checked_add(applied).is_some()
                    },
                    None => true,
                },
                None => true,
            },
            _ => true,
        }
    }

    /// Whether funding this advertiser by `amount` leaves its deposit
    /// counter and the global locked-value counter within the 128-bit range.
    fn fund_headroom(&self, advertiser_id: &str, amount: u128) -> (b: bool)
        requires
            self.well_formed(),
        ensures
            b == self.can_fund(advertiser_id@, amount),
    {
        match self.get_advertiser(advertiser_id) {
            Some(a) => a.total_deposited.checked_add(amount).is_some()
                && self.total_advertiser_value_locked.checked_add(amount).is_some(),
            None => true,
        }
    }
}

} // verus!
