use adloom_x_ultra::errors::{EntityKind, LedgerError};
use adloom_x_ultra::ledger::AdloomLedger;

fn s(text: &str) -> String {
    text.to_string()
}

fn funded_ledger() -> AdloomLedger {
    let mut ledger = AdloomLedger::bootstrap();
    ledger.register_viewer(s("v1"), s("@v")).unwrap();
    ledger.register_creator(s("c1"), s("@c"), s("audio")).unwrap();
    ledger.register_advertiser(s("a1"), s("Brand"), 1_200).unwrap();
    ledger.fund_campaign("a1", 1_000).unwrap();
    ledger
}

#[test]
fn reward_split_without_campaign() {
    let mut ledger = funded_ledger();
    ledger
        .record_verified_view(None, "a1", "c1", "v1", 5, 10)
        .unwrap();

    // reward = 50; creator 27, viewer 17, protocol absorbs the remainder 6.
    let viewer = ledger.get_viewer("v1").unwrap();
    assert_eq!(viewer.total_earned, 17);
    assert_eq!(viewer.attention_score, 5);
    assert_eq!(viewer.lifetime_impressions, 5);
    let creator = ledger.get_creator("c1").unwrap();
    assert_eq!(creator.total_earned, 27);
    assert_eq!(creator.impressions_served, 5);
    let advertiser = ledger.get_advertiser("a1").unwrap();
    assert_eq!(advertiser.budget_remaining, 950);
    assert_eq!(ledger.protocol_treasury, 6);
    assert_eq!(ledger.total_impressions, 5);
    assert_eq!(ledger.total_advertiser_value_locked, 950);

    let event = ledger.attention_events.last().unwrap();
    assert_eq!(event.id, 0);
    assert_eq!(event.campaign_id, None);
    assert_eq!(event.reward, 50);
    assert_eq!(event.viewer_share, 17);
    assert_eq!(event.creator_share, 27);
    assert_eq!(event.protocol_share, 6);
    assert_eq!(
        event.viewer_share + event.creator_share + event.protocol_share,
        event.reward
    );
    assert_eq!(ledger.next_event_id, 1);
}

#[test]
fn reward_split_with_campaign_debits_both_budgets() {
    let mut ledger = funded_ledger();
    ledger
        .register_campaign("a1", s("camp-1"), 500, 1_500)
        .unwrap();
    ledger
        .record_verified_view(Some("camp-1"), "a1", "c1", "v1", 5, 10)
        .unwrap();

    let campaign = ledger.get_campaign("camp-1").unwrap();
    assert_eq!(campaign.budget_remaining, 450);
    assert_eq!(campaign.impressions_served, 5);
    let advertiser = ledger.get_advertiser("a1").unwrap();
    // 1000 funded directly + 500 via the campaign - 50 reward.
    assert_eq!(advertiser.budget_remaining, 1_450);
    assert_eq!(ledger.total_advertiser_value_locked, 1_450);
    let event = ledger.attention_events.last().unwrap();
    assert_eq!(event.campaign_id.as_deref(), Some("camp-1"));
}

#[test]
fn reward_auto_repays_outstanding_credit() {
    let mut ledger = funded_ledger();
    ledger.request_credit("v1", 10).unwrap();
    assert_eq!(ledger.get_viewer("v1").unwrap().outstanding_credit, 10);

    ledger
        .record_verified_view(None, "a1", "c1", "v1", 5, 10)
        .unwrap();

    // viewer share 17; repayment cap = 17 * 40 / 100 = 6, fully applied.
    let viewer = ledger.get_viewer("v1").unwrap();
    assert_eq!(viewer.outstanding_credit, 4);
    assert_eq!(viewer.total_earned, 11);
    assert_eq!(ledger.protocol_treasury, 6 + 6);
    let event = ledger.attention_events.last().unwrap();
    assert_eq!(event.viewer_share, 11);
    assert_eq!(event.protocol_share, 12);
    assert_eq!(
        event.viewer_share + event.creator_share + event.protocol_share,
        event.reward
    );
    assert!(viewer.outstanding_credit <= viewer.credit_limit);
}

#[test]
fn reward_rejects_zero_units_and_overflow() {
    let mut ledger = funded_ledger();
    let snapshot = ledger.clone();
    assert_eq!(
        ledger.record_verified_view(None, "a1", "c1", "v1", 0, 10),
        Err(LedgerError::InvalidInput)
    );
    assert_eq!(
        ledger.record_verified_view(None, "a1", "c1", "v1", 2, u128::MAX),
        Err(LedgerError::Overflow)
    );
    assert_eq!(ledger, snapshot);
}

#[test]
fn reward_lookup_failures_change_nothing() {
    let mut ledger = funded_ledger();
    let snapshot = ledger.clone();
    assert_eq!(
        ledger.record_verified_view(Some("missing"), "a1", "c1", "v1", 5, 10),
        Err(LedgerError::NotFound(EntityKind::Campaign))
    );
    assert_eq!(
        ledger.record_verified_view(None, "missing", "c1", "v1", 5, 10),
        Err(LedgerError::NotFound(EntityKind::Advertiser))
    );
    assert_eq!(
        ledger.record_verified_view(None, "a1", "missing", "v1", 5, 10),
        Err(LedgerError::NotFound(EntityKind::Creator))
    );
    assert_eq!(
        ledger.record_verified_view(None, "a1", "c1", "missing", 5, 10),
        Err(LedgerError::NotFound(EntityKind::Viewer))
    );
    assert_eq!(ledger, snapshot);
}

#[test]
fn reward_insufficient_budgets_change_nothing() {
    let mut ledger = funded_ledger();
    ledger
        .register_campaign("a1", s("camp-1"), 30, 1_500)
        .unwrap();
    let snapshot = ledger.clone();
    // Campaign holds 30 < 50: the campaign check fires first.
    assert_eq!(
        ledger.record_verified_view(Some("camp-1"), "a1", "c1", "v1", 5, 10),
        Err(LedgerError::InsufficientBudget)
    );
    // Advertiser holds 1030 < 2000.
    assert_eq!(
        ledger.record_verified_view(None, "a1", "c1", "v1", 200, 10),
        Err(LedgerError::InsufficientBudget)
    );
    assert_eq!(ledger, snapshot);
}

#[test]
fn reward_grows_credit_limit_with_score() {
    let mut ledger = funded_ledger();
    ledger
        .record_verified_view(None, "a1", "c1", "v1", 60, 1)
        .unwrap();
    let viewer = ledger.get_viewer("v1").unwrap();
    assert_eq!(viewer.attention_score, 60);
    // limit = 5 + max(60 / 5, 5) = 17, recomputed by the reward path.
    assert_eq!(viewer.credit_limit, 17);
}
