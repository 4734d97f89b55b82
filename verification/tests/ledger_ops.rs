use adloom_x_ultra::errors::{EntityKind, LedgerError};
use adloom_x_ultra::ledger::AdloomLedger;

fn s(text: &str) -> String {
    text.to_string()
}

#[test]
fn bootstrap_is_empty() {
    let ledger = AdloomLedger::bootstrap();
    assert!(ledger.viewers.is_empty());
    assert!(ledger.creators.is_empty());
    assert!(ledger.advertisers.is_empty());
    assert!(ledger.campaigns.is_empty());
    assert!(ledger.creator_vaults.is_empty());
    assert!(ledger.viewer_loans.is_empty());
    assert!(ledger.brand_instructions.is_empty());
    assert!(ledger.attention_events.is_empty());
    assert_eq!(ledger.protocol_treasury, 0);
    assert_eq!(ledger.total_advertiser_value_locked, 0);
    assert_eq!(ledger.total_impressions, 0);
    assert_eq!(ledger.next_event_id, 0);
}

#[test]
fn registration_defaults() {
    let mut ledger = AdloomLedger::bootstrap();
    ledger.register_viewer(s("v1"), s("@v")).unwrap();
    ledger.register_creator(s("c1"), s("@c"), s("audio")).unwrap();
    ledger.register_advertiser(s("a1"), s("Brand"), 900).unwrap();

    let viewer = ledger.get_viewer("v1").unwrap();
    assert_eq!(viewer.handle, "@v");
    assert_eq!(viewer.attention_score, 0);
    assert_eq!(viewer.total_earned, 0);
    assert_eq!(viewer.lifetime_impressions, 0);
    assert_eq!(viewer.outstanding_credit, 0);
    assert_eq!(viewer.credit_limit, 5);

    let creator = ledger.get_creator("c1").unwrap();
    assert_eq!(creator.handle, "@c");
    assert_eq!(creator.category, "audio");
    assert!(creator.ai_optimization);
    assert_eq!(creator.total_earned, 0);
    assert_eq!(creator.impressions_served, 0);

    let advertiser = ledger.get_advertiser("a1").unwrap();
    assert_eq!(advertiser.brand, "Brand");
    assert_eq!(advertiser.ai_notes, "Autopilot awaiting first signal.");
    assert_eq!(advertiser.total_deposited, 0);
    assert_eq!(advertiser.budget_remaining, 0);
    assert_eq!(advertiser.floor_cpm_micros, 900);
    assert_eq!(advertiser.auto_bid_multiplier_bps, 10_000);
}

#[test]
fn second_registration_fails_without_state_change() {
    let mut ledger = AdloomLedger::bootstrap();
    ledger.register_viewer(s("v1"), s("@v")).unwrap();
    ledger.register_creator(s("c1"), s("@c"), s("audio")).unwrap();
    ledger.register_advertiser(s("a1"), s("Brand"), 900).unwrap();

    let snapshot = ledger.clone();
    assert_eq!(
        ledger.register_viewer(s("v1"), s("@other")),
        Err(LedgerError::AlreadyRegistered)
    );
    assert_eq!(
        ledger.register_creator(s("c1"), s("@other"), s("video")),
        Err(LedgerError::AlreadyRegistered)
    );
    assert_eq!(
        ledger.register_advertiser(s("a1"), s("Other"), 1),
        Err(LedgerError::AlreadyRegistered)
    );
    assert_eq!(ledger, snapshot);
}

#[test]
fn fund_campaign_updates_advertiser_and_locked_value() {
    let mut ledger = AdloomLedger::bootstrap();
    ledger.register_advertiser(s("a1"), s("Brand"), 900).unwrap();
    ledger.fund_campaign("a1", 1_000).unwrap();
    ledger.fund_campaign("a1", 250).unwrap();

    let advertiser = ledger.get_advertiser("a1").unwrap();
    assert_eq!(advertiser.total_deposited, 1_250);
    assert_eq!(advertiser.budget_remaining, 1_250);
    assert_eq!(ledger.total_advertiser_value_locked, 1_250);
    assert!(advertiser.budget_remaining <= advertiser.total_deposited);
}

#[test]
fn fund_campaign_unknown_advertiser() {
    let mut ledger = AdloomLedger::bootstrap();
    let snapshot = ledger.clone();
    assert_eq!(
        ledger.fund_campaign("missing", 10),
        Err(LedgerError::NotFound(EntityKind::Advertiser))
    );
    assert_eq!(ledger, snapshot);
}

#[test]
fn configure_ai_agent_overwrites() {
    let mut ledger = AdloomLedger::bootstrap();
    ledger.register_advertiser(s("a1"), s("Brand"), 900).unwrap();
    ledger
        .configure_ai_agent("a1", s("Push retro synthwave."), 1_500, 12_500)
        .unwrap();
    let advertiser = ledger.get_advertiser("a1").unwrap();
    assert_eq!(advertiser.ai_notes, "Push retro synthwave.");
    assert_eq!(advertiser.floor_cpm_micros, 1_500);
    assert_eq!(advertiser.auto_bid_multiplier_bps, 12_500);

    assert_eq!(
        ledger.configure_ai_agent("nobody", s("x"), 1, 1),
        Err(LedgerError::NotFound(EntityKind::Advertiser))
    );
}

#[test]
fn register_campaign_tops_up_advertiser() {
    let mut ledger = AdloomLedger::bootstrap();
    ledger.register_advertiser(s("a1"), s("Brand"), 900).unwrap();
    ledger.fund_campaign("a1", 100).unwrap();
    ledger
        .register_campaign("a1", s("camp-1"), 1_000, 1_500)
        .unwrap();

    let advertiser = ledger.get_advertiser("a1").unwrap();
    assert_eq!(advertiser.total_deposited, 1_100);
    assert_eq!(advertiser.budget_remaining, 1_100);
    assert_eq!(ledger.total_advertiser_value_locked, 1_100);

    let campaign = ledger.get_campaign("camp-1").unwrap();
    assert_eq!(campaign.id, "camp-1");
    assert_eq!(campaign.advertiser_id, "a1");
    assert_eq!(campaign.budget, 1_000);
    assert_eq!(campaign.budget_remaining, 1_000);
    assert_eq!(campaign.floor_cpm_micros, 1_500);
    assert!(campaign.ad_variants.is_empty());
    assert_eq!(campaign.impressions_served, 0);
}

#[test]
fn register_campaign_errors() {
    let mut ledger = AdloomLedger::bootstrap();
    ledger.register_advertiser(s("a1"), s("Brand"), 900).unwrap();
    ledger
        .register_campaign("a1", s("camp-1"), 1_000, 1_500)
        .unwrap();
    let snapshot = ledger.clone();
    assert_eq!(
        ledger.register_campaign("a1", s("camp-1"), 5, 5),
        Err(LedgerError::AlreadyExists)
    );
    assert_eq!(
        ledger.register_campaign("missing", s("camp-2"), 5, 5),
        Err(LedgerError::NotFound(EntityKind::Advertiser))
    );
    assert_eq!(ledger, snapshot);
}

#[test]
fn evolve_ad_variant_upserts_by_id() {
    let mut ledger = AdloomLedger::bootstrap();
    ledger.register_advertiser(s("a1"), s("Brand"), 900).unwrap();
    ledger
        .register_campaign("a1", s("camp-1"), 1_000, 1_500)
        .unwrap();

    ledger
        .evolve_ad_variant("camp-1", s("var-1"), s("First headline"), s("draft"))
        .unwrap();
    ledger
        .evolve_ad_variant("camp-1", s("var-2"), s("Second headline"), s("live"))
        .unwrap();
    {
        let campaign = ledger.get_campaign("camp-1").unwrap();
        assert_eq!(campaign.ad_variants.len(), 2);
        assert_eq!(campaign.ad_variants[0].variant_id, "var-1");
        assert_eq!(campaign.ad_variants[0].headline, "First headline");
        assert_eq!(campaign.ad_variants[0].status, "draft");
        assert_eq!(campaign.ad_variants[0].ctr_bps, 0);
    }

    ledger
        .evolve_ad_variant("camp-1", s("var-1"), s("Sharper headline"), s("live"))
        .unwrap();
    let campaign = ledger.get_campaign("camp-1").unwrap();
    assert_eq!(campaign.ad_variants.len(), 2);
    assert_eq!(campaign.ad_variants[0].variant_id, "var-1");
    assert_eq!(campaign.ad_variants[0].headline, "Sharper headline");
    assert_eq!(campaign.ad_variants[0].status, "live");
    assert_eq!(campaign.ad_variants[1].variant_id, "var-2");

    assert_eq!(
        ledger.evolve_ad_variant("missing", s("v"), s("h"), s("s")),
        Err(LedgerError::NotFound(EntityKind::Campaign))
    );
}
