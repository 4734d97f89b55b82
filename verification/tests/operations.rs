use adloom_x_ultra::errors::LedgerError;
use adloom_x_ultra::ledger::AdloomLedger;
use adloom_x_ultra::ops::Operation;

fn s(text: &str) -> String {
    text.to_string()
}

fn apply(ledger: &mut AdloomLedger, op: Operation, context: &str) {
    assert!(ledger.can_apply(&op), "operation inadmissible: {context}");
    ledger.apply_operation(op).unwrap_or_else(|e| panic!("{context} failed: {e:?}"));
}

#[test]
fn distributes_attention_reward() {
    let mut ledger = AdloomLedger::bootstrap();

    // bootstrap network actors
    apply(
        &mut ledger,
        Operation::RegisterViewer { viewer_id: s("viewer-alpha"), handle: s("@focusmode") },
        "viewer registration",
    );
    apply(
        &mut ledger,
        Operation::RegisterCreator {
            creator_id: s("creator-alpha"),
            handle: s("HoloStudio"),
            category: s("immersive"),
        },
        "creator registration",
    );
    apply(
        &mut ledger,
        Operation::RegisterAdvertiser {
            advertiser_id: s("adv-alpha"),
            brand: s("FluxThreads"),
            floor_cpm_micros: 1200,
        },
        "advertiser registration",
    );
    apply(
        &mut ledger,
        Operation::RegisterCampaign {
            advertiser_id: s("adv-alpha"),
            campaign_id: s("camp-alpha"),
            budget: s("1000"),
            floor_cpm_micros: 1500,
        },
        "campaign registration",
    );
    apply(
        &mut ledger,
        Operation::RecordVerifiedView {
            campaign_id: Some(s("camp-alpha")),
            advertiser_id: s("adv-alpha"),
            creator_id: s("creator-alpha"),
            viewer_id: s("viewer-alpha"),
            attn_units: 5,
            reward_per_unit: s("10"),
        },
        "attention logging",
    );
    apply(
        &mut ledger,
        Operation::StakeCreatorVault { creator_id: s("creator-alpha"), amount: s("200") },
        "vault stake",
    );
    apply(
        &mut ledger,
        Operation::HarvestCreatorVaultYield { creator_id: s("creator-alpha") },
        "vault harvest",
    );
    apply(
        &mut ledger,
        Operation::RequestAfiLoan { viewer_id: s("viewer-alpha"), amount: s("50") },
        "loan request",
    );
    apply(
        &mut ledger,
        Operation::RepayAfiLoan { viewer_id: s("viewer-alpha"), amount: s("25") },
        "loan repayment",
    );
    apply(
        &mut ledger,
        Operation::SubmitBrandInstruction {
            advertiser_id: s("adv-alpha"),
            instruction: s("Boost eco narratives"),
        },
        "instruction submission",
    );

    let viewer = ledger.get_viewer("viewer-alpha").unwrap();
    let creator = ledger.get_creator("creator-alpha").unwrap();
    let campaign = ledger.get_campaign("camp-alpha").unwrap();
    assert!(viewer.total_earned > 0);
    assert_eq!(viewer.lifetime_impressions, 5);
    assert!(creator.total_earned > 0);
    assert_eq!(ledger.total_impressions, 5);
    assert_eq!(campaign.impressions_served, 5);
    assert!(ledger.get_vault("creator-alpha").is_some());
    assert!(ledger.get_loan("viewer-alpha").is_some());
    assert_eq!(
        ledger.brand_instructions.last().unwrap().instruction,
        "Boost eco narratives"
    );
}

#[test]
fn query_global_snapshot() {
    let mut ledger = AdloomLedger::bootstrap();
    ledger.register_viewer(s("viewer-1"), s("@nova")).unwrap();
    ledger
        .register_creator(s("creator-1"), s("NovaPod"), s("audio"))
        .unwrap();
    ledger.register_advertiser(s("adv-1"), s("FluxCo"), 900).unwrap();

    assert_eq!(ledger.viewers.len(), 1);
    assert_eq!(ledger.get_viewer("viewer-1").unwrap().handle, "@nova");
    let board = ledger.leaderboard(1);
    assert_eq!(board.len(), 1);
    assert_eq!(ledger.viewers[board[0]].0, "viewer-1");
}

#[test]
fn leaderboard_sorts_by_descending_score() {
    let mut ledger = AdloomLedger::bootstrap();
    ledger.register_creator(s("c1"), s("@c"), s("audio")).unwrap();
    ledger.register_advertiser(s("a1"), s("Brand"), 900).unwrap();
    ledger.fund_campaign("a1", 10_000).unwrap();
    for (viewer, units) in [("v-low", 3u64), ("v-high", 90), ("v-mid", 40)] {
        ledger.register_viewer(s(viewer), s(viewer)).unwrap();
        ledger
            .record_verified_view(None, "a1", "c1", viewer, units, 1)
            .unwrap();
    }

    let board = ledger.leaderboard(2);
    assert_eq!(board.len(), 2);
    assert_eq!(ledger.viewers[board[0]].0, "v-high");
    assert_eq!(ledger.viewers[board[1]].0, "v-mid");

    let all = ledger.leaderboard(10);
    assert_eq!(all.len(), 3);
    assert_eq!(ledger.viewers[all[2]].0, "v-low");

    // Ties break by ascending id, not by registration order: "v-aa" is
    // registered last but ties with "v-mid" at 40 and sorts before it.
    ledger.register_viewer(s("v-aa"), s("@tie")).unwrap();
    ledger
        .record_verified_view(None, "a1", "c1", "v-aa", 40, 1)
        .unwrap();
    let board = ledger.leaderboard(4);
    assert_eq!(ledger.viewers[board[0]].0, "v-high");
    assert_eq!(ledger.viewers[board[1]].0, "v-aa");
    assert_eq!(ledger.viewers[board[2]].0, "v-mid");
    assert_eq!(ledger.viewers[board[3]].0, "v-low");
}

#[test]
fn well_formedness_check_accepts_reachable_states_only() {
    let mut ledger = AdloomLedger::bootstrap();
    assert!(ledger.is_well_formed());
    ledger.register_viewer(s("v1"), s("@v")).unwrap();
    ledger.register_creator(s("c1"), s("@c"), s("audio")).unwrap();
    ledger.register_advertiser(s("a1"), s("Brand"), 900).unwrap();
    ledger.fund_campaign("a1", 1_000).unwrap();
    ledger.register_campaign("a1", s("camp-1"), 500, 1_500).unwrap();
    ledger.request_credit("v1", 10).unwrap();
    ledger.stake_creator_vault("c1", 200).unwrap();
    ledger.request_afi_loan("v1", 50).unwrap();
    ledger
        .record_verified_view(Some("camp-1"), "a1", "c1", "v1", 5, 10)
        .unwrap();
    assert!(ledger.is_well_formed());

    // A viewer owing more than its limit is inconsistent.
    let mut corrupt = ledger.clone();
    corrupt.viewers[0].1.credit_limit = 0;
    assert!(!corrupt.is_well_formed());

    // A duplicated registry id is inconsistent.
    let mut corrupt = ledger.clone();
    let entry = corrupt.viewers[0].clone();
    corrupt.viewers.push(entry);
    assert!(!corrupt.is_well_formed());

    // An advertiser with more budget than deposits is inconsistent.
    let mut corrupt = ledger.clone();
    corrupt.advertisers[0].1.budget_remaining = corrupt.advertisers[0].1.total_deposited + 1;
    assert!(!corrupt.is_well_formed());

    // A loan marked settled while something is outstanding is inconsistent.
    let mut corrupt = ledger.clone();
    corrupt.viewer_loans[0].1.status = adloom_x_ultra::vault::LoanStatus::Settled;
    assert!(!corrupt.is_well_formed());
}

#[test]
fn unparsable_amount_is_invalid_input() {
    let mut ledger = AdloomLedger::bootstrap();
    ledger.register_advertiser(s("a1"), s("Brand"), 900).unwrap();
    let snapshot = ledger.clone();
    let op = Operation::FundCampaign { advertiser_id: s("a1"), amount: s("ten") };
    assert!(ledger.can_apply(&op));
    assert_eq!(ledger.apply_operation(op), Err(LedgerError::InvalidInput));
    assert_eq!(
        ledger.apply_operation(Operation::RecordVerifiedView {
            campaign_id: None,
            advertiser_id: s("a1"),
            creator_id: s("c"),
            viewer_id: s("v"),
            attn_units: 1,
            reward_per_unit: s("1e3"),
        }),
        Err(LedgerError::InvalidInput)
    );
    assert_eq!(ledger, snapshot);
}

#[test]
fn zero_attention_units_is_invalid_input() {
    let mut ledger = AdloomLedger::bootstrap();
    let op = Operation::RecordVerifiedView {
        campaign_id: None,
        advertiser_id: s("a1"),
        creator_id: s("c1"),
        viewer_id: s("v1"),
        attn_units: 0,
        reward_per_unit: s("10"),
    };
    assert!(ledger.can_apply(&op));
    assert_eq!(ledger.apply_operation(op), Err(LedgerError::InvalidInput));
}

#[test]
fn can_apply_detects_counter_overflow() {
    let mut ledger = AdloomLedger::bootstrap();
    ledger.register_advertiser(s("a1"), s("Brand"), 900).unwrap();
    // Fill the books to the 128-bit brim, then one more unit has no room.
    let everything = s("340282366920938463463374607431768211455");
    let fill = Operation::FundCampaign { advertiser_id: s("a1"), amount: everything };
    assert!(ledger.can_apply(&fill));
    ledger.apply_operation(fill).unwrap();
    let one_more = Operation::FundCampaign { advertiser_id: s("a1"), amount: s("1") };
    assert!(!ledger.can_apply(&one_more));
    // Funding an unknown advertiser stays admissible: it fails cleanly.
    let unknown = Operation::FundCampaign { advertiser_id: s("a2"), amount: s("1") };
    assert!(ledger.can_apply(&unknown));
}

#[test]
fn apply_operation_dispatches_credit_path() {
    let mut ledger = AdloomLedger::bootstrap();
    ledger.register_viewer(s("v1"), s("@v")).unwrap();
    let op = Operation::RequestAttentionCredit { viewer_id: s("v1"), amount: s("10") };
    assert!(ledger.can_apply(&op));
    ledger.apply_operation(op).unwrap();
    assert_eq!(ledger.get_viewer("v1").unwrap().outstanding_credit, 10);
    assert_eq!(
        ledger.apply_operation(Operation::RequestAttentionCredit {
            viewer_id: s("v1"),
            amount: s("1"),
        }),
        Err(LedgerError::CreditLimitExceeded)
    );
    ledger
        .apply_operation(Operation::ClearAttentionCredit { viewer_id: s("v1"), amount: s("3") })
        .unwrap();
    assert_eq!(ledger.get_viewer("v1").unwrap().outstanding_credit, 7);
    assert_eq!(ledger.protocol_treasury, 3);
}
