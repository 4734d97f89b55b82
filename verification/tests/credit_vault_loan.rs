use adloom_x_ultra::errors::{EntityKind, LedgerError};
use adloom_x_ultra::ledger::AdloomLedger;
use adloom_x_ultra::vault::LoanStatus;

fn s(text: &str) -> String {
    text.to_string()
}

#[test]
fn credit_limit_enforced_at_request() {
    let mut ledger = AdloomLedger::bootstrap();
    ledger.register_viewer(s("v1"), s("@v")).unwrap();

    // attention_score = 0: limit = 5 + max(0, 5) = 10.
    assert_eq!(
        ledger.request_credit("v1", 11),
        Err(LedgerError::CreditLimitExceeded)
    );
    ledger.request_credit("v1", 10).unwrap();
    let viewer = ledger.get_viewer("v1").unwrap();
    assert_eq!(viewer.outstanding_credit, 10);
    assert_eq!(viewer.credit_limit, 10);
    assert!(viewer.outstanding_credit <= viewer.credit_limit);

    // The line is now exhausted.
    assert_eq!(
        ledger.request_credit("v1", 1),
        Err(LedgerError::CreditLimitExceeded)
    );
    assert_eq!(
        ledger.request_credit("nobody", 1),
        Err(LedgerError::NotFound(EntityKind::Viewer))
    );
}

#[test]
fn clear_credit_routes_to_treasury() {
    let mut ledger = AdloomLedger::bootstrap();
    ledger.register_viewer(s("v1"), s("@v")).unwrap();
    ledger.request_credit("v1", 10).unwrap();

    ledger.clear_credit("v1", 4).unwrap();
    assert_eq!(ledger.get_viewer("v1").unwrap().outstanding_credit, 6);
    assert_eq!(ledger.protocol_treasury, 4);

    // Clearing more than is outstanding applies only the outstanding part.
    ledger.clear_credit("v1", 100).unwrap();
    assert_eq!(ledger.get_viewer("v1").unwrap().outstanding_credit, 0);
    assert_eq!(ledger.protocol_treasury, 10);

    assert_eq!(
        ledger.clear_credit("nobody", 1),
        Err(LedgerError::NotFound(EntityKind::Viewer))
    );
}

#[test]
fn vault_stake_and_harvest_yield() {
    let mut ledger = AdloomLedger::bootstrap();
    ledger.register_creator(s("c1"), s("@c"), s("audio")).unwrap();

    ledger.stake_creator_vault("c1", 200).unwrap();
    let vault = ledger.get_vault("c1").unwrap();
    assert_eq!(vault.creator_id, "c1");
    assert_eq!(vault.staked_amount, 200);
    assert_eq!(vault.apy_bps, 1_200);

    // yield = 200 * 1200 / 10000 / 12 = 2, compounded into the stake.
    let harvested = ledger.harvest_creator_vault("c1").unwrap();
    assert_eq!(harvested, 2);
    assert_eq!(ledger.get_vault("c1").unwrap().staked_amount, 202);

    // A second stake adds to the same vault.
    ledger.stake_creator_vault("c1", 98).unwrap();
    assert_eq!(ledger.get_vault("c1").unwrap().staked_amount, 300);

    assert_eq!(
        ledger.stake_creator_vault("nobody", 1),
        Err(LedgerError::NotFound(EntityKind::Creator))
    );
    assert_eq!(
        ledger.harvest_creator_vault("nobody"),
        Err(LedgerError::NotFound(EntityKind::Vault))
    );
}

#[test]
fn loan_settles_exactly_at_zero_outstanding() {
    let mut ledger = AdloomLedger::bootstrap();
    ledger.register_viewer(s("v1"), s("@v")).unwrap();

    ledger.request_afi_loan("v1", 50).unwrap();
    {
        let loan = ledger.get_loan("v1").unwrap();
        assert_eq!(loan.viewer_id, "v1");
        assert_eq!(loan.principal, 50);
        assert_eq!(loan.outstanding, 50);
        assert_eq!(loan.status, LoanStatus::Active);
    }

    ledger.repay_afi_loan("v1", 25).unwrap();
    {
        let loan = ledger.get_loan("v1").unwrap();
        assert_eq!(loan.outstanding, 25);
        assert_eq!(loan.status, LoanStatus::Active);
        assert!(loan.outstanding <= loan.principal);
    }
    assert_eq!(ledger.protocol_treasury, 25);

    // Overpayment applies only the outstanding part and settles the loan.
    ledger.repay_afi_loan("v1", 100).unwrap();
    {
        let loan = ledger.get_loan("v1").unwrap();
        assert_eq!(loan.outstanding, 0);
        assert_eq!(loan.status, LoanStatus::Settled);
    }
    assert_eq!(ledger.protocol_treasury, 50);

    // Borrowing again reactivates the settled loan.
    ledger.request_afi_loan("v1", 10).unwrap();
    {
        let loan = ledger.get_loan("v1").unwrap();
        assert_eq!(loan.principal, 60);
        assert_eq!(loan.outstanding, 10);
        assert_eq!(loan.status, LoanStatus::Active);
    }

    assert_eq!(
        ledger.request_afi_loan("nobody", 1),
        Err(LedgerError::NotFound(EntityKind::Viewer))
    );
    assert_eq!(
        ledger.repay_afi_loan("nobody", 1),
        Err(LedgerError::NotFound(EntityKind::Loan))
    );
}

#[test]
fn outstanding_credit_total_sums_viewers() {
    let mut ledger = AdloomLedger::bootstrap();
    ledger.register_viewer(s("v1"), s("@a")).unwrap();
    ledger.register_viewer(s("v2"), s("@b")).unwrap();
    ledger.register_viewer(s("v3"), s("@c")).unwrap();
    assert_eq!(ledger.outstanding_credit_total(), 0);
    ledger.request_credit("v1", 10).unwrap();
    ledger.request_credit("v2", 7).unwrap();
    assert_eq!(ledger.outstanding_credit_total(), 17);
    ledger.clear_credit("v1", 4).unwrap();
    assert_eq!(ledger.outstanding_credit_total(), 13);
}
