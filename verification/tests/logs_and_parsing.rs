use adloom_x_ultra::amount::parse_amount;
use adloom_x_ultra::errors::{EntityKind, LedgerError};
use adloom_x_ultra::ledger::AdloomLedger;

fn s(text: &str) -> String {
    text.to_string()
}

#[test]
fn instruction_log_capped_at_sixty_oldest_first() {
    let mut ledger = AdloomLedger::bootstrap();
    ledger.register_advertiser(s("a1"), s("Brand"), 900).unwrap();
    for i in 0..65 {
        ledger
            .submit_brand_instruction("a1", format!("instruction {i}"))
            .unwrap();
    }
    assert_eq!(ledger.brand_instructions.len(), 60);
    // The five oldest entries were evicted.
    assert_eq!(ledger.brand_instructions[0].instruction, "instruction 5");
    assert_eq!(
        ledger.brand_instructions.last().unwrap().instruction,
        "instruction 64"
    );
    assert_eq!(
        ledger.submit_brand_instruction("nobody", s("x")),
        Err(LedgerError::NotFound(EntityKind::Advertiser))
    );
}

#[test]
fn event_log_capped_at_one_twenty_oldest_first() {
    let mut ledger = AdloomLedger::bootstrap();
    ledger.register_viewer(s("v1"), s("@v")).unwrap();
    ledger.register_creator(s("c1"), s("@c"), s("audio")).unwrap();
    ledger.register_advertiser(s("a1"), s("Brand"), 900).unwrap();
    ledger.fund_campaign("a1", 1_000_000).unwrap();
    for _ in 0..125 {
        ledger
            .record_verified_view(None, "a1", "c1", "v1", 1, 1)
            .unwrap();
    }
    assert_eq!(ledger.attention_events.len(), 120);
    // Event ids are the sequence counter: the five oldest were evicted.
    assert_eq!(ledger.attention_events[0].id, 5);
    assert_eq!(ledger.attention_events.last().unwrap().id, 124);
    assert_eq!(ledger.next_event_id, 125);
}

#[test]
fn recent_events_newest_first() {
    let mut ledger = AdloomLedger::bootstrap();
    ledger.register_viewer(s("v1"), s("@v")).unwrap();
    ledger.register_creator(s("c1"), s("@c"), s("audio")).unwrap();
    ledger.register_advertiser(s("a1"), s("Brand"), 900).unwrap();
    ledger.fund_campaign("a1", 1_000).unwrap();
    for _ in 0..4 {
        ledger
            .record_verified_view(None, "a1", "c1", "v1", 1, 1)
            .unwrap();
    }
    let recent = ledger.recent_events(3);
    assert_eq!(recent.len(), 3);
    assert_eq!(recent[0].id, 3);
    assert_eq!(recent[1].id, 2);
    assert_eq!(recent[2].id, 1);
    let all = ledger.recent_events(100);
    assert_eq!(all.len(), 4);
    assert_eq!(all[3].id, 0);
}

#[test]
fn parse_amount_accepts_digit_strings() {
    assert_eq!(parse_amount("0"), Some(0));
    assert_eq!(parse_amount("123"), Some(123));
    assert_eq!(parse_amount("005"), Some(5));
    assert_eq!(
        parse_amount("340282366920938463463374607431768211455"),
        Some(u128::MAX)
    );
}

#[test]
fn parse_amount_rejects_everything_else() {
    assert_eq!(parse_amount(""), None);
    assert_eq!(parse_amount("12a"), None);
    assert_eq!(parse_amount("-5"), None);
    assert_eq!(parse_amount("+5"), None);
    assert_eq!(parse_amount(" 5"), None);
    assert_eq!(parse_amount("1.5"), None);
    // One past the 128-bit range.
    assert_eq!(parse_amount("340282366920938463463374607431768211456"), None);
    assert_eq!(parse_amount("99999999999999999999999999999999999999999"), None);
}
