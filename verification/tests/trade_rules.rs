use crystal_server_core::trade_rules::{
    gold_fits, trade_placement, trade_settlement, Party, TradePlacement, TradeSettlement,
};

#[test]
fn placement_needs_partners_face_to_face() {
    let me = Some((1, 10, 10, 2u8));
    let partner = Some((1, 11, 10, 6u8));
    assert_eq!(trade_placement(false, true, me, partner), TradePlacement::Unlock);
    assert_eq!(trade_placement(true, false, me, partner), TradePlacement::Cancel);
    assert_eq!(trade_placement(true, true, me, partner), TradePlacement::Lock);
    assert_eq!(trade_placement(true, true, me, Some((1, 11, 10, 5))), TradePlacement::Cancel);
    assert_eq!(trade_placement(true, true, me, Some((2, 11, 10, 6))), TradePlacement::Cancel);
    assert_eq!(trade_placement(true, true, Some((1, 10, 10, 2)), Some((1, 30, 10, 6))), TradePlacement::Cancel);
    assert_eq!(trade_placement(true, true, None, partner), TradePlacement::Cancel);
    assert_eq!(trade_placement(true, true, Some((1, i32::MIN, 0, 2)), Some((1, i32::MAX, 0, 6))), TradePlacement::Cancel);
}

#[test]
fn gold_cap() {
    assert!(gold_fits(None, 0));
    assert!(!gold_fits(None, 1));
    assert!(gold_fits(Some(-50), u32::MAX));
    assert!(gold_fits(Some(10), u32::MAX - 10));
    assert!(!gold_fits(Some(11), u32::MAX - 10));
}

fn msgs(s: TradeSettlement) -> Vec<(Party, String)> {
    match s {
        TradeSettlement::Refuse(m) => m,
        _ => panic!("not a refusal"),
    }
}

#[test]
fn settlement_steps() {
    assert!(matches!(trade_settlement(false, true, true, true, 0, 0, None, None), TradeSettlement::Hold));
    assert!(matches!(trade_settlement(true, false, true, true, 0, 0, None, None), TradeSettlement::AwaitPartner));
    assert!(matches!(trade_settlement(true, true, true, true, 5, 7, Some(0), Some(0)), TradeSettlement::Complete));
    assert!(matches!(trade_settlement(true, true, true, true, 0, 0, None, None), TradeSettlement::Complete));
    assert_eq!(
        msgs(trade_settlement(true, true, false, true, 0, 0, None, None)),
        vec![
            (Party::Partner, "Trading partner cannot accept all items.".to_string()),
            (Party::Me, "Unable to accept all items.".to_string())
        ]
    );
    assert_eq!(
        msgs(trade_settlement(true, true, true, true, 5, 0, Some(0), None)),
        vec![
            (Party::Me, "Trading partner cannot accept any more gold.".to_string()),
            (Party::Partner, "Unable to accept any more gold.".to_string())
        ]
    );
    assert_eq!(msgs(trade_settlement(true, true, false, false, 0, 0, None, None)).len(), 4);
}
