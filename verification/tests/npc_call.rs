use crystal_server_core::npc_call::{
    call_npc_gate, global_timer_key, npc_panel, paid_teleport_step, player_timer_key, set_timer_key, CallNpcGate,
    NpcPanel, PaidTeleport,
};

#[test]
fn call_gate_checks_in_order() {
    let long_key = "@".repeat(31);
    let ok_key = "@".repeat(30);
    assert_eq!(call_npc_gate(false, &long_key, 5, 9, Some((0, 0)), (0, 0)), CallNpcGate::Ignore);
    assert_eq!(call_npc_gate(true, &long_key, 9, 9, Some((0, 0)), (0, 0)), CallNpcGate::Disconnect);
    assert_eq!(call_npc_gate(true, &ok_key, 9, 9, None, (0, 0)), CallNpcGate::DefaultNpc);
    assert_eq!(call_npc_gate(true, "@MAIN", 5, 9, None, (0, 0)), CallNpcGate::NoNpc);
    assert_eq!(call_npc_gate(true, "@MAIN", 5, 9, Some((16, -16)), (0, 0)), CallNpcGate::Open);
    assert_eq!(call_npc_gate(true, "@MAIN", 5, 9, Some((17, 0)), (0, 0)), CallNpcGate::OutOfRange);
    assert_eq!(call_npc_gate(true, "@MAIN", 5, 9, Some((0, -17)), (0, 0)), CallNpcGate::OutOfRange);
    assert_eq!(call_npc_gate(true, "éééééééééééééééééééééééééééééé", 5, 9, Some((0, 0)), (0, 0)), CallNpcGate::Open);
}

#[test]
fn page_keys_pick_panels() {
    assert_eq!(npc_panel("@MANAGEHERO"), NpcPanel::ManageHeroes);
    assert_eq!(npc_panel("@CREATEHERO"), NpcPanel::CreateHero);
    assert_eq!(npc_panel("@BUY"), NpcPanel::Buy { sell_after: false });
    assert_eq!(npc_panel("@BUYNEW"), NpcPanel::Buy { sell_after: false });
    assert_eq!(npc_panel("@BUYSELL"), NpcPanel::Buy { sell_after: true });
    assert_eq!(npc_panel("@BUYSELLNEW"), NpcPanel::Buy { sell_after: true });
    assert_eq!(npc_panel("@SELL"), NpcPanel::SellOnly);
    assert_eq!(npc_panel("@BUYBACK"), NpcPanel::BuyBack);
    assert_eq!(npc_panel("@BUYUSED"), NpcPanel::BuyUsed);
    assert_eq!(npc_panel("@MAIN"), NpcPanel::Dialog);
    assert_eq!(npc_panel("@buy"), NpcPanel::Dialog);
}

#[test]
fn paid_teleport_takes_the_price_only_when_gold_reaches_it() {
    assert!(matches!(paid_teleport_step(None, 100, None), PaidTeleport::NoStats));
    match paid_teleport_step(Some(99), 100, Some("@FAIL".to_string())) {
        PaidTeleport::Refused { fail_page } => assert_eq!(fail_page.as_deref(), Some("@FAIL")),
        other => panic!("unexpected {:?}", other),
    }
    assert!(matches!(paid_teleport_step(Some(99), 100, None), PaidTeleport::Refused { fail_page: None }));
    assert!(matches!(paid_teleport_step(Some(100), 100, None), PaidTeleport::Charged { gold_after: 0, lost: 100 }));
    assert!(matches!(paid_teleport_step(Some(250), 100, None), PaidTeleport::Charged { gold_after: 150, lost: 100 }));
    assert!(matches!(
        paid_teleport_step(Some(i64::MAX), -1, None),
        PaidTeleport::Charged { gold_after: i64::MAX, lost: u32::MAX }
    ));
}

#[test]
fn timer_keys() {
    assert_eq!(global_timer_key("Race"), "_-Race");
    assert_eq!(player_timer_key("Bob", "Race"), "Bob-Race");
    assert_eq!(set_timer_key(true, Some("Bob"), "Race"), Some("_-Race".to_string()));
    assert_eq!(set_timer_key(false, Some("Bob"), "Race"), Some("Bob-Race".to_string()));
    assert_eq!(set_timer_key(false, None, "Race"), None);
}
