use crystal_server_core::npc_actions::{
    act_commands_of, extract_expire_timer, extract_open_browser_url, extract_paid_teleport_info, extract_play_sound,
    extract_roll_action, extract_set_timer,
};
use crystal_server_core::npc_pages::{
    parse_npc_script, parse_npc_trade_goods, render_npc_page_with_if, resolve_move_map, MapName,
};
use std::collections::HashMap;

const SCRIPT: &str = "[@MAIN]
#SAY
Hello
#ACT
openbrowser http://example.com extra
PLAYSOUND abc
PLAYSOUND 42
[@Timer]
#ACT
SETTIMER t1 -5 200 TRUE
SETTIMER t2 10 2
EXPIRETIMER t1
#SAY
ignored
#ACT
ROLLYUT @Result true
";

fn lines(s: &str) -> Vec<&str> {
    s.lines().collect()
}

#[test]
fn act_commands_follow_the_label() {
    let ls = lines(SCRIPT);
    assert_eq!(
        act_commands_of(&ls, "@main"),
        vec!["openbrowser http://example.com extra", "PLAYSOUND abc", "PLAYSOUND 42"]
    );
    assert_eq!(act_commands_of(&ls, "@TIMER"), vec!["SETTIMER t1 -5 200 TRUE", "SETTIMER t2 10 2", "EXPIRETIMER t1", "ROLLYUT @Result true"]);
    assert!(act_commands_of(&ls, "@NONE").is_empty());
}

#[test]
fn first_commands_are_read() {
    let ls = lines(SCRIPT);
    assert_eq!(extract_open_browser_url(&ls, "@MAIN"), Some("http://example.com".to_string()));
    assert_eq!(extract_open_browser_url(&ls, "@TIMER"), None);
    assert_eq!(extract_play_sound(&ls, "@MAIN"), Some(42));
    assert_eq!(extract_set_timer(&ls, "@timer"), Some(("t1".to_string(), 0, 200, true)));
    assert_eq!(extract_expire_timer(&ls, "@TIMER"), Some("t1".to_string()));
    assert_eq!(extract_roll_action(&ls, "@TIMER"), Some((1, "@Result".to_string(), true)));
    assert_eq!(extract_roll_action(&ls, "@MAIN"), None);
}

#[test]
fn set_timer_needs_numbers() {
    let ls = lines("[@A]\n#ACT\nSETTIMER k x 1\nSETTIMER k 5 300\nSETTIMER k 7 3\n");
    assert_eq!(extract_set_timer(&ls, "@A"), Some(("k".to_string(), 7, 3, false)));
    let ls = lines("[@A]\n#ACT\nROLLDIE @P no\n");
    assert_eq!(extract_roll_action(&ls, "@A"), Some((0, "@P".to_string(), false)));
}

#[test]
fn paid_teleport_reads_price_and_fail_page() {
    let ls = lines("[@GO]\n#IF\n#ACT\nTAKEGOLD 500\nTAKEGOLD 700\nMOVE 0 1 2\n#ELSEACT\n\n  goto  [@poor] \n[@OTHER]\n#ACT\nTAKEGOLD 9\n");
    assert_eq!(extract_paid_teleport_info(&ls, "@GO"), Some((700, Some("@POOR".to_string()))));
    let ls = lines("[@GO]\n#ELSEACT\nGOTO @X\n");
    assert_eq!(extract_paid_teleport_info(&ls, "@GO"), Some((0, Some("@X".to_string()))));
    let ls = lines("[@GO]\n#ACT\nTAKEGOLD many\n#ELSEACT\n#SAY\n");
    assert_eq!(extract_paid_teleport_info(&ls, "@GO"), None);
}

#[test]
fn pages_render_their_if_segments() {
    let ls = lines("[@MAIN]\n#SAY\nWelcome\n#IF\nCHECKPKPOINT > 2\n#SAY\nGo away\n#ELSESAY\nHi friend\n[@NEXT]\n#SAY\nother\n");
    assert_eq!(render_npc_page_with_if(&ls, "@main", 5), Some(vec!["Welcome".to_string(), "Go away".to_string()]));
    assert_eq!(render_npc_page_with_if(&ls, "@MAIN", 0), Some(vec!["Welcome".to_string(), "Hi friend".to_string()]));
    assert_eq!(render_npc_page_with_if(&ls, "@NEXT", 0), None);
    let unreadable = lines("[@MAIN]\n#IF\nNOSUCHCHECK\n#SAY\nx\n");
    assert_eq!(render_npc_page_with_if(&unreadable, "@MAIN", 0), None);
}

#[test]
fn trade_goods_are_read() {
    let ls = lines("[@MAIN]\n#SAY\nhi\n[trade]\nSword 3\n\nPotion\nShield x\n[@BUY]\n[TRADE]\nRing 70000\n");
    assert_eq!(
        parse_npc_trade_goods(&ls),
        vec![
            ("Sword".to_string(), 3),
            ("Potion".to_string(), 1),
            ("Shield".to_string(), 1),
            ("Ring".to_string(), 1)
        ]
    );
}

#[test]
fn scripts_declare_pages_and_moves() {
    let ls = lines("[@Main]\n#SAY\nHello\n  there\n#ACT\nGIVEGOLD 1\n\nMOVE Bichon 300 x\n[@main]\n#SAY\nAgain\n[@Out]\n#ACT\n\nMOVE\n");
    let s = parse_npc_script(&ls).unwrap();
    let pages: HashMap<String, Vec<String>> = s.pages.into_iter().collect();
    let moves: HashMap<String, (String, i32, i32)> = s.moves.into_iter().collect();
    assert_eq!(pages.len(), 1);
    assert_eq!(pages["@MAIN"], vec!["Again".to_string()]);
    assert_eq!(moves.len(), 1);
    assert_eq!(moves["@MAIN"], ("Bichon".to_string(), 300, 0));
}

#[test]
fn an_act_directly_before_a_directive_never_finishes() {
    assert!(parse_npc_script(&lines("[@A]\n#ACT\n#SAY\nx\n")).is_none());
    assert!(parse_npc_script(&lines("#ACT\n#SAY\n[@A]\n#ACT\n\n#SAY\n")).is_some());
}

#[test]
fn pages_without_if_fall_back() {
    let ls = lines("[@A]\n#SAY\nhello\n#ACT\nGOTO @B\n[@B]\n#SAY\nbye\n");
    assert_eq!(render_npc_page_with_if(&ls, "@A", 0), None);
    assert_eq!(render_npc_page_with_if(&ls, "@B", 100), None);
}

#[test]
fn script_lookups_take_the_last_declaration() {
    let ls = lines("[@MAIN]\n#SAY\nfirst\n[@Main-1]\n#SAY\nalt\n[@main]\n#SAY\nsecond\n#ACT\nMOVE 3 1 2\n[@X]\n#ACT\nMOVE Bichon\n");
    let s = parse_npc_script(&ls).unwrap();
    assert_eq!(s.page("@MAIN"), Some(&vec!["second".to_string()]));
    assert_eq!(s.page("@main"), None);
    assert_eq!(s.default_page("@main"), Some(&vec!["alt".to_string()]));
    assert_eq!(s.default_page("@X"), None);
    assert_eq!(s.move_to("@MAIN"), Some(&("3".to_string(), 1, 2)));
    assert_eq!(s.move_to("@X"), Some(&("Bichon".to_string(), 0, 0)));
    let plain = parse_npc_script(&lines("[@MAIN]\n#SAY\nonly\n")).unwrap();
    assert_eq!(plain.default_page("@Main"), Some(&vec!["only".to_string()]));
}

#[test]
fn move_destinations() {
    let maps = vec![
        MapName { index: 0, file_name: "0".to_string() },
        MapName { index: 3, file_name: "BichonProvince".to_string() },
        MapName { index: 7, file_name: "3".to_string() },
    ];
    assert_eq!(resolve_move_map("3", &maps), Some(3));
    assert_eq!(resolve_move_map("bichonprovince", &maps), Some(3));
    assert_eq!(resolve_move_map("12", &maps), None);
    assert_eq!(resolve_move_map("Nowhere", &maps), None);
}
