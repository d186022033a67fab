use crystal_server_core::npc_text::{
    agit_guild_name_text, class_name, contains_text, expand_npc_placeholders, guild_name_text, mount_loyalty_text,
    needed_placeholders, npc_display_name, placeholder, replace_all, roll_result_text, PLACEHOLDER_COUNT,
    expand_npc_page, npc_placeholder_values, placeholder_value_of, PlaceholderFacts, TICKS_PER_DAY,
};
use crystal_server_core::account::CharacterSummary;
use crystal_server_core::text::int_text;

fn no_values() -> Vec<Option<String>> {
    vec![None; PLACEHOLDER_COUNT]
}

fn slot(token: &str) -> usize {
    (0..PLACEHOLDER_COUNT).find(|&i| placeholder(i) == token).unwrap()
}

#[test]
fn replace_all_matches_str_replace() {
    for (line, pat, val) in [
        ("Hello <$USERNAME>!", "<$USERNAME>", "Bob"),
        ("<$X><$X>", "<$X>", "1"),
        ("aaa", "aa", "b"),
        ("abb", "ab", "a"),
        ("nothing here", "<$MAP>", "Bichon"),
        ("", "<$MAP>", "x"),
        ("héllo wörld", "ö", "o"),
    ] {
        assert_eq!(replace_all(line, pat, val), line.replace(pat, val));
    }
}

#[test]
fn contains_text_matches_str_contains() {
    assert!(contains_text("Hi <$LEVEL>", "<$LEVEL>"));
    assert!(!contains_text("Hi <$LEVEL", "<$LEVEL>"));
    assert!(contains_text("abc", ""));
    assert!(!contains_text("", "a"));
    assert!(contains_text("abc", "abc"));
}

#[test]
fn placeholders_fill_in_order() {
    let mut values = no_values();
    values[slot("<$USERNAME>")] = Some("Ann <$LEVEL>".to_string());
    values[slot("<$LEVEL>")] = Some("22".to_string());
    values[slot("<$MOUNT>")] = Some("Horse".to_string());
    let out = expand_npc_placeholders(
        vec![
            "Welcome <$USERNAME>".to_string(),
            "<$MOUNT> / <$MOUNTLOYALTY>".to_string(),
            "<$MAP> stays".to_string(),
        ],
        &values,
    );
    assert_eq!(out, vec!["Welcome Ann 22".to_string(), "Horse / <$MOUNTLOYALTY>".to_string(), "<$MAP> stays".to_string()]);
}

#[test]
fn lines_without_placeholders_are_unchanged() {
    let mut values = no_values();
    values[slot("<$GAMEGOLD>")] = Some("500".to_string());
    let lines = vec!["plain text".to_string(), String::new()];
    assert_eq!(expand_npc_placeholders(lines.clone(), &values), lines);
    assert!(expand_npc_placeholders(vec![], &values).is_empty());
}

#[test]
fn only_mentioned_placeholders_are_needed() {
    let need = needed_placeholders(&["<$HP>/<$MAXHP>".to_string(), "at <$X_COORD>".to_string()]);
    assert_eq!(need.len(), PLACEHOLDER_COUNT);
    for i in 0..PLACEHOLDER_COUNT {
        let expected = ["<$HP>", "<$MAXHP>", "<$X_COORD>"].contains(&placeholder(i));
        assert_eq!(need[i], expected, "{}", placeholder(i));
    }
    assert_eq!(placeholder(0), "<$USERNAME>");
    assert_eq!(placeholder(PLACEHOLDER_COUNT - 1), "<$MOUNTLOYALTY>");
}

#[test]
fn value_texts() {
    assert_eq!(class_name(0), "Warrior");
    assert_eq!(class_name(3), "Assassin");
    assert_eq!(class_name(4), "Unknown");
    assert_eq!(npc_display_name("Old_Man_Jo"), "Old Man Jo");
    assert_eq!(guild_name_text(""), "No Guild");
    assert_eq!(guild_name_text("Wolves"), "Wolves Guild");
    assert_eq!(agit_guild_name_text(""), "NO GUILD");
    assert_eq!(agit_guild_name_text("Wolves"), "Wolves");
    assert_eq!(mount_loyalty_text(Some((120, 300))), "120 (300)");
    assert_eq!(mount_loyalty_text(None), "No Mount");
    assert_eq!(roll_result_text(None), "Not Rolled");
    assert_eq!(roll_result_text(Some("6".to_string())), "6");
}

fn facts() -> PlaceholderFacts {
    PlaceholderFacts {
        character: None,
        map_file_name: None,
        x: 0,
        y: 0,
        hp_mp: None,
        max_hp_mp: None,
        gold_credit: None,
        pk_points: None,
        date: "2024-01-02".to_string(),
        user_count: 0,
        parcel_count: None,
        npc_name: None,
        roll_result: None,
        war_time: 0,
        war_cost: 0,
        buy_gt_gold: 0,
        extend_gt_gold: 0,
        player_guild: String::new(),
        guild_gt_rent_ticks: None,
        now_ticks: 0,
        gt_expiry_text: String::new(),
        equipment: None,
        mount_dura: None,
    }
}

fn lines(ls: &[&str]) -> Vec<String> {
    ls.iter().map(|l| l.to_string()).collect()
}

#[test]
fn npc_name_shows_spaces_for_underscores() {
    let mut f = facts();
    f.npc_name = Some("Old_Man".to_string());
    assert_eq!(expand_npc_page(lines(&["I am <$NPCNAME>.", "Bye"]), &f), lines(&["I am Old Man.", "Bye"]));
    f.npc_name = None;
    assert_eq!(expand_npc_page(lines(&["I am <$NPCNAME>."]), &f), lines(&["I am <$NPCNAME>."]));
}

#[test]
fn page_placeholders_filled_from_facts() {
    let mut f = facts();
    f.character = Some(CharacterSummary {
        index: 1,
        name: "Ann".to_string(),
        level: 22,
        class: 1,
        gender: 0,
        last_access_binary: 0,
        map_index: 0,
        x: 0,
        y: 0,
        direction: 0,
    });
    f.map_file_name = Some("0".to_string());
    f.x = -3;
    f.y = 7;
    f.hp_mp = Some((10, 20));
    f.gold_credit = Some((500, 6));
    f.user_count = 12;
    f.player_guild = "Wolves".to_string();
    f.guild_gt_rent_ticks = Some(3 * TICKS_PER_DAY + 5);
    f.now_ticks = 0;
    f.gt_expiry_text = "2024-02-01 10:00:00".to_string();
    f.extend_gt_gold = 1000;
    f.equipment = Some(vec![Some("Sword".to_string()), None]);
    let out = expand_npc_page(
        lines(&[
            "<$USERNAME> L<$LEVEL> <$CLASS> on <$MAP> at <$X_COORD>,<$Y_COORD>",
            "<$HP>/<$MAXHP> <$MP> <$GAMEGOLD> <$CREDIT> <$PKPOINT> <$DATE> <$USERCOUNT> <$PARCELAMOUNT>",
            "<$ROLLRESULT> <$GUILDNAME> <$AGITGUILDNAME> <$GUILDGTRENTALDAYSLEFT> <$GUILDEXTENDFEE>",
            "<$WEAPON> <$ARMOUR> <$MOUNT> <$MOUNTLOYALTY>",
        ]),
        &f,
    );
    assert_eq!(
        out,
        lines(&[
            "Ann L22 Wizard on 0 at -3,7",
            "10/<$MAXHP> 20 500 6 0 2024-01-02 12 <$PARCELAMOUNT>",
            "Not Rolled Wolves Guild Wolves 3 Expire On: 2024-02-01 10:00:00 ,Extend fee: 1000",
            "Sword No Armour No Mount No Mount",
        ])
    );
}

#[test]
fn placeholder_values_only_where_needed() {
    let mut f = facts();
    f.now_ticks = 0;
    f.player_guild = "G".to_string();
    f.guild_gt_rent_ticks = Some(-(2 * TICKS_PER_DAY) - 1);
    assert_eq!(placeholder_value_of(22, &f), Some("-2".to_string()));
    assert_eq!(placeholder_value_of(23, &f), Some("None".to_string()));
    f.player_guild = String::new();
    assert_eq!(placeholder_value_of(22, &f), Some("0".to_string()));
    assert_eq!(placeholder_value_of(20, &f), Some("No Guild".to_string()));
    let mut needed = vec![false; PLACEHOLDER_COUNT];
    needed[13] = true;
    let values = npc_placeholder_values(&needed, &f);
    assert_eq!(values[13], Some("2024-01-02".to_string()));
    assert_eq!(values.iter().filter(|v| v.is_some()).count(), 1);
}

#[test]
fn decimal_text_of_integers() {
    assert_eq!(int_text(0), "0");
    assert_eq!(int_text(7), "7");
    assert_eq!(int_text(-42), "-42");
    assert_eq!(int_text(1_000_000), "1000000");
    assert_eq!(int_text(i64::MAX), i64::MAX.to_string());
    assert_eq!(int_text(i64::MIN), i64::MIN.to_string());
}
