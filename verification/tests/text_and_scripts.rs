use crystal_server_core::logging::{format_line, push_ring, route, LogChannel, LogLevel, LogRings, MAX_LOG_ENTRIES};
use crystal_server_core::npc_script::process_if_segment;
use crystal_server_core::quest_text::{
    apply_translations, extract_first_quoted, parse_flag_task, parse_item_task, parse_kill_task, parse_quest_text,
    parse_reward_lines, parse_translation_map, section_lines, split_lines, QuestItemReward, TranslationMap,
};
use crystal_server_core::session_rules::{
    direction_from_point, enqueue_for_viewers, enqueue_pending_move, facing_each_other, in_range,
    is_action_blocked_now, item_name_colour_for_grade, normalize_npc_key, safezone_spell_object_id, PendingMoveKind,
};
use std::collections::{HashMap, VecDeque};

fn items(name: &str) -> Option<i32> {
    match name {
        "Sword" => Some(10),
        "Robe(M)" => Some(21),
        "Robe(F)" => Some(22),
        _ => None,
    }
}

fn monsters(name: &str) -> Option<i32> {
    if name == "Hen" { Some(5) } else { None }
}

#[test]
fn lines_split_on_every_break() {
    assert_eq!(split_lines("a\r\nb\rc\n\nd\n"), vec!["a", "b", "c", "", "d"]);
    assert_eq!(split_lines(""), Vec::<String>::new());
    assert_eq!(split_lines("\r\r\n"), vec!["", ""]);
    assert_eq!(split_lines("one"), vec!["one"]);
}

#[test]
fn quoted_text() {
    assert_eq!(extract_first_quoted("Kill \"five hens\" now \"x\""), "five hens");
    assert_eq!(extract_first_quoted("no quote"), "");
    assert_eq!(extract_first_quoted("one \"open"), "");
}

#[test]
fn task_lines() {
    let t = parse_item_task("Sword 3 \"Bring swords\"", &items).unwrap();
    assert_eq!((t.item_index, t.count, t.message.as_str()), (10, 3, "Bring swords"));
    let t = parse_item_task("Sword x", &items).unwrap();
    assert_eq!(t.count, 1);
    assert!(parse_item_task("Shield 2", &items).is_none());
    assert!(parse_item_task("", &items).is_none());
    let k = parse_kill_task("Hen -4", &monsters).unwrap();
    assert_eq!((k.monster_index, k.count), (5, -4));
    let f = parse_flag_task("12 \"flag\"").unwrap();
    assert_eq!((f.number, f.message.as_str()), (12, "flag"));
    assert!(parse_flag_task("1000").is_none());
    assert!(parse_flag_task("abc").is_none());
    assert!(parse_flag_task("").is_none());
}

#[test]
fn reward_lines_try_gendered_names() {
    let mut out = Vec::new();
    parse_reward_lines(&mut out, "Sword 2", &items);
    parse_reward_lines(&mut out, "Robe", &items);
    parse_reward_lines(&mut out, "Nothing 5", &items);
    parse_reward_lines(&mut out, "", &items);
    assert_eq!(
        out,
        vec![
            QuestItemReward { item_index: 10, count: 2 },
            QuestItemReward { item_index: 21, count: 1 },
            QuestItemReward { item_index: 22, count: 1 },
        ]
    );
}

#[test]
fn sections_collect_until_the_next_header() {
    let lines: Vec<String> = vec!["[@description]", "first", "", "second", "[@KILLTASKS]", "Hen 2", "// end", "[@DESCRIPTION]", "third"]
        .into_iter()
        .map(String::from)
        .collect();
    assert_eq!(section_lines(&lines, "[@DESCRIPTION]"), vec!["first", "second", "third"]);
    let data = parse_quest_text(&lines, 1, &items, &monsters, None);
    assert_eq!(data.description, vec!["first", "second", "third"]);
    assert_eq!(data.kill_tasks.len(), 1);
    assert_eq!(data.kill_tasks[0].count, 2);
    assert!(data.item_tasks.is_empty());
}

#[test]
fn whole_quest_file() {
    let text = "[@DESCRIPTION]\nHello\n[@ITEMTASKS]\nSword 2 \"get\"\n[@FLAGTASKS]\n3\n1200\n[@FIXEDREWARDS]\nRobe\n[@EXPREWARD]\n100\nabc\n[@GOLDREWARD]\n7\n9\n";
    let lines = split_lines(text);
    let data = parse_quest_text(&lines, 1, &items, &monsters, None);
    assert_eq!(data.description, vec!["Hello"]);
    assert_eq!(data.item_tasks.len(), 1);
    assert_eq!(data.item_tasks[0].message, "get");
    assert_eq!(data.flag_tasks.len(), 1);
    assert_eq!(data.flag_tasks[0].number, 3);
    assert_eq!(data.fixed_rewards.len(), 2);
    assert_eq!(data.exp_reward, 100);
    assert_eq!(data.gold_reward, 9);
    assert_eq!(data.credit_reward, 0);
}

#[test]
fn translations_replace_lines() {
    let csv = "quest;a;b;type;line;x;text\n7;;;Description;1;;Bonjour\n7;;;Description;0;; \nbad;;;Description;0;;Nope\n7;;;Description;x;;Zero\n";
    let map = parse_translation_map(csv);
    assert!(!map.is_empty());
    assert_eq!(map.get(7, "Description", 1).unwrap(), "Bonjour");
    assert_eq!(map.get(7, "Description", 0).unwrap(), "Zero");
    assert!(map.get(7, "TaskDescription", 0).is_none());
    let mut list = vec!["Hello".to_string(), "World".to_string(), "!".to_string()];
    apply_translations(7, "Description", &mut list, &map);
    assert_eq!(list, vec!["Zero", "Bonjour", "!"]);
    let lines: Vec<String> = vec!["[@DESCRIPTION]".to_string(), "a".to_string(), "b".to_string()];
    let data = parse_quest_text(&lines, 7, &items, &monsters, Some(&map));
    assert_eq!(data.description, vec!["Zero", "Bonjour"]);
    assert!(parse_translation_map("header only").is_empty());
    let mut m = TranslationMap::new();
    m.insert(1, "A".to_string(), 0, "x".to_string());
    m.insert(1, "A".to_string(), 0, "y".to_string());
    assert_eq!(m.get(1, "A", 0).unwrap(), "y");
}

#[test]
fn the_csv_header_row_is_skipped() {
    let csv = "7;;;Description;0;;First\n7;;;Description;1;;Second\n";
    let map = parse_translation_map(csv);
    assert!(map.get(7, "Description", 0).is_none());
    assert_eq!(map.get(7, "Description", 1).unwrap(), "Second");
}

#[test]
fn if_segments() {
    let page = ["#IF", "CHECKPKPOINT > 200", "#SAY", "You are wanted.", "#ELSESAY", "Welcome.", "#ACT", "[@NEXT]"];
    assert_eq!(process_if_segment(&page, 0, 300), Some((vec!["You are wanted.".to_string()], 6, true)));
    assert_eq!(process_if_segment(&page, 0, 100), Some((vec!["Welcome.".to_string()], 6, true)));
    let plain = ["#IF", "; note", "", "#SAY", "  Hi  ", "[@MAIN]"];
    assert_eq!(process_if_segment(&plain, 0, 0), Some((vec!["  Hi  ".to_string()], 5, false)));
    let levels = ["#IF", "LEVEL > 10", "CHECKGENDER female", "#SAY", "ok", "#IF"];
    assert_eq!(process_if_segment(&levels, 0, 0), Some((vec!["ok".to_string()], 5, true)));
    assert_eq!(process_if_segment(&["#IF", "CHECKWEATHER rain"], 0, 0), None);
    assert_eq!(process_if_segment(&["#IF", "LEVEL > x"], 0, 0), None);
    assert_eq!(process_if_segment(&["#IF", "CHECKPKPOINT ~ 5"], 0, 0), None);
    assert_eq!(process_if_segment(&["#IF", "RANDOM 0"], 0, 0), None);
    assert_eq!(process_if_segment(&["#IF"], 0, 0), Some((vec![], 1, false)));
}

#[test]
fn log_lines_and_rings() {
    assert_eq!(format_line(LogLevel::Info, "net", "up"), "[INFO] net: up");
    assert_eq!(format_line(LogLevel::Warn, "db", ""), "[WARN] db");
    assert_eq!(route(LogLevel::Error, "chat"), LogChannel::Chat);
    assert_eq!(route(LogLevel::Trace, "x"), LogChannel::Debug);
    assert_eq!(route(LogLevel::Info, "x"), LogChannel::General);
    let mut buf = Vec::new();
    push_ring(&mut buf, String::new());
    assert!(buf.is_empty());
    for i in 0..(MAX_LOG_ENTRIES + 3) {
        push_ring(&mut buf, format!("{}", i));
    }
    assert_eq!(buf.len(), MAX_LOG_ENTRIES);
    assert_eq!(buf[0], "3");
    let mut rings = LogRings::new();
    rings.record(LogLevel::Debug, "ai", "tick");
    rings.record(LogLevel::Info, "chat", "hi");
    let (logs, debug, chat) = rings.snapshot();
    assert_eq!(debug, vec!["[DEBUG] ai: tick"]);
    assert_eq!(chat, vec!["[INFO] chat: hi"]);
    assert!(logs.is_empty());
}

#[test]
fn map_geometry() {
    assert!(in_range(0, 0, 3, -3, 3));
    assert!(!in_range(0, 0, 4, 0, 3));
    assert_eq!(direction_from_point(5, 5, 5, 4), 0);
    assert_eq!(direction_from_point(5, 5, 6, 4), 1);
    assert_eq!(direction_from_point(5, 5, 6, 5), 2);
    assert_eq!(direction_from_point(5, 5, 6, 6), 3);
    assert_eq!(direction_from_point(5, 5, 5, 6), 4);
    assert_eq!(direction_from_point(5, 5, 4, 6), 5);
    assert_eq!(direction_from_point(5, 5, 4, 5), 6);
    assert_eq!(direction_from_point(5, 5, 4, 4), 7);
    assert!(facing_each_other(2, 0, 0, 6, 1, 0));
    assert!(!facing_each_other(2, 0, 0, 2, 1, 0));
}

#[test]
fn marker_ids_and_colours() {
    assert_eq!(safezone_spell_object_id(1, 2, 3), 0x8000_0000 | (1 << 20) | (2 << 10) | 3);
    assert_eq!(safezone_spell_object_id(-1, -5, 5000), (0xFFFu32 << 20) | (0 << 10) | (5000 & 0x3FF) | 0x8000_0000);
    assert_eq!(safezone_spell_object_id(0, 0, 0), safezone_spell_object_id(2048, 0, 0));
    assert_eq!(item_name_colour_for_grade(2), 0xFF00BFFFu32 as i32);
    assert_eq!(item_name_colour_for_grade(0), -1);
    assert_eq!(item_name_colour_for_grade(5), 0xFFFF0000u32 as i32);
}

#[test]
fn npc_keys() {
    assert_eq!(normalize_npc_key("  [main] "), "@MAIN");
    assert_eq!(normalize_npc_key("@buy"), "@BUY");
    assert_eq!(normalize_npc_key("[]"), "@[]");
    assert_eq!(normalize_npc_key(""), "@");
}

#[test]
fn cooldowns_and_move_queue() {
    assert!(is_action_blocked_now(10, Some(20)));
    assert!(!is_action_blocked_now(20, Some(20)));
    assert!(!is_action_blocked_now(10, Some(0)));
    assert!(!is_action_blocked_now(10, None));
    let mut q = VecDeque::new();
    for d in 0..12u8 {
        enqueue_pending_move(&mut q, PendingMoveKind::Walk, d, 100, Some(50));
    }
    assert_eq!(q.len(), 10);
    assert_eq!(q.front().unwrap().direction, 2);
    assert_eq!(q.back().unwrap().due_time_ms, 100);
    enqueue_pending_move(&mut q, PendingMoveKind::Run, 7, 100, Some(500));
    assert_eq!(q.back().unwrap().due_time_ms, 500);
    assert_eq!(q.back().unwrap().kind, PendingMoveKind::Run);
}

#[test]
fn packets_reach_every_viewer_but_the_sender() {
    let mut boxes: HashMap<u64, Vec<Vec<u8>>> = HashMap::new();
    boxes.insert(2, vec![vec![9]]);
    enqueue_for_viewers(&mut boxes, &vec![1, 2, 3, 3], 1, &vec![7, 7]);
    assert!(boxes.get(&1).is_none());
    assert_eq!(boxes[&2], vec![vec![9], vec![7, 7]]);
    assert_eq!(boxes[&3], vec![vec![7, 7], vec![7, 7]]);
}

#[test]
fn log_buffers_stay_bounded_and_free_of_empty_lines() {
    let mut rings = LogRings::new();
    for i in 0..(3 * MAX_LOG_ENTRIES) {
        let level = match i % 3 {
            0 => LogLevel::Info,
            1 => LogLevel::Debug,
            _ => LogLevel::Warn,
        };
        let target = if i % 5 == 0 { "chat" } else { "world" };
        let message = if i % 2 == 0 { String::new() } else { format!("{}", i) };
        rings.record(level, target, &message);
        let (logs, debug, chat) = rings.snapshot();
        for buf in [&logs, &debug, &chat] {
            assert!(buf.len() <= MAX_LOG_ENTRIES);
            assert!(buf.iter().all(|l| !l.is_empty()));
        }
    }
    let (logs, debug, chat) = rings.snapshot();
    assert_eq!(logs.len(), MAX_LOG_ENTRIES);
    assert_eq!(logs.last().unwrap(), "[INFO] world: 1533");
    assert_eq!(rings.snapshot(), (logs, debug, chat));
}
