use crystal_server_core::item::{create_fresh_user_item, Equipment, Inventory, ItemInfoData, UserItemData, INVENTORY_SIZE, EQUIPMENT_SIZE};
use crystal_server_core::quest::{
    QuestFlagTask, QuestId, QuestInfo, QuestItemReward, QuestItemTask, QuestKillTask, QuestManager, QuestProgress, QuestType,
    RequiredClass,
};

fn info(index: i32, name: &str) -> ItemInfoData {
    ItemInfoData { index, durability: 5000, need_identify: false, friendly_name: name.to_string() }
}

fn item(index: i32, count: u16) -> UserItemData {
    create_fresh_user_item(&info(index, "x"), 1, count)
}

fn quest(id: i32) -> QuestInfo {
    QuestInfo {
        id: QuestId(id),
        npc_index: 1,
        finish_npc_index: 2,
        name: "Q".to_string(),
        group: "G".to_string(),
        file_name: "q".to_string(),
        goto_message: String::new(),
        kill_message: String::new(),
        item_message: String::new(),
        flag_message: String::new(),
        description: vec![],
        task_description: vec![],
        return_description: vec![],
        completion_description: vec![],
        required_min_level: 0,
        required_max_level: 0,
        required_quest: 0,
        required_class: RequiredClass(0),
        quest_type: QuestType(0),
        time_limit_seconds: 0,
        carry_items: vec![],
        kill_tasks: vec![QuestKillTask { monster_index: 7, count: 2, message: String::new() }],
        item_tasks: vec![QuestItemTask { item_index: 30, count: 3, message: String::new() }],
        flag_tasks: vec![QuestFlagTask { number: 4, message: String::new() }],
        fixed_rewards: vec![],
        select_rewards: vec![],
        gold_reward: 0,
        exp_reward: 0,
        credit_reward: 0,
    }
}

#[test]
fn fresh_items_come_from_their_template() {
    let it = create_fresh_user_item(&ItemInfoData { index: 12, durability: 900, need_identify: true, friendly_name: "Axe".to_string() }, 77, 3);
    assert_eq!(it.unique_id, 77);
    assert_eq!(it.item_index, 12);
    assert_eq!((it.current_dura, it.max_dura, it.count), (900, 900, 3));
    assert!(!it.identified);
    assert!(it.awake.values.is_empty());
}

#[test]
fn inventory_set_then_get() {
    let mut inv = Inventory::new_default();
    assert_eq!(inv.len(), INVENTORY_SIZE);
    inv.set(3, Some(item(9, 1)));
    assert_eq!(inv.get(3).unwrap().item_index, 9);
    assert!(inv.get(4).is_none());
    inv.set(INVENTORY_SIZE + 5, Some(item(9, 1)));
    assert!(inv.get(INVENTORY_SIZE + 5).is_none());
    let mut eq = Equipment::new_default();
    assert_eq!(eq.len(), EQUIPMENT_SIZE);
    eq.set(0, Some(item(1, 1)));
    assert_eq!(eq.get(0).unwrap().item_index, 1);
}

#[test]
fn quest_manager_stores_by_id() {
    let mut m = QuestManager::new();
    m.insert(quest(5));
    assert_eq!(m.get(QuestId(5)).unwrap().name, "Q");
    assert_eq!(m.quests().len(), 1);
    m.get_mut(QuestId(5)).unwrap().name = "R".to_string();
    assert_eq!(m.remove(QuestId(5)).unwrap().name, "R");
    assert!(m.get(QuestId(5)).is_none());
}

#[test]
fn kills_stop_at_the_required_count() {
    let q = quest(1);
    let mut p = QuestProgress::new_from_quest(&q);
    assert!(!p.taken());
    assert!(p.need_kill(7));
    p.process_kill(7);
    p.process_kill(7);
    p.process_kill(7);
    assert_eq!(p.kill_tasks[0].count, 2);
    assert!(!p.need_kill(7));
    p.process_kill(99);
    assert_eq!(p.kill_tasks[0].count, 2);
}

#[test]
fn items_and_flags_are_counted() {
    let q = quest(1);
    let mut p = QuestProgress::new_from_quest(&q);
    let bag = vec![Some(item(30, 2)), None, Some(item(31, 5)), Some(item(30, 2))];
    p.process_item(&bag);
    assert_eq!(p.item_tasks[0].count, 4);
    assert!(!p.need_item(30));
    let mut flags = vec![false; 1010];
    flags[4] = true;
    p.process_flag(&flags);
    assert!(p.flag_tasks[0].state);
    assert!(!p.need_flag(4));
}

#[test]
fn flags_in_the_reserved_tail_are_ignored() {
    let q = quest(1);
    let mut p = QuestProgress::new_from_quest(&q);
    let mut flags = vec![false; 1004];
    flags[4] = true;
    p.process_flag(&flags);
    assert!(!p.flag_tasks[0].state);
}

#[test]
fn completion_and_task_lines() {
    let q = quest(1);
    let infos = vec![info(30, "Herb")];
    let mut p = QuestProgress::new_from_quest(&q);
    p.start_time_ms = Some(1000);
    assert!(!p.check_completed(&q, &infos, 2000));
    assert_eq!(
        p.task_list,
        vec!["Kill 7: 0/2".to_string(), "Collect Herb: 0/3".to_string(), "Activate Flag 4".to_string()]
    );
    p.process_kill(7);
    p.process_kill(7);
    p.process_item(&vec![Some(item(30, 3))]);
    let mut flags = vec![false; 1005];
    flags[4] = true;
    p.process_flag(&flags);
    assert!(p.check_completed(&q, &infos, 3000));
    assert_eq!(p.end_time_ms, Some(3000));
    assert!(p.check_completed(&q, &infos, 4000));
    assert_eq!(p.end_time_ms, Some(3000));
    assert_eq!(p.task_list[0], "Kill 7: 2/2 (Completed)");
}

#[test]
fn a_quest_is_new_for_a_day() {
    let q = quest(1);
    let mut p = QuestProgress::new_from_quest(&q);
    assert!(!p.is_new(0));
    p.start_time_ms = Some(0);
    assert!(p.is_new(86_400_000));
    assert!(!p.is_new(86_400_001));
}

#[test]
fn progress_record_bytes() {
    let q = quest(1);
    let mut p = QuestProgress::new_from_quest(&q);
    p.task_list = vec!["ab".to_string()];
    p.start_time_ms = Some(0);
    let bytes = p.to_client_progress_bytes(5);
    assert_eq!(bytes, vec![1, 0, 0, 0, 1, 0, 0, 0, 2, b'a', b'b', 1, 0, 1]);
}

#[test]
fn long_strings_get_a_two_byte_length() {
    let s = "x".repeat(200);
    let bytes = crystal_server_core::wire::encode_client_progress_bytes(-1, &[s], false, true, false);
    assert_eq!(&bytes[0..8], &[255, 255, 255, 255, 1, 0, 0, 0]);
    assert_eq!(&bytes[8..10], &[200, 1]);
    assert_eq!(bytes.len(), 8 + 2 + 200 + 3);
    assert_eq!(&bytes[bytes.len() - 3..], &[0, 1, 0]);
}

#[test]
fn quest_info_record_layout() {
    let mut q = quest(5);
    q.description = vec!["ab".to_string()];
    q.required_min_level = 1;
    q.required_max_level = 2;
    q.required_class = RequiredClass(3);
    q.quest_type = QuestType(1);
    q.time_limit_seconds = 60;
    q.gold_reward = 100;
    q.exp_reward = 200;
    q.fixed_rewards = vec![QuestItemReward { item_index: 30, count: 2 }, QuestItemReward { item_index: 99, count: 1 }];
    let bytes = q.encode_client_info_bytes(&[info(30, "Gem")], &[vec![0xAA, 0xBB]]);
    let expected: Vec<u8> = vec![
        5, 0, 0, 0, 1, 0, 0, 0, 1, b'Q', 1, b'G',
        1, 0, 0, 0, 2, b'a', b'b',
        0, 0, 0, 0, 0, 0, 0, 0, 0, 0, 0, 0,
        1, 0, 0, 0, 2, 0, 0, 0, 0, 0, 0, 0,
        3, 1,
        60, 0, 0, 0, 100, 0, 0, 0, 200, 0, 0, 0, 0, 0, 0, 0,
        1, 0, 0, 0, 0xAA, 0xBB, 2, 0,
        0, 0, 0, 0,
        2, 0, 0, 0,
    ];
    assert_eq!(bytes, expected);
}
