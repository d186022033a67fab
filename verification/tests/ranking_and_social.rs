use crystal_server_core::marriage::MarriageSystem;
use crystal_server_core::mentor::{MentorSystem, GRADUATION_BONUS_EXP};
use crystal_server_core::ranking::{ranking_page, RankCharacterInfo, RankType, RankingTables};
use crystal_server_core::world::Job;

fn row(player_id: i64, class: Job, level: u16, experience: i64) -> RankCharacterInfo {
    RankCharacterInfo {
        player_id,
        name: format!("P{}", player_id),
        class,
        level,
        experience,
        last_updated_ms: 0,
    }
}

#[test]
fn rank_type_numbers_round_trip() {
    for v in 0u8..=5 {
        let t = RankType::from_u8(v).unwrap();
        assert_eq!(t.as_u8(), v);
    }
    assert!(RankType::from_u8(6).is_none());
    assert_eq!(RankType::for_job(Job::Archer).as_u8(), 5);
    assert_eq!(RankType::for_job(Job::Warrior).as_u8(), 1);
}

#[test]
fn rankings_are_ordered_by_level_then_experience() {
    let mut t = RankingTables::new();
    t.add_or_update(row(1, Job::Warrior, 10, 500));
    t.add_or_update(row(2, Job::Wizard, 20, 100));
    t.add_or_update(row(3, Job::Warrior, 10, 900));
    let ids: Vec<i64> = t.overall().iter().map(|r| r.player_id).collect();
    assert_eq!(ids, vec![2, 3, 1]);
    let warriors: Vec<i64> = t.rankings_for_class(Job::Warrior).unwrap().iter().map(|r| r.player_id).collect();
    assert_eq!(warriors, vec![3, 1]);
    assert!(t.rankings_for_class(Job::Archer).is_none());
}

#[test]
fn updating_a_player_keeps_a_single_row() {
    let mut t = RankingTables::new();
    t.add_or_update(row(7, Job::Taoist, 5, 0));
    t.add_or_update(row(7, Job::Taoist, 9, 0));
    assert_eq!(t.overall().len(), 1);
    assert_eq!(t.overall()[0].level, 9);
    assert_eq!(t.rankings_for_type(RankType::Taoist).unwrap().len(), 1);
}

#[test]
fn removing_after_update_leaves_no_row() {
    let mut t = RankingTables::new();
    t.add_or_update(row(4, Job::Assassin, 3, 3));
    t.remove_player(4);
    assert!(t.overall().is_empty());
    assert!(t.rankings_for_class(Job::Assassin).map(|l| l.is_empty()).unwrap_or(true));
}

#[test]
fn marriage_is_mutual() {
    let mut m = MarriageSystem::new();
    m.send_marriage_request(1, 2, 1000).unwrap();
    let info = m.accept_marriage_request(2, 1100).unwrap();
    assert_eq!(info.player_id, 1);
    assert_eq!(info.partner_id, 2);
    assert!(m.is_married(1));
    assert!(m.is_married(2));
    assert_eq!(m.get_partner_id(1), 2);
    assert_eq!(m.get_partner_id(2), 1);
}

#[test]
fn marriage_errors() {
    let mut m = MarriageSystem::new();
    assert_eq!(m.accept_marriage_request(5, 0).unwrap_err(), "No pending marriage request");
    m.send_marriage_request(1, 2, 0).unwrap();
    assert_eq!(m.send_marriage_request(1, 2, 0).unwrap_err(), "You already sent a marriage request");
    assert_eq!(m.send_marriage_request(3, 2, 0).unwrap_err(), "Target has a pending marriage request");
    assert_eq!(m.accept_marriage_request(2, 10_000).unwrap_err(), "Request has expired");
    assert_eq!(m.toggle_recall(1).unwrap_err(), "You are not married");
    assert_eq!(m.force_divorce(1).unwrap_err(), "Player is not married");
}

#[test]
fn divorce_and_recall() {
    let mut m = MarriageSystem::new();
    m.send_marriage_request(1, 2, 0).unwrap();
    m.accept_marriage_request(2, 0).unwrap();
    assert!(m.can_recall_to_partner(1, 2));
    assert_eq!(m.toggle_recall(2), Ok(false));
    assert!(!m.can_recall_to_partner(1, 2));
    assert!(m.can_recall_to_partner(2, 1));
    assert_eq!(m.send_divorce_request(1, 0), Ok(2));
    assert_eq!(m.send_divorce_request(1, 0).unwrap_err(), "Divorce already in progress");
    assert_eq!(m.accept_divorce_request(2, 10), Ok((1, 2)));
    assert!(!m.is_married(1));
    assert!(!m.is_married(2));
}

#[test]
fn force_divorce_clears_both() {
    let mut m = MarriageSystem::new();
    m.send_marriage_request(8, 9, 0).unwrap();
    m.accept_marriage_request(9, 0).unwrap();
    assert_eq!(m.force_divorce(9), Ok(8));
    assert!(!m.is_married(8));
    assert!(!m.is_married(9));
}

#[test]
fn mentorship_links_both_sides_and_graduates() {
    let mut s = MentorSystem::new();
    assert_eq!(s.send_mentor_request(1, 2, 10, 50, 0).unwrap_err(), "Mentee must be at least level 15");
    assert_eq!(s.send_mentor_request(1, 2, 50, 50, 0).unwrap_err(), "Mentor must be higher level than mentee");
    s.send_mentor_request(1, 2, 20, 50, 0).unwrap();
    s.accept_mentor_request(2, 0).unwrap();
    assert!(s.is_mentor(1));
    assert!(s.is_mentee(2));
    assert_eq!(s.get_mentor_id(2), 1);
    assert_eq!(s.get_mentees(1), vec![2]);
    assert_eq!(s.graduate_mentee(2, 30, 50, 0).unwrap_err(), "Graduation requirements not met");
    assert_eq!(s.graduate_mentee(2, 45, 50, 7 * 86400), Ok(GRADUATION_BONUS_EXP));
    assert!(!s.is_mentor(1));
    assert!(!s.is_mentee(2));
}

#[test]
fn cancelling_after_accepting_ends_the_mentorship() {
    let mut s = MentorSystem::new();
    s.send_mentor_request(1, 2, 20, 50, 0).unwrap();
    s.accept_mentor_request(2, 0).unwrap();
    assert_eq!(s.add_mentor_exp_share(2, 30), Some(30));
    assert_eq!(s.get_mentor_stats(1), Some((1, 30)));
    assert!(s.cancel_mentorship(2).is_ok());
    assert!(!s.is_mentee(2));
    assert!(!s.is_mentor(1));
    assert_eq!(s.cancel_mentorship(2).unwrap_err(), "No mentorship found");
}

#[test]
fn ranking_pages() {
    let board: Vec<RankCharacterInfo> = (1..=25).map(|i| row(i, Job::Warrior, 10, 0)).collect();
    let p = ranking_page(&board, 0, Some(7), false, 3).unwrap();
    assert_eq!((p.my_rank, p.first, p.count), (7, 0, 25));
    assert_eq!(p.listings, (1..=20).collect::<Vec<i64>>());
    let p = ranking_page(&board, 20, None, true, 3).unwrap();
    assert_eq!((p.my_rank, p.first, p.count), (0, 20, 3));
    assert_eq!(p.listings, vec![21, 22, 23, 24, 25]);
    assert!(ranking_page(&board, 25, Some(1), false, 0).is_none());
    assert!(ranking_page(&board, -1, Some(1), false, 0).is_none());
    assert_eq!(ranking_page(&board, 0, Some(99), false, 0).unwrap().my_rank, 0);
    let empty = ranking_page(&[], 5, Some(1), true, 9).unwrap();
    assert_eq!((empty.my_rank, empty.count, empty.listings.len()), (0, 0, 0));
}

fn ids(rows: &[RankCharacterInfo]) -> Vec<i64> {
    rows.iter().map(|r| r.player_id).collect()
}

fn overall_of_class(t: &RankingTables, class: Job) -> Vec<i64> {
    t.overall().iter().filter(|r| r.class == class).map(|r| r.player_id).collect()
}

#[test]
fn class_boards_follow_the_overall_board_through_updates_and_removals() {
    let mut t = RankingTables::new();
    t.add_or_update(row(1, Job::Warrior, 10, 500));
    t.add_or_update(row(2, Job::Wizard, 20, 100));
    t.add_or_update(row(3, Job::Warrior, 10, 900));
    t.add_or_update(row(4, Job::Wizard, 5, 0));
    t.add_or_update(row(1, Job::Warrior, 30, 0));
    t.add_or_update(row(5, Job::Archer, 12, 7));
    for class in [Job::Warrior, Job::Wizard, Job::Archer] {
        assert_eq!(ids(t.rankings_for_class(class).unwrap()), overall_of_class(&t, class));
    }
    assert_eq!(ids(t.overall()), vec![1, 2, 5, 3, 4]);
    t.remove_player(2);
    t.remove_player(99);
    assert_eq!(ids(t.overall()), vec![1, 5, 3, 4]);
    for class in [Job::Warrior, Job::Wizard, Job::Archer] {
        assert_eq!(ids(t.rankings_for_class(class).unwrap()), overall_of_class(&t, class));
    }
    assert_eq!(ids(t.rankings_for_class(Job::Wizard).unwrap()), vec![4]);
}

#[test]
fn removing_an_absent_player_changes_nothing() {
    let mut t = RankingTables::new();
    t.add_or_update(row(1, Job::Warrior, 10, 500));
    t.add_or_update(row(2, Job::Wizard, 20, 100));
    t.remove_player(3);
    assert_eq!(ids(t.overall()), vec![2, 1]);
    assert_eq!(ids(t.rankings_for_class(Job::Warrior).unwrap()), vec![1]);
    assert_eq!(ids(t.rankings_for_class(Job::Wizard).unwrap()), vec![2]);
}
