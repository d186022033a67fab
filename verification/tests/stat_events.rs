use crystal_server_core::account::CharacterStats;
use crystal_server_core::stat_events::{apply_stat_event, awards_guild_exp, StatEvent};

fn stats() -> CharacterStats {
    CharacterStats { hp: 10, mp: 5, experience: 100, gold: 50, credit: 7 }
}

#[test]
fn events_update_stats() {
    let mut s = stats();
    apply_stat_event(&mut s, StatEvent::GainExperience(25));
    assert_eq!(s.experience, 125);
    apply_stat_event(&mut s, StatEvent::GainedGold(10));
    assert_eq!(s.gold, 60);
    apply_stat_event(&mut s, StatEvent::GainedCredit(3));
    assert_eq!(s.credit, 10);
    apply_stat_event(&mut s, StatEvent::LevelChanged(4));
    assert_eq!(s.experience, 4);
    assert_eq!((s.hp, s.mp), (10, 5));
    let mut s = CharacterStats { gold: i64::MAX - 1, ..stats() };
    apply_stat_event(&mut s, StatEvent::GainedGold(u32::MAX));
    assert_eq!(s.gold, i64::MAX);
}

#[test]
fn guild_experience_gate() {
    assert!(awards_guild_exp("Wolves", "NewbieGuild"));
    assert!(!awards_guild_exp("", "NewbieGuild"));
    assert!(!awards_guild_exp("newbieguild", "NewbieGuild"));
}
