use crystal_server_core::conquest::{ConquestId, ConquestManager};
use crystal_server_core::guild::{GuildId, GuildManager};
use crystal_server_core::guild_features::{GuildBuff, GuildBuffType, GuildFeatures, GuildTerritory};

#[test]
fn guild_ids_are_fresh_and_kept_after_removal() {
    let mut g = GuildManager::new();
    let a = g.create_guild("Alpha".to_string()).id;
    let b = g.create_guild("Beta".to_string()).id;
    assert_ne!(a, b);
    assert!(g.remove_guild(a).is_some());
    let c = g.create_guild("Gamma".to_string()).id;
    assert_ne!(c, a);
    assert_ne!(c, b);
    assert_eq!(g.get_guild(b).unwrap().name, "Beta");
    assert!(g.get_guild(GuildId(999)).is_none());
    assert_eq!(g.guilds().len(), 2);
}

#[test]
fn a_new_guild_has_no_territory() {
    let mut g = GuildManager::new();
    let info = g.create_guild("Solo".to_string());
    assert!(!info.has_gt(0));
}

#[test]
fn buffs_cap_at_three_and_need_level_and_gold() {
    let mut f = GuildFeatures::new();
    assert_eq!(f.available_buffs.len(), 6);
    assert_eq!(f.update_buff(99, 5, 1_000_000, 0).unwrap_err(), "Buff not found");
    assert_eq!(f.update_buff(4, 1, 1_000_000, 0).unwrap_err(), "Guild level too low");
    assert_eq!(f.update_buff(1, 5, 10, 0).unwrap_err(), "Insufficient guild gold");
    f.update_buff(1, 5, 1_000_000, 0).unwrap();
    assert_eq!(f.update_buff(1, 5, 1_000_000, 0).unwrap_err(), "Buff already active");
    f.update_buff(2, 5, 1_000_000, 0).unwrap();
    f.update_buff(3, 5, 1_000_000, 0).unwrap();
    assert_eq!(f.update_buff(4, 5, 1_000_000, 0).unwrap_err(), "Maximum active buffs reached");
    assert_eq!(f.get_active_buffs(10).len(), 3);
}

#[test]
fn a_fresh_buff_survives_cleanup_and_expires_after_a_day() {
    let mut f = GuildFeatures::new();
    f.update_buff(1, 5, 1_000_000, 100).unwrap();
    assert!(f.cleanup_expired_buffs(200).is_empty());
    assert_eq!(f.active_buffs.len(), 1);
    assert_eq!(f.cleanup_expired_buffs(100 + 24 * 3600), vec![1]);
    assert!(f.active_buffs.is_empty());
}

#[test]
fn buff_timing() {
    let mut b = GuildBuff::new(1, GuildBuffType::HP, 1, 10, 1);
    assert!(!b.is_expired(0));
    b.activate(2, 100);
    assert_eq!(b.get_remaining_time(100), 7200);
    assert_eq!(b.get_remaining_time(100 + 7200), 0);
    assert!(b.is_expired(100 + 7200));
    b.deactivate();
    assert!(!b.is_expired(100 + 7200));
    assert_eq!(GuildBuffType::from(4u8), GuildBuffType::HP);
    assert_eq!(GuildBuffType::from(77u8), GuildBuffType::Attack);
}

#[test]
fn territories_cap_and_rent() {
    let mut f = GuildFeatures::new();
    f.purchase_territory(1, 0, "T0".to_string(), 10, 0).unwrap();
    assert_eq!(f.purchase_territory(2, 0, "X".to_string(), 10, 0).unwrap_err(), "Territory already owned");
    for t in 1..5 {
        f.purchase_territory(1, t, format!("T{}", t), 10, 0).unwrap();
    }
    assert_eq!(f.purchase_territory(1, 9, "X".to_string(), 10, 0).unwrap_err(), "Maximum territories reached");
    assert_eq!(f.purchase_territory(2, 10, "X".to_string(), 10, 0).unwrap_err(), "Maximum territories reached");
    assert_eq!(f.get_guild_territories(1, 0).len(), 5);
    let mut t = GuildTerritory::new(1, 1, "Keep".to_string(), 250, 1000);
    assert!(t.is_rent_active(1000));
    t.extend_rent(2);
    assert_eq!(t.get_daily_cost(), 250);
}

#[test]
fn war_return_points() {
    let mut f = GuildFeatures::new();
    f.set_war_return_point(3, 7, 10, 20, 55);
    let p = f.get_war_return_point(3).unwrap();
    assert_eq!((p.map_id, p.x, p.y, p.set_time), (7, 10, 20, 55));
    f.remove_war_return_point(3);
    assert!(f.get_war_return_point(3).is_none());
}

#[test]
fn conquest_manager_is_empty_at_first() {
    let mut c = ConquestManager::new();
    assert!(c.conquests().is_empty());
    assert!(c.get(ConquestId(1)).is_none());
    assert!(c.get_mut(ConquestId(1)).is_none());
    assert!(c.remove(ConquestId(1)).is_none());
}
