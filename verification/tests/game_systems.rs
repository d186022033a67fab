use crystal_server_core::account::{hash_password, verify_password_hash, AccountStorage};
use crystal_server_core::auction::{AuctionHouse, AuctionInfo, ClientAuction, MarketItemType};
use crystal_server_core::awakening::{
    calculate_awakening_price, calculate_downgrade_price, calculate_material_requirements, get_default_materials,
    AwakeType, Awakening,
};
use crystal_server_core::combat::{compute_physical_damage, resolve_hit, roll_hit, Defence, HitOutcome, HitRolls, Stat, Stats};
use crystal_server_core::fishing::{fish_from_rolls, Fish, FishType, FishingState, FishingSystem};
use crystal_server_core::item::{create_fresh_user_item, ItemInfoData, UserItemData};
use crystal_server_core::item_rental::{ItemRentalSystem, RentalItem};

fn item(unique_id: u64) -> UserItemData {
    create_fresh_user_item(&ItemInfoData { index: 3, durability: 10, need_identify: false, friendly_name: "Ring".to_string() }, unique_id, 1)
}

#[test]
fn awake_type_numbers() {
    assert_eq!(AwakeType::from_u8(3), AwakeType::SC);
    assert_eq!(AwakeType::from_u8(0), AwakeType::Unset);
    assert_eq!(AwakeType::from_u8(42), AwakeType::Unset);
    assert_eq!(AwakeType::HPMP.code(), 6);
    assert_eq!(AwakeType::default(), AwakeType::Unset);
}

#[test]
fn awakening_values_and_removal() {
    let mut a = Awakening { awake_type: AwakeType::MC, values: vec![1, 0, 1] };
    assert_eq!(a.get_awake_level(), 3);
    assert_eq!(a.get_awake_value(), 2);
    assert_eq!(a.get_mc(), 2);
    assert_eq!(a.get_dc(), 0);
    assert!(!a.is_max_level());
    assert_eq!(a.remove_awake(), 1);
    assert_eq!(a.remove_awake(), 1);
    assert_eq!(a.awake_type, AwakeType::MC);
    assert_eq!(a.remove_awake(), 1);
    assert_eq!(a.awake_type, AwakeType::Unset);
    assert_eq!(a.remove_awake(), 0);
}

#[test]
fn awakening_with_given_dice() {
    let it = item(1);
    let mut a = Awakening::new();
    let (r, hits) = a.upgrade_awake_with_rolls(&it, AwakeType::Unset, 0, &[0, 0, 0, 0, 0]);
    assert_eq!(r, -1);
    assert_eq!(hits, vec![false; 5]);
    let (r, hits) = a.upgrade_awake_with_rolls(&it, AwakeType::AC, 71, &[0, 99, 0, 99, 0]);
    assert_eq!(r, 0);
    assert_eq!(hits, vec![true, false, true, false, true]);
    assert!(a.values.is_empty());
    let (r, _) = a.upgrade_awake_with_rolls(&it, AwakeType::AC, 70, &[99, 99, 99, 99, 69]);
    assert_eq!(r, 1);
    assert_eq!(a.awake_type, AwakeType::DC);
    assert_eq!(a.values, vec![1]);
    let (r, _) = a.upgrade_awake_with_rolls(&it, AwakeType::DC, 0, &[99, 99, 99, 99, 99]);
    assert_eq!(r, 1);
    assert_eq!(a.values, vec![1, 0]);
    assert_eq!(a.remove_awake(), 1);
    assert_eq!(a.values, vec![1]);
}

#[test]
fn awakening_with_the_threads_dice_stays_in_shape() {
    let it = item(1);
    let mut a = Awakening::new();
    for _ in 0..20 {
        let before = a.values.len();
        let (r, hits) = a.upgrade_awake(&it, AwakeType::DC);
        assert_eq!(hits.len(), 5);
        match r {
            -1 => assert_eq!(a.values.len(), 5),
            0 => assert_eq!(a.values.len(), before),
            1 => assert_eq!(a.values.len(), before + 1),
            _ => panic!("unexpected result"),
        }
        assert!(a.values.len() <= 5);
    }
}

#[test]
fn awakening_prices_and_materials() {
    assert_eq!(calculate_awakening_price(3, 2), 60000);
    assert_eq!(calculate_awakening_price(9, 0), 1000);
    assert_eq!(calculate_downgrade_price(4), 50000);
    assert_eq!(calculate_downgrade_price(0), 500);
    let m = get_default_materials();
    assert_eq!(m.len(), 6);
    assert!(m.iter().all(|kind| kind.len() == 2 && kind.iter().all(|g| *g == [1, 1, 1, 1])));
    assert_eq!(calculate_material_requirements(&m, 1, 3), [4, 4]);
    assert_eq!(calculate_material_requirements(&m, 2, 254), [255, 255]);
    assert_eq!(calculate_material_requirements(&Vec::new(), 9, 9), [0, 0]);
}

fn stats() -> Stats {
    Stats::new()
}

#[test]
fn average_physical_damage() {
    let mut a = stats();
    a.set(Stat::MinDC, 10);
    a.set(Stat::MaxDC, 20);
    a.set(Stat::AttackBonus, 5);
    let mut d = stats();
    d.set(Stat::MinAC, 2);
    d.set(Stat::MaxAC, 4);
    assert_eq!(compute_physical_damage(&a, &d), 17);
    d.set(Stat::DamageReductionPercent, 50);
    assert_eq!(compute_physical_damage(&a, &d), 8);
    d.set(Stat::DamageReductionPercent, 300);
    assert_eq!(compute_physical_damage(&a, &d), 0);
    d.set(Stat::MinAC, 100);
    d.set(Stat::DamageReductionPercent, 0);
    assert_eq!(compute_physical_damage(&a, &d), 0);
    assert_eq!(a.get(Stat::AttackBonus), 5);
}

#[test]
fn rolled_hits_with_given_dice() {
    let mut a = stats();
    a.set(Stat::MinDC, 10);
    a.set(Stat::MaxDC, 20);
    a.set(Stat::Accuracy, 5);
    let mut d = stats();
    d.set(Stat::Agility, 10);
    d.set(Stat::MinMAC, 3);
    d.set(Stat::MaxMAC, 6);
    let rolls = HitRolls { luck: 0, damage: 15, agility: 2, armour: 4, critical: 50 };
    assert_eq!(resolve_hit(&a, &d, Defence::Armour, &rolls), HitOutcome::Hit(15));
    assert_eq!(resolve_hit(&a, &d, Defence::MagicArmour, &rolls), HitOutcome::Hit(11));
    let dodged = HitRolls { agility: 6, ..rolls };
    assert_eq!(resolve_hit(&a, &d, Defence::Armour, &dodged), HitOutcome::Miss);
    a.set(Stat::Luck, 5);
    let lucky = HitRolls { luck: 4, ..rolls };
    assert_eq!(resolve_hit(&a, &d, Defence::Armour, &lucky), HitOutcome::Hit(20));
    a.set(Stat::Luck, 0);
    a.set(Stat::CriticalRate, 10);
    a.set(Stat::CriticalDamage, 50);
    let crit = HitRolls { critical: 49, ..rolls };
    assert_eq!(resolve_hit(&a, &d, Defence::Armour, &crit), HitOutcome::Critical(15));
    assert_eq!(resolve_hit(&a, &d, Defence::Armour, &rolls), HitOutcome::Hit(15));
    let no_crit = HitRolls { critical: 50, ..rolls };
    a.set(Stat::CriticalRate, 5);
    assert_eq!(resolve_hit(&a, &d, Defence::Armour, &no_crit), HitOutcome::Hit(15));
    let zero = stats();
    assert_eq!(resolve_hit(&zero, &d, Defence::Armour, &rolls), HitOutcome::Miss);
}

#[test]
fn rolled_hits_stay_in_range() {
    let mut a = stats();
    a.set(Stat::MinDC, 10);
    a.set(Stat::MaxDC, 20);
    a.set(Stat::Accuracy, 100);
    let d = stats();
    for _ in 0..50 {
        match roll_hit(&a, &d, Defence::Armour) {
            HitOutcome::Hit(v) => assert!((10..=20).contains(&v)),
            other => panic!("unexpected {:?}", other),
        }
    }
}

#[test]
fn fish_values() {
    let f = Fish::new(FishType::Rare, 20);
    assert_eq!((f.value, f.exp_reward), (1000, 460));
    let g = fish_from_rolls(199, 0);
    assert_eq!(g.fish_type, FishType::Legendary);
    assert_eq!(g.size, 10);
    let h = fish_from_rolls(60, 90);
    assert_eq!(h.fish_type, FishType::Uncommon);
    assert_eq!(h.size, 100);
}

#[test]
fn fishing_flow() {
    let mut s = FishingSystem::new();
    assert_eq!(s.get_all_spots().len(), 3);
    assert_eq!(s.start_fishing(1, 9, item(1), None, 50, 0).unwrap_err(), "Invalid fishing spot");
    assert_eq!(s.start_fishing(1, 3, item(1), None, 10, 0).unwrap_err(), "Level too low for this fishing spot");
    assert_eq!(s.cast_line(1).unwrap_err(), "Not fishing");
    s.start_fishing(1, 1, item(1), None, 10, 1000).unwrap();
    assert_eq!(s.start_fishing(1, 1, item(1), None, 10, 1000).unwrap_err(), "Already fishing");
    assert_eq!(s.reel_in(1).unwrap_err(), "Line not cast");
    s.cast_line(1).unwrap();
    assert_eq!(s.cast_line(1).unwrap_err(), "Line already cast");
    let bite = s.get_player_state(1).unwrap().fish_bite_time.unwrap();
    assert!((1003..=1010).contains(&bite));
    assert!(s.update_fishing(1002).is_empty());
    assert_eq!(s.update_fishing(1010), vec![(1, true)]);
    let fish = s.get_player_state(1).unwrap().current_fish.clone().unwrap();
    assert!((10..=100).contains(&fish.size));
    assert_eq!(s.reel_in(1).unwrap().map(|f| f.size), None);
    assert_eq!(s.toggle_autocast(1), Ok(true));
    s.stop_fishing(1);
    assert!(!s.get_player_state(1).unwrap().is_fishing);
    assert_eq!(s.is_at_fishing_spot(1, 1, 152, 297), Some(2));
    assert_eq!(s.is_at_fishing_spot(1, 1, 160, 300), None);
}

#[test]
fn a_cast_state_bites_after_its_delay() {
    let mut st = FishingState::new(4);
    st.cast_line_with_roll(3);
    assert!(!st.cast_out);
    st.start_fishing(1, item(2), None, 100);
    st.cast_line_with_roll(13);
    assert_eq!(st.fish_bite_time, Some(108));
    assert!(!st.check_fish_bite_with_rolls(107, 0, 0));
    assert!(st.check_fish_bite_with_rolls(108, 97, 5));
    assert_eq!(st.current_fish.as_ref().unwrap().fish_type, FishType::Epic);
    assert_eq!(st.reel_in().is_none(), true);
    assert!(!st.check_fish_bite(200));
}

#[test]
fn auctions_bid_and_expire() {
    let mut h = AuctionHouse::new();
    assert_eq!(h.create_auction(1, item(0), 10, MarketItemType::Auction, 0).unwrap_err(), "Invalid item");
    assert_eq!(h.create_auction(1, item(5), 0, MarketItemType::Auction, 0).unwrap_err(), "Price must be greater than 0");
    assert_eq!(h.create_auction(1, item(5), 10, MarketItemType::GameShop, 0).unwrap_err(), "Cannot create GameShop auctions");
    let id = h.create_auction(1, item(5), 100, MarketItemType::Auction, 1000).unwrap();
    assert_eq!(id, 1);
    assert_eq!(h.place_bid(id, 2, 105).unwrap_err(), "Failed to place bid");
    h.place_bid(id, 2, 110).unwrap();
    assert_eq!(h.get_auction(id).unwrap().get_display_price(), 110);
    assert_eq!(h.cancel_auction(id, 1).unwrap_err(), "Cannot cancel auction with bids");
    assert_eq!(h.place_bid(77, 2, 110).unwrap_err(), "Auction not found");
    assert!(h.process_expired_auctions(1000 + 48 * 3600).is_empty());
    let a = h.get_auction(id).unwrap();
    assert!(a.expired && a.sold);
    assert_eq!(a.get_seller_label(true), "Sold");
    assert_eq!(a.get_seller_label(false), "Seller_1");
}

#[test]
fn unsold_consignments_return_to_the_seller() {
    let mut h = AuctionHouse::new();
    let id = h.create_auction(-3, item(8), 50, MarketItemType::Consign, 0).unwrap();
    assert_eq!(h.get_auction(id).unwrap().get_seller_label(false), "Seller_-3");
    assert_eq!(h.get_auction(id).unwrap().get_seller_label(true), "For Sale");
    let back = h.process_expired_auctions(48 * 3600);
    assert_eq!(back.len(), 1);
    assert_eq!((back[0].0, back[0].1, back[0].2.unique_id), (id, -3, 8));
    assert!(h.get_auction(id).is_none());
    assert_eq!(h.calculate_listing_fee(MarketItemType::Consign), 1000);
    assert_eq!(h.calculate_listing_fee(MarketItemType::GameShop), 0);
}

#[test]
fn market_pages_are_newest_first() {
    let mut h = AuctionHouse::new();
    for t in 0..5u64 {
        h.create_auction(1, item(10 + t), 10, MarketItemType::Consign, t * 10).unwrap();
    }
    h.create_auction(2, item(99), 10, MarketItemType::Auction, 100).unwrap();
    let page = h.search_auctions(Some(MarketItemType::Consign), None, None, None, 0, 3);
    let dates: Vec<u64> = page.iter().map(|c| c.consignment_date).collect();
    assert_eq!(dates, vec![40, 30, 20]);
    let second = h.search_auctions(Some(MarketItemType::Consign), None, None, None, 1, 3);
    assert_eq!(second.iter().map(|c| c.consignment_date).collect::<Vec<_>>(), vec![10, 0]);
    assert!(h.search_auctions(None, None, None, None, 5, 3).is_empty());
    let mine = h.get_user_auctions(2, 0, 10);
    assert_eq!(mine.len(), 1);
    assert_eq!(mine[0].item_type, MarketItemType::Auction);
    let shown = ClientAuction::from_auction(h.get_auction(6).unwrap());
    assert_eq!(shown.seller, "Seller_2");
    assert_eq!(MarketItemType::from(1u8), MarketItemType::Consign);
    assert_eq!(MarketItemType::from(9u8), MarketItemType::GameShop);
}

#[test]
fn a_bid_must_beat_by_a_tenth() {
    let mut a = AuctionInfo::new(1, 1, item(3), 100, MarketItemType::Auction, 0);
    assert!(!a.place_bid(2, 100));
    assert!(!a.place_bid(2, 109));
    assert!(a.place_bid(2, 110));
    assert_eq!((a.current_bid, a.current_buyer_index), (110, 2));
    assert!(!a.check_expired(1, 3599));
    assert!(a.check_expired(1, 3600));
    assert!(a.sold);
}

#[test]
fn rentals_flow() {
    let mut r = ItemRentalSystem::new();
    assert_eq!(r.deposit_item(item(1), 1, 50, 0, 5, 0).unwrap_err(), "Invalid rental period");
    assert_eq!(r.deposit_item(item(1), 1, 50, 31, 5, 0).unwrap_err(), "Invalid rental period");
    let id = r.deposit_item(item(1), 1, 50, 2, 5, 1000).unwrap();
    assert_eq!(r.get_deposited_items(1).len(), 1);
    assert_eq!(r.rent_item(id, 2, 1000 + 2 * 86400).unwrap_err(), "Rental has expired");
    let got = r.rent_item(id, 2, 1000).unwrap();
    assert_eq!(got.unique_id, 1);
    assert_eq!(r.rent_item(id, 3, 1000).unwrap_err(), "Item is currently locked");
    assert!(r.get_deposited_items(1).is_empty());
    assert_eq!(r.get_player_rentals(2).len(), 1);
    assert_eq!(r.retrieve_deposited_item(id, 1).unwrap_err(), "Item is currently rented");
    assert_eq!(r.cancel_rental(id, 1).unwrap_err(), "Cannot cancel active rental");
    assert_eq!(r.cancel_rental(id, 9).unwrap_err(), "Not the owner");
    assert_eq!(r.extend_rental(id as u32, 40, 0, 2).unwrap_err(), "Rental period exceeds maximum");
    r.extend_rental(id as u32, 3, 7, 2).unwrap();
    assert_eq!(r.get_rental(id).unwrap().rental_period_days, 5);
    assert_eq!(r.get_rental(id).unwrap().rental_fee, 12);
    assert_eq!(r.return_rented_item(id, 3).unwrap_err(), "Not renting this item");
    r.return_rented_item(id, 2).unwrap();
    assert!(!r.get_rental(id).unwrap().is_locked);
    assert_eq!(r.get_deposited_items(1).len(), 1);
    let back = r.retrieve_deposited_item(id, 1).unwrap();
    assert_eq!(back.unique_id, 1);
    assert!(r.get_rental(id).is_none());
    assert!(r.can_rent_more(2));
}

#[test]
fn expired_rentals_go_back() {
    let mut r = ItemRentalSystem::new();
    let id = r.deposit_item(item(4), 7, 50, 1, 5, 0).unwrap();
    r.rent_item(id, 8, 0).unwrap();
    assert!(r.cleanup_expired_rentals(100).is_empty());
    let back = r.cleanup_expired_rentals(86400);
    assert_eq!(back.len(), 1);
    assert_eq!((back[0].0, back[0].1, back[0].2.unique_id), (id, 7, 4));
    assert!(r.get_rental(id).is_none());
    let t = RentalItem::new(item(5), 1, 1, 3, 1, 10);
    assert_eq!(t.get_remaining_days(10), 3);
    assert_eq!(t.get_remaining_days(10 + 86400 + 1), 1);
    assert!(t.is_expired(10 + 3 * 86400));
}

#[test]
fn password_hashes() {
    let h = hash_password("abc");
    assert_eq!(h, "ba7816bf8f01cfea414140de5dae2223b00361a396177a9cb410ff61f20015ad");
    assert!(verify_password_hash("abc", &h));
    assert!(!verify_password_hash("abd", &h));
    assert_eq!(hash_password("").len(), 64);
}

fn storage(has_expanded_storage: bool, expanded_storage_expiry_binary: i64) -> AccountStorage {
    AccountStorage { slots: vec![None; 80], has_expanded_storage, expanded_storage_expiry_binary }
}

#[test]
fn expired_storage_expansion_is_dropped_at_login() {
    let mut s = storage(true, 5_000);
    assert!(s.clear_expired_expansion(1_000, 2_000));
    assert!(!s.has_expanded_storage);
    assert_eq!(s.expanded_storage_expiry_binary, 5_000);
    assert_eq!(s.slots.len(), 80);

    let mut s = storage(true, 5_000);
    assert!(!s.clear_expired_expansion(3_000, 2_000));
    assert!(s.has_expanded_storage);

    let mut s = storage(true, 5_000);
    assert!(!s.clear_expired_expansion(2_000, 2_000));
    assert!(s.has_expanded_storage);

    let mut s = storage(true, 0);
    assert!(!s.clear_expired_expansion(1_000, 2_000));
    assert!(s.has_expanded_storage);

    let mut s = storage(true, 5_000);
    assert!(!s.clear_expired_expansion(0, 2_000));
    assert!(s.has_expanded_storage);

    let mut s = storage(false, 5_000);
    assert!(!s.clear_expired_expansion(1_000, 2_000));
    assert!(!s.has_expanded_storage);
}
