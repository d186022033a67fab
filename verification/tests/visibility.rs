use crystal_server_core::visibility::{monster_display_name, view_update, with_own_pets, MapMonster};

#[test]
fn view_changes() {
    let u = view_update(&vec![1, 2, 3], &vec![3, 4, 4, 5]);
    assert_eq!(u.entered, vec![4, 4, 5]);
    assert_eq!(u.left, vec![1, 2]);
    assert_eq!(u.known, vec![3, 4, 5]);
    let u = view_update(&vec![], &vec![]);
    assert!(u.entered.is_empty() && u.left.is_empty() && u.known.is_empty());
    let u = view_update(&vec![7], &vec![7]);
    assert!(u.entered.is_empty() && u.left.is_empty());
    assert_eq!(u.known, vec![7]);
}

#[test]
fn pets_show_their_owner() {
    assert_eq!(monster_display_name("Shinsu", Some("Ann")), "Shinsu(Ann)");
    assert_eq!(monster_display_name("Shinsu", Some("")), "Shinsu");
    assert_eq!(monster_display_name("Hen", None), "Hen");
}

fn monster(id: u64, is_pet: bool, owner_session_id: Option<u64>) -> MapMonster {
    MapMonster { id, is_pet, owner_session_id }
}

#[test]
fn own_pets_stay_in_view_whatever_their_distance() {
    let map = vec![
        monster(10, false, None),
        monster(11, true, Some(7)),
        monster(12, true, Some(8)),
        monster(13, true, Some(7)),
        monster(14, false, Some(7)),
        monster(11, true, Some(7)),
    ];
    assert_eq!(with_own_pets(vec![10, 13], &map, 7), vec![10, 13, 11]);
    assert_eq!(with_own_pets(vec![], &map, 8), vec![12]);
    assert_eq!(with_own_pets(vec![10], &map, 9), vec![10]);
    assert_eq!(with_own_pets(vec![5, 5], &vec![], 7), vec![5, 5]);
}
