use crystal_server_core::account::CharacterPosition;
use crystal_server_core::spawn::{
    choose_spawn_map, map_centre, nearest_walkable, preferred_spawn, spawn_point, SafeZone, SpawnMap,
};

fn pos(map_index: i32, x: i32, y: i32) -> CharacterPosition {
    CharacterPosition { map_index, x, y, direction: 0 }
}

fn maps() -> Vec<SpawnMap> {
    vec![
        SpawnMap { index: 1, has_start_point: false },
        SpawnMap { index: 2, has_start_point: true },
        SpawnMap { index: 3, has_start_point: true },
    ]
}

#[test]
fn the_map_entered() {
    assert_eq!(choose_spawn_map(&maps(), Some(pos(3, 0, 0)), Some(pos(1, 0, 0))), Some(2));
    assert_eq!(choose_spawn_map(&maps(), Some(pos(9, 0, 0)), Some(pos(1, 0, 0))), Some(1));
    assert_eq!(choose_spawn_map(&maps(), None, Some(pos(1, 0, 0))), Some(0));
    assert_eq!(choose_spawn_map(&maps(), None, None), Some(1));
    assert_eq!(choose_spawn_map(&maps()[..1], None, None), Some(0));
    assert_eq!(choose_spawn_map(&[], Some(pos(1, 0, 0)), None), None);
}

#[test]
fn the_wanted_position() {
    assert_eq!(preferred_spawn(3, Some(pos(3, 10, 20)), Some(pos(3, 1, 1))), Some((10, 20)));
    assert_eq!(preferred_spawn(3, Some(pos(4, 10, 20)), Some(pos(3, 1, 1))), None);
    assert_eq!(preferred_spawn(3, None, Some(pos(3, 1, 1))), Some((1, 1)));
    assert_eq!(preferred_spawn(3, None, None), None);
}

#[test]
fn centre_and_nearest_cell() {
    let zones = [
        SafeZone { x: 5, y: 5, start_point: false },
        SafeZone { x: 50, y: 60, start_point: true },
    ];
    assert_eq!(map_centre(&zones, 100, 100), (50, 60));
    assert_eq!(map_centre(&zones[..1], 100, 100), (5, 5));
    assert_eq!(map_centre(&[], 101, 40), (50, 20));
    let cells = [(10u16, 10u16), (48, 61), (52, 59), (50, 70)];
    assert_eq!(nearest_walkable(&cells, 50, 60), Some((48, 61)));
    assert_eq!(nearest_walkable(&[], 50, 60), None);
}

#[test]
fn the_spawn_cell() {
    let cells = [(10u16, 10u16), (48, 61)];
    assert_eq!(spawn_point(100, 100, &cells, (50, 60), Some((30, 30)), true), (30, 30));
    assert_eq!(spawn_point(100, 100, &cells, (50, 60), Some((30, 30)), false), (48, 61));
    assert_eq!(spawn_point(100, 100, &cells, (50, 60), Some((100, 30)), true), (48, 61));
    assert_eq!(spawn_point(100, 100, &cells, (50, 60), Some((-1, 30)), true), (48, 61));
    assert_eq!(spawn_point(100, 100, &cells, (50, 60), None, true), (48, 61));
    assert_eq!(spawn_point(100, 100, &[], (50, 60), None, true), (50, 60));
}
