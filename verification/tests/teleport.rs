use crystal_server_core::teleport::{landing_of, magic_teleport, teleport_destination, teleport_window};

fn grid(width: usize, height: usize, blocked: &[(usize, usize)]) -> Vec<bool> {
    let mut cells = vec![true; width * height];
    for &(x, y) in blocked {
        cells[y * width + x] = false;
    }
    cells
}

#[test]
fn teleport_window_shrinks_with_level() {
    assert_eq!(teleport_window(0, 100, 50), (100, 50));
    assert_eq!(teleport_window(4, 100, 50), (20, 10));
    assert_eq!(teleport_window(200, 100, 50), (1, 1));
    assert_eq!(teleport_window(-5, 100, 50), (100, 50));
    assert_eq!(teleport_window(i32::MAX, 100, 50), (1, 1));
}

#[test]
fn first_walkable_draw_on_the_map_wins() {
    let cells = grid(4, 3, &[(1, 2)]);
    let draws = vec![(-5, 0), (3, 0), (0, 1), (1, 0), (0, 0)];
    assert_eq!(teleport_destination(1, 1, 4, 3, &cells, &draws), Some((2, 1)));
    assert_eq!(teleport_destination(1, 1, 4, 3, &cells, &vec![(0, 1), (0, -2)]), None);
    assert_eq!(teleport_destination(1, 1, 4, 3, &cells, &vec![]), None);
    assert_eq!(landing_of(1, 1, 4, 3, &cells, (0, -1)), Some((1, 0)));
    assert_eq!(landing_of(1, 1, 4, 3, &cells, (2, 1)), Some((3, 2)));
    assert_eq!(landing_of(1, 1, 4, 3, &cells, (0, 1)), None);
    assert_eq!(landing_of(i32::MAX, 1, 4, 3, &cells, (5, 0)), None);
}

#[test]
fn bind_teleport_lands_in_the_window_or_nowhere() {
    let open = grid(10, 10, &[]);
    let (tx, ty) = magic_teleport(5, 5, 1, 10, 10, &open).unwrap();
    assert!((0..10).contains(&tx) && (0..10).contains(&ty));
    assert!((tx - 5).abs() <= 5 && (ty - 5).abs() <= 5);
    let walled: Vec<bool> = vec![false; 100];
    assert_eq!(magic_teleport(5, 5, 1, 10, 10, &walled), None);
}
