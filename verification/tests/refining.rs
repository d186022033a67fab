use crystal_server_core::refining::{
    add_refined_stat, can_be_refined, check_refine, check_refine_with_rolls, refine_added_stats_total, refine_cost,
    start_refine, RefineCheck, RefineMaterial, RefineStart, RefineTarget,
};

fn material(item_type: u8, name: &str, required_amount: u8, min_dc: i32, max_dc: i32, dura: (u16, u16, u16)) -> RefineMaterial {
    RefineMaterial {
        item_type,
        name: name.to_string(),
        required_amount,
        durability: dura.0,
        min_dc,
        max_dc,
        min_mc: 0,
        max_mc: 0,
        min_sc: 0,
        max_sc: 0,
        added_dc: 0,
        added_mc: 0,
        added_sc: 0,
        max_dura: dura.1,
        current_dura: dura.2,
    }
}

fn target() -> RefineTarget {
    RefineTarget { required_amount: 20, added_luck: 2, added_dc: 0, added_mc: 0, added_sc: 0, refined_value: 255 }
}

fn grid() -> Vec<RefineMaterial> {
    vec![
        material(1, "BlackIronOre", 0, 0, 0, (15000, 15000, 12000)),
        material(5, "Ring", 22, 1, 3, (5000, 5000, 5000)),
        material(0, "OreSword", 99, 50, 90, (1000, 1000, 1000)),
    ]
}

#[test]
fn success_chance_from_the_grid() {
    assert_eq!(start_refine(&target(), &grid(), 10), RefineStart { refined_value: 0, success_chance: 77 });
    assert_eq!(start_refine(&target(), &grid(), 80).success_chance, 37);
    assert_eq!(start_refine(&target(), &grid(), -20).success_chance, 107);
}

#[test]
fn refines_without_ore_or_stats_have_no_chance() {
    let g = grid();
    assert_eq!(start_refine(&target(), &g[1..], 0), RefineStart { refined_value: 255, success_chance: 0 });
    assert_eq!(start_refine(&target(), &g[..1], 0), RefineStart { refined_value: 255, success_chance: 0 });
    assert_eq!(start_refine(&target(), &[], 0), RefineStart { refined_value: 255, success_chance: 0 });
}

#[test]
fn the_strictly_largest_stat_is_refined() {
    let mut mc = material(5, "Necklace", 10, 0, 0, (1000, 1000, 1000));
    mc.min_mc = 2;
    mc.max_mc = 6;
    let ore = material(1, "GoldOre", 0, 0, 0, (15000, 15000, 8000));
    let r = start_refine(&target(), &[mc, ore], 0);
    assert_eq!(r.refined_value, 1);
}

#[test]
fn costs_and_bind_flags() {
    assert_eq!(refine_cost(20), 25000);
    assert_eq!(refine_cost(0), 0);
    assert!(!can_be_refined(0x20));
    assert!(!can_be_refined(0x7f));
    assert!(can_be_refined(0x10));
    assert_eq!(refine_added_stats_total(&RefineTarget { added_dc: 1, added_mc: 2, added_sc: 3, ..target() }), 6);
}

#[test]
fn checking_a_refine() {
    assert_eq!(check_refine_with_rolls(1, 0, 77, 50, 50), RefineCheck::Improved(0, 1));
    assert_eq!(check_refine_with_rolls(1, 2, 77, 77, 50), RefineCheck::Improved(2, 1));
    assert_eq!(check_refine_with_rolls(1, 0, 77, 80, 50), RefineCheck::Smashed);
    assert_eq!(check_refine_with_rolls(1, 1, 77, 10, 4), RefineCheck::Improved(1, 2));
    assert_eq!(check_refine_with_rolls(200, 1, 77, 10, 1), RefineCheck::Improved(1, 255));
    assert_eq!(check_refine_with_rolls(1, 7, 77, 10, 50), RefineCheck::Smashed);
    assert_eq!(check_refine_with_rolls(0, 0, 77, 10, 50), RefineCheck::NotRefined);
    assert_eq!(check_refine(0, 0, 100), RefineCheck::NotRefined);
    for _ in 0..50 {
        match check_refine(1, 0, 100) {
            RefineCheck::Improved(0, a) => assert!(a == 1 || a == 2),
            other => panic!("unexpected {:?}", other),
        }
        assert_eq!(check_refine(1, 0, 0), RefineCheck::Smashed);
    }
}

#[test]
fn refined_stats_are_added() {
    let mut e = vec![(3u8, 10), (5u8, 1)];
    add_refined_stat(&mut e, 5, 2);
    assert_eq!(e, vec![(3, 10), (5, 3)]);
    add_refined_stat(&mut e, 9, 2);
    assert_eq!(e, vec![(3, 10), (5, 3), (9, 2)]);
    let mut e = vec![(5u8, i32::MAX - 1)];
    add_refined_stat(&mut e, 5, 5);
    assert_eq!(e, vec![(5, i32::MAX)]);
}
