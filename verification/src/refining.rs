//! Refining at an NPC: what a refine costs, the success chance the
//! ingredients give, and what checking a refined item does to it.
use vstd::prelude::*;

use crate::chance::roll_i32_below;
use crate::npc_text::{contains_text, mentions};

verus! {

/// Gold per required-amount point, times ten, that a refine costs.
pub const REFINE_COST: u32 = 125;

/// How much a refine adds to the refined stat.
pub const REFINE_INCREASE: u8 = 1;

/// The success chance every refine starts from.
pub const REFINE_BASE_CHANCE: i32 = 20;

/// Percent chance that a check doubles what the refine adds.
pub const REFINE_CRIT_CHANCE: i32 = 5;

/// The refine minutes a player waits before checking.
pub const REFINE_TIME_MINUTES: i64 = 20;

/// The refined-value mark of an item whose refine failed.
pub const REFINED_NONE: u8 = 255;

/// What the refine rule reads of one ingredient in the refine grid and of
/// its item template.
#[derive(Clone, Debug)]
pub struct RefineMaterial {
    /// The template's item type; 0 is a weapon, which is never used.
    pub item_type: u8,
    /// The template's name.
    pub name: String,
    pub required_amount: u8,
    /// The template's durability.
    pub durability: u16,
    pub min_dc: i32,
    pub max_dc: i32,
    pub min_mc: i32,
    pub max_mc: i32,
    pub min_sc: i32,
    pub max_sc: i32,
    /// The ingredient's own added MaxDC, MaxMC and MaxSC.
    pub added_dc: i32,
    pub added_mc: i32,
    pub added_sc: i32,
    pub max_dura: u16,
    pub current_dura: u16,
}

/// What the refine rule reads of the item being refined.
#[derive(Clone, Copy, Debug)]
pub struct RefineTarget {
    /// Its template's required amount.
    pub required_amount: u8,
    /// Its added Luck, MaxDC, MaxMC and MaxSC.
    pub added_luck: i32,
    pub added_dc: i32,
    pub added_mc: i32,
    pub added_sc: i32,
    /// Its refined-value mark before the refine.
    pub refined_value: u8,
}

/// A refine's result on the item: the refined-value mark and the success
/// chance; what it adds is always `REFINE_INCREASE`.
#[derive(Clone, Copy, Debug, PartialEq, Eq, Structural)]
pub struct RefineStart {
    pub refined_value: u8,
    pub success_chance: i32,
}

/// What a refine costs for an item of the given required amount.
pub fn refine_cost(required_amount: u8) -> (r: u32)
    ensures
        r == required_amount * 10 * REFINE_COST,
{
    required_amount as u32 * 10 * REFINE_COST
}

/// An item may be refined unless its bind flags forbid upgrades (bit 0x20).
pub fn can_be_refined(bind: i16) -> (r: bool)
    ensures
        r == ((bind & 0x20) == 0),
{
    (bind & 0x20) == 0
}

/// An ingredient the rule reads at all: weapons are thrown out unread.
pub open spec fn usable(m: RefineMaterial) -> bool {
    m.item_type != 0
}

/// An ingredient that brings stats: some positive MaxDC, MaxMC or MaxSC.
pub open spec fn brings_stats(m: RefineMaterial) -> bool {
    usable(m) && (m.max_dc > 0 || m.max_mc > 0 || m.max_sc > 0)
}

/// An ingredient that is ore: its template's name holds "Ore".
pub open spec fn is_ore(m: RefineMaterial) -> bool {
    usable(m) && mentions(m.name@, "Ore"@)
}

/// What one ingredient adds to each total, each part cut to 16 bits as the
/// game stores it.
pub open spec fn dc_part(m: RefineMaterial) -> int {
    if brings_stats(m) { ((m.min_dc + m.max_dc) as i16) as int + (m.added_dc as i16) as int } else { 0 }
}

pub open spec fn mc_part(m: RefineMaterial) -> int {
    if brings_stats(m) { ((m.min_mc + m.max_mc) as i16) as int + (m.added_mc as i16) as int } else { 0 }
}

pub open spec fn sc_part(m: RefineMaterial) -> int {
    if brings_stats(m) { ((m.min_sc + m.max_sc) as i16) as int + (m.added_sc as i16) as int } else { 0 }
}

pub open spec fn level_part(m: RefineMaterial) -> int {
    if brings_stats(m) { m.required_amount as int } else { 0 }
}

/// The ingredient's maximum durability is its template's, to the thousand.
pub open spec fn dura_part(m: RefineMaterial) -> int {
    if brings_stats(m) && m.max_dura / 1000 == m.durability / 1000 { 1 } else { 0 }
}

/// The ingredient is unworn, to the thousand.
pub open spec fn current_part(m: RefineMaterial) -> int {
    if brings_stats(m) && m.current_dura / 1000 == m.max_dura / 1000 { 1 } else { 0 }
}

pub open spec fn amount_part(m: RefineMaterial) -> int {
    if brings_stats(m) { 1 } else { 0 }
}

pub open spec fn purity_part(m: RefineMaterial) -> int {
    if is_ore(m) { m.current_dura as int / 1000 } else { 0 }
}

pub open spec fn ore_part(m: RefineMaterial) -> int {
    if is_ore(m) { 1 } else { 0 }
}

/// The totals the refine rule keeps over the ingredients, in order: DC, MC,
/// SC, required level, full-durability count, unworn count, stat-bringing
/// count, ore purity, ore count.
pub open spec fn totals(ms: Seq<RefineMaterial>) -> (int, int, int, int, int, int, int, int, int)
    decreases ms.len(),
{
    if ms.len() == 0 {
        (0, 0, 0, 0, 0, 0, 0, 0, 0)
    } else {
        let t = totals(ms.drop_last());
        let m = ms.last();
        (
            t.0 + dc_part(m),
            t.1 + mc_part(m),
            t.2 + sc_part(m),
            t.3 + level_part(m),
            t.4 + dura_part(m),
            t.5 + current_part(m),
            t.6 + amount_part(m),
            t.7 + purity_part(m),
            t.8 + ore_part(m),
        )
    }
}

/// Division that rounds toward zero, as Rust's integer division does.
pub open spec fn trunc_div(a: int, b: int) -> int {
    if a >= 0 {
        a / b
    } else {
        -((-a) / b)
    }
}

/// `v` held within `lo..=hi`.
pub open spec fn clamp(v: int, lo: int, hi: int) -> int {
    if v > hi {
        hi
    } else if v < lo {
        lo
    } else {
        v
    }
}

/// Which stat a refine improves, by the totals: DC (0), MC (1) or SC (2),
/// whichever is strictly largest; DC on a tie.
pub open spec fn refined_stat(dc: int, mc: int, sc: int) -> (u8, int) {
    if dc > mc && dc > sc {
        (0, dc)
    } else if mc > dc && mc > sc {
        (1, mc)
    } else if sc > dc && sc > mc {
        (2, sc)
    } else {
        (0, dc)
    }
}

/// The item part of the success chance: the refined stat against the
/// item's required amount (0 to 10), 10 more when the ingredients' average
/// required amount exceeds the item's less 5, 10 more when every
/// ingredient has its template's durability, 5 more when none is worn.
pub open spec fn item_score(stat: int, req: int, level: int, amount: int, dura: int, cur: int) -> int {
    clamp(stat * 5 - req + 5, 0, 10)
        + (if amount > 0 && trunc_div(level, amount) > req - 5 { 10int } else { 0int })
        + (if dura == amount && amount > 0 { 10int } else { 0int })
        + (if cur == amount && amount > 0 { 5int } else { 0int })
}

/// The ore part of the success chance: 15 when there is at least as much
/// ore as stat-bringing ingredients, 15 when the ore's average purity
/// reaches the stat's average, 5 when the purity equals the stat.
pub open spec fn ore_score(stat: int, amount: int, purity: int, ores: int) -> int {
    (if ores >= amount { 15int } else { 0int })
        + (if amount > 0 && trunc_div(purity, ores) >= trunc_div(stat, amount) { 15int } else { 0int })
        + (if purity == stat { 5int } else { 0int })
}

/// The success chance before the penalty for the item's own added stats.
pub open spec fn raw_chance(t: RefineTarget, ms: Seq<RefineMaterial>) -> int {
    let s = totals(ms);
    let stat = refined_stat(s.0, s.1, s.2).1;
    item_score(stat, t.required_amount as int, s.3, s.6, s.4, s.5) + ore_score(stat, s.6, s.7, s.8)
        + clamp(t.added_luck + 5, 0, 10) + REFINE_BASE_CHANCE
}

/// The penalty for the item's own added stats, at most 50.
pub open spec fn stat_penalty(adjusted_added_stats: i32) -> int {
    if adjusted_added_stats < 50 {
        adjusted_added_stats as int
    } else {
        50
    }
}

/// What a refine does: without stat-bringing ingredients or without ore
/// the mark stays and the chance is 0; else the mark names the refined stat
/// and the chance is the raw chance less the penalty.
pub open spec fn refine_start(t: RefineTarget, ms: Seq<RefineMaterial>, adjusted_added_stats: i32) -> (u8, int) {
    let s = totals(ms);
    if (s.0 == 0 && s.1 == 0 && s.2 == 0) || s.8 == 0 {
        (t.refined_value, 0)
    } else {
        (refined_stat(s.0, s.1, s.2).0, raw_chance(t, ms) - stat_penalty(adjusted_added_stats))
    }
}

/// The item's own added MaxDC, MaxMC and MaxSC together.
pub fn refine_added_stats_total(t: &RefineTarget) -> (r: i32)
    requires
        i32::MIN <= t.added_dc + t.added_mc <= i32::MAX,
        i32::MIN <= t.added_dc + t.added_mc + t.added_sc <= i32::MAX,
    ensures
        r == t.added_dc + t.added_mc + t.added_sc,
{
    t.added_dc + t.added_mc + t.added_sc
}

/// The refine rule's totals over all ingredients, each within the bounds
/// that `n` ingredients allow.
pub open spec fn totals_fit(t: (int, int, int, int, int, int, int, int, int), n: int) -> bool {
    &&& -65536 * n <= t.0 <= 65536 * n
    &&& -65536 * n <= t.1 <= 65536 * n
    &&& -65536 * n <= t.2 <= 65536 * n
    &&& 0 <= t.3 <= 255 * n
    &&& 0 <= t.4 <= n
    &&& 0 <= t.5 <= n
    &&& 0 <= t.6 <= n
    &&& 0 <= t.7 <= 65 * n
    &&& 0 <= t.8 <= n
}

/// The refine rule's totals over the ingredients.
fn gather_totals(materials: &[RefineMaterial]) -> (r: (i128, i128, i128, i128, i128, i128, i128, i128, i128))
    ensures
        (r.0 as int, r.1 as int, r.2 as int, r.3 as int, r.4 as int, r.5 as int, r.6 as int, r.7 as int, r.8 as int)
            == totals(materials@),
        totals_fit(totals(materials@), materials@.len() as int),
        materials@.len() <= usize::MAX,
{
    let ghost ms = materials@;
    let n = materials.len();
    let mut dc: i128 = 0;
    let mut mc: i128 = 0;
    let mut sc: i128 = 0;
    let mut level: i128 = 0;
    let mut dura: i128 = 0;
    let mut cur: i128 = 0;
    let mut amount: i128 = 0;
    let mut purity: i128 = 0;
    let mut ores: i128 = 0;
    let mut i: usize = 0;
    proof {
        assert(ms.take(0) =~= Seq::<RefineMaterial>::empty());
    }
    while i < materials.len()
        invariant
            0 <= i <= ms.len(),
            ms == materials@,
            n == ms.len(),
            (dc as int, mc as int, sc as int, level as int, dura as int, cur as int, amount as int, purity as int, ores as int)
                == totals(ms.take(i as int)),
            totals_fit(totals(ms.take(i as int)), i as int),
        decreases ms.len() - i,
    {
        let m = &materials[i];
        proof {
            assert(ms.take(i + 1).drop_last() =~= ms.take(i as int));
            assert(ms.take(i + 1).last() == ms[i as int]);
        }
        if m.item_type != 0 {
            if m.max_dc > 0 || m.max_mc > 0 || m.max_sc > 0 {
                dc = dc + ((m.min_dc as i64 + m.max_dc as i64) as i16) as i128 + (m.added_dc as i16) as i128;
                mc = mc + ((m.min_mc as i64 + m.max_mc as i64) as i16) as i128 + (m.added_mc as i16) as i128;
                sc = sc + ((m.min_sc as i64 + m.max_sc as i64) as i16) as i128 + (m.added_sc as i16) as i128;
                level = level + m.required_amount as i128;
                if m.max_dura / 1000 == m.durability / 1000 {
                    dura = dura + 1;
                }
                if m.current_dura / 1000 == m.max_dura / 1000 {
                    cur = cur + 1;
                }
                amount = amount + 1;
            }
            if contains_text(m.name.as_str(), "Ore") {
                purity = purity + (m.current_dura / 1000) as i128;
                ores = ores + 1;
            }
        }
        i = i + 1;
    }
    proof {
        assert(ms.take(ms.len() as int) =~= ms);
    }
    (dc, mc, sc, level, dura, cur, amount, purity, ores)
}

fn item_points(stat: i128, req: i128, level: i128, amount: i128, dura: i128, cur: i128) -> (r: i128)
    requires
        -0x1_0000_0000_0000_0000_0000_0000 <= stat <= 0x1_0000_0000_0000_0000_0000_0000,
        0 <= req <= 255,
        0 <= level,
        0 <= amount,
    ensures
        r == item_score(stat as int, req as int, level as int, amount as int, dura as int, cur as int),
        0 <= r <= 35,
{
    let mut item = stat * 5 - req + 5;
    if item > 10 {
        item = 10;
    }
    if item < 0 {
        item = 0;
    }
    if amount > 0 && level / amount > req - 5 {
        item = item + 10;
    }
    if dura == amount && amount > 0 {
        item = item + 10;
    }
    if cur == amount && amount > 0 {
        item = item + 5;
    }
    item
}

fn ore_points(stat: i128, amount: i128, purity: i128, ores: i128) -> (r: i128)
    requires
        0 <= amount,
        0 <= purity,
        0 < ores,
    ensures
        r == ore_score(stat as int, amount as int, purity as int, ores as int),
        0 <= r <= 35,
{
    let mut ore: i128 = 0;
    if ores >= amount {
        ore = ore + 15;
    }
    if amount > 0 && purity / ores >= stat / amount {
        ore = ore + 15;
    }
    if purity == stat {
        ore = ore + 5;
    }
    ore
}

/// Starts a refine: the item's new refined-value mark and success chance
/// from the ingredients in the refine grid (in grid order, weapons and
/// ingredients without a template already left out) and the item's own
/// added stats. `adjusted_added_stats` is those stats' total after the
/// weapon or item reduction factor.
pub fn start_refine(t: &RefineTarget, materials: &[RefineMaterial], adjusted_added_stats: i32) -> (r: RefineStart)
    requires
        refine_start(*t, materials@, adjusted_added_stats).1 <= i32::MAX,
    ensures
        r.refined_value == refine_start(*t, materials@, adjusted_added_stats).0,
        r.success_chance == refine_start(*t, materials@, adjusted_added_stats).1,
{
    let (dc, mc, sc, level, dura, cur, amount, purity, ores) = gather_totals(materials);
    if (dc == 0 && mc == 0 && sc == 0) || ores == 0 {
        return RefineStart { refined_value: t.refined_value, success_chance: 0 };
    }
    let (value, stat): (u8, i128) = if dc > mc && dc > sc {
        (0, dc)
    } else if mc > dc && mc > sc {
        (1, mc)
    } else if sc > dc && sc > mc {
        (2, sc)
    } else {
        (0, dc)
    };
    let item = item_points(stat, t.required_amount as i128, level, amount, dura, cur);
    let ore = ore_points(stat, amount, purity, ores);
    let mut luck = t.added_luck as i128 + 5;
    if luck > 10 {
        luck = 10;
    }
    if luck < 0 {
        luck = 0;
    }
    let penalty: i128 = if adjusted_added_stats < 50 {
        adjusted_added_stats as i128
    } else {
        50
    };
    let chance = item + ore + luck + REFINE_BASE_CHANCE as i128 - penalty;
    RefineStart { refined_value: value, success_chance: chance as i32 }
}

/// What checking a refined item does to it.
#[derive(Clone, Copy, Debug, PartialEq, Eq, Structural)]
pub enum RefineCheck {
    /// The item was never refined; nothing happens.
    NotRefined,
    /// The refine failed and the item breaks.
    Smashed,
    /// The stat with the given mark (0 DC, 1 MC, 2 SC) grows by the amount;
    /// the item's refine fields are then cleared.
    Improved(u8, u8),
}

/// The check's outcome for an item with the given refine fields, given the
/// success roll and the critical roll (each drawn from 1 to 99): the refine
/// fails when the success roll exceeds the chance; a critical roll under 5
/// doubles the amount (at most 255); a failed refine, or a mark other than
/// DC, MC or SC, breaks the item.
pub open spec fn check_result(refine_added: u8, refined_value: u8, chance: i32, success_roll: int, crit_roll: int) -> RefineCheck {
    if refine_added == 0 {
        RefineCheck::NotRefined
    } else {
        let value = if success_roll > chance { REFINED_NONE } else { refined_value };
        let added: u8 = if crit_roll < REFINE_CRIT_CHANCE {
            if refine_added * 2 > 255 { 255u8 } else { (refine_added * 2) as u8 }
        } else {
            refine_added
        };
        if value <= 2 {
            RefineCheck::Improved(value, added)
        } else {
            RefineCheck::Smashed
        }
    }
}

/// Checks a refined item with given rolls.
pub fn check_refine_with_rolls(refine_added: u8, refined_value: u8, chance: i32, success_roll: i32, crit_roll: i32) -> (r: RefineCheck)
    ensures
        r == check_result(refine_added, refined_value, chance, success_roll as int, crit_roll as int),
{
    if refine_added == 0 {
        return RefineCheck::NotRefined;
    }
    let value = if success_roll > chance {
        REFINED_NONE
    } else {
        refined_value
    };
    let added: u8 = if crit_roll < REFINE_CRIT_CHANCE {
        if refine_added > 127 {
            255u8
        } else {
            refine_added * 2
        }
    } else {
        refine_added
    };
    if value <= 2 {
        RefineCheck::Improved(value, added)
    } else {
        RefineCheck::Smashed
    }
}

/// Checks a refined item with the thread's dice: the outcome of some
/// success and critical rolls from 1 to 99.
pub fn check_refine(refine_added: u8, refined_value: u8, chance: i32) -> (r: RefineCheck)
    ensures
        exists|a: int, b: int| 1 <= a < 100 && 1 <= b < 100 && r == check_result(refine_added, refined_value, chance, a, b),
{
    if refine_added == 0 {
        proof {
            assert(check_result(refine_added, refined_value, chance, 1, 1) == RefineCheck::NotRefined);
        }
        return RefineCheck::NotRefined;
    }
    let success_roll = roll_i32_below(1, 100);
    let crit_roll = roll_i32_below(1, 100);
    check_refine_with_rolls(refine_added, refined_value, chance, success_roll, crit_roll)
}

/// `a + b` held within the `i32` range, as `i32::saturating_add` gives.
pub open spec fn sat_add(a: i32, b: i32) -> i32 {
    if a + b > i32::MAX {
        i32::MAX
    } else if a + b < i32::MIN {
        i32::MIN
    } else {
        (a + b) as i32
    }
}

fn saturating_add_i32(a: i32, b: i32) -> (r: i32)
    ensures
        r == sat_add(a, b),
{
    let s = a as i64 + b as i64;
    if s > i32::MAX as i64 {
        i32::MAX
    } else if s < i32::MIN as i64 {
        i32::MIN
    } else {
        s as i32
    }
}

/// The first entry for a stat, or the number of entries.
pub open spec fn stat_pos(es: Seq<(u8, i32)>, key: u8) -> int
    decreases es.len(),
{
    if es.len() == 0 {
        0
    } else if es[0].0 == key {
        0
    } else {
        1 + stat_pos(es.drop_first(), key)
    }
}

proof fn lemma_stat_pos(es: Seq<(u8, i32)>, key: u8, p: int)
    requires
        0 <= p <= es.len(),
        forall|j: int| 0 <= j < p ==> (#[trigger] es[j]).0 != key,
        p < es.len() ==> es[p].0 == key,
    ensures
        stat_pos(es, key) == p,
    decreases es.len(),
{
    if es.len() > 0 && p > 0 {
        let t = es.drop_first();
        assert forall|j: int| 0 <= j < p - 1 implies (#[trigger] t[j]).0 != key by {
            assert(t[j] == es[j + 1]);
        }
        if p < es.len() {
            assert(t[p - 1] == es[p]);
        }
        lemma_stat_pos(t, key, p - 1);
    }
}

/// Adds a refine's amount to an item's added stat: the first entry for the
/// stat grows (saturating), or a new entry is appended.
pub fn add_refined_stat(entries: &mut Vec<(u8, i32)>, key: u8, amount: i32)
    ensures
        ({
            let p = stat_pos(old(entries)@, key);
            if p < old(entries)@.len() {
                final(entries)@ == old(entries)@.update(p, (key, sat_add(old(entries)@[p].1, amount)))
            } else {
                final(entries)@ == old(entries)@.push((key, sat_add(0, amount)))
            }
        }),
{
    let mut i: usize = 0;
    while i < entries.len()
        invariant
            0 <= i <= entries@.len(),
            entries@ == old(entries)@,
            forall|j: int| 0 <= j < i ==> (#[trigger] entries@[j]).0 != key,
        decreases entries@.len() - i,
    {
        if entries[i].0 == key {
            proof {
                lemma_stat_pos(entries@, key, i as int);
            }
            let old_value = entries[i].1;
            entries.set(i, (key, saturating_add_i32(old_value, amount)));
            return;
        }
        i = i + 1;
    }
    proof {
        lemma_stat_pos(entries@, key, i as int);
    }
    entries.push((key, saturating_add_i32(0, amount)));
}

/// Before the added-stats penalty a refine's success chance lies between
/// the base chance 20 and 100.
pub proof fn law_raw_chance_bounds(t: RefineTarget, ms: Seq<RefineMaterial>)
    ensures
        REFINE_BASE_CHANCE <= raw_chance(t, ms) <= 100,
{
}

/// A check never takes away from what the refine adds: an improved stat
/// grows by at least the refine's amount; and a success roll within the
/// chance improves an item marked DC, MC or SC.
pub proof fn law_check_keeps_the_refine(refine_added: u8, refined_value: u8, chance: i32, success_roll: int, crit_roll: int)
    requires
        refine_added > 0,
    ensures
        check_result(refine_added, refined_value, chance, success_roll, crit_roll) matches RefineCheck::Improved(v, a) ==> (
        a >= refine_added && v <= 2),
        success_roll <= chance && refined_value <= 2 ==> (check_result(refine_added, refined_value, chance, success_roll, crit_roll)
            matches RefineCheck::Improved(v, _a) && v == refined_value),
{
}

} // verus!
