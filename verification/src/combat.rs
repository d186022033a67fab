//! Damage rules: the average physical hit, and a rolled hit with luck,
//! accuracy against agility, armour, damage reduction and criticals.
use vstd::prelude::*;
use crate::chance::{roll_i32_below, roll_i32_between};

verus! {

/// A character stat the damage rules read.
#[derive(Clone, Copy, Debug, PartialEq, Eq, Structural)]
pub enum Stat {
    MinDC,
    MaxDC,
    MinMC,
    MaxMC,
    MinSC,
    MaxSC,
    MinAC,
    MaxAC,
    MinMAC,
    MaxMAC,
    AttackBonus,
    DamageReductionPercent,
    Luck,
    Accuracy,
    Agility,
    CriticalRate,
    CriticalDamage,
}

/// A character's stat values.
#[derive(Clone, Copy, Debug)]
pub struct Stats {
    pub min_dc: i32,
    pub max_dc: i32,
    pub min_mc: i32,
    pub max_mc: i32,
    pub min_sc: i32,
    pub max_sc: i32,
    pub min_ac: i32,
    pub max_ac: i32,
    pub min_mac: i32,
    pub max_mac: i32,
    pub attack_bonus: i32,
    pub damage_reduction_percent: i32,
    pub luck: i32,
    pub accuracy: i32,
    pub agility: i32,
    pub critical_rate: i32,
    pub critical_damage: i32,
}

/// The value of one stat.
pub open spec fn stat_value(s: Stats, stat: Stat) -> i32 {
    match stat {
        Stat::MinDC => s.min_dc,
        Stat::MaxDC => s.max_dc,
        Stat::MinMC => s.min_mc,
        Stat::MaxMC => s.max_mc,
        Stat::MinSC => s.min_sc,
        Stat::MaxSC => s.max_sc,
        Stat::MinAC => s.min_ac,
        Stat::MaxAC => s.max_ac,
        Stat::MinMAC => s.min_mac,
        Stat::MaxMAC => s.max_mac,
        Stat::AttackBonus => s.attack_bonus,
        Stat::DamageReductionPercent => s.damage_reduction_percent,
        Stat::Luck => s.luck,
        Stat::Accuracy => s.accuracy,
        Stat::Agility => s.agility,
        Stat::CriticalRate => s.critical_rate,
        Stat::CriticalDamage => s.critical_damage,
    }
}

impl Stats {
    /// Every stat at zero.
    pub fn new() -> (r: Self)
        ensures
            forall|stat: Stat| stat_value(r, stat) == 0,
    {
        Stats {
            min_dc: 0,
            max_dc: 0,
            min_mc: 0,
            max_mc: 0,
            min_sc: 0,
            max_sc: 0,
            min_ac: 0,
            max_ac: 0,
            min_mac: 0,
            max_mac: 0,
            attack_bonus: 0,
            damage_reduction_percent: 0,
            luck: 0,
            accuracy: 0,
            agility: 0,
            critical_rate: 0,
            critical_damage: 0,
        }
    }

    /// The value of one stat.
    pub fn get(&self, stat: Stat) -> (r: i32)
        ensures
            r == stat_value(*self, stat),
    {
        match stat {
            Stat::MinDC => self.min_dc,
            Stat::MaxDC => self.max_dc,
            Stat::MinMC => self.min_mc,
            Stat::MaxMC => self.max_mc,
            Stat::MinSC => self.min_sc,
            Stat::MaxSC => self.max_sc,
            Stat::MinAC => self.min_ac,
            Stat::MaxAC => self.max_ac,
            Stat::MinMAC => self.min_mac,
            Stat::MaxMAC => self.max_mac,
            Stat::AttackBonus => self.attack_bonus,
            Stat::DamageReductionPercent => self.damage_reduction_percent,
            Stat::Luck => self.luck,
            Stat::Accuracy => self.accuracy,
            Stat::Agility => self.agility,
            Stat::CriticalRate => self.critical_rate,
            Stat::CriticalDamage => self.critical_damage,
        }
    }

    /// Sets one stat.
    pub fn set(&mut self, stat: Stat, value: i32)
        ensures
            stat_value(*final(self), stat) == value,
            forall|other: Stat| other != stat ==> stat_value(*final(self), other) == stat_value(*old(self), other),
    {
        match stat {
            Stat::MinDC => self.min_dc = value,
            Stat::MaxDC => self.max_dc = value,
            Stat::MinMC => self.min_mc = value,
            Stat::MaxMC => self.max_mc = value,
            Stat::MinSC => self.min_sc = value,
            Stat::MaxSC => self.max_sc = value,
            Stat::MinAC => self.min_ac = value,
            Stat::MaxAC => self.max_ac = value,
            Stat::MinMAC => self.min_mac = value,
            Stat::MaxMAC => self.max_mac = value,
            Stat::AttackBonus => self.attack_bonus = value,
            Stat::DamageReductionPercent => self.damage_reduction_percent = value,
            Stat::Luck => self.luck = value,
            Stat::Accuracy => self.accuracy = value,
            Stat::Agility => self.agility = value,
            Stat::CriticalRate => self.critical_rate = value,
            Stat::CriticalDamage => self.critical_damage = value,
        }
    }
}

/// An integer clamped into `i32`.
pub open spec fn sat32(v: int) -> int {
    if v > i32::MAX {
        i32::MAX as int
    } else if v < i32::MIN {
        i32::MIN as int
    } else {
        v
    }
}

fn sat_add(a: i32, b: i32) -> (r: i32)
    ensures
        r == sat32(a + b),
{
    let v: i64 = a as i64 + b as i64;
    if v > i32::MAX as i64 {
        i32::MAX
    } else if v < i32::MIN as i64 {
        i32::MIN
    } else {
        v as i32
    }
}

fn sat_sub(a: i32, b: i32) -> (r: i32)
    ensures
        r == sat32(a - b),
{
    let v: i64 = a as i64 - b as i64;
    if v > i32::MAX as i64 {
        i32::MAX
    } else if v < i32::MIN as i64 {
        i32::MIN
    } else {
        v as i32
    }
}

fn sat_mul(a: i32, b: i32) -> (r: i32)
    ensures
        r == sat32(a * b),
{
    proof {
        let x = a as int;
        let y = b as int;
        assert(-0x4000_0000_0000_0000 <= x * y <= 0x4000_0000_0000_0000) by (nonlinear_arith)
            requires
                -0x8000_0000 <= x <= 0x7fff_ffff,
                -0x8000_0000 <= y <= 0x7fff_ffff,
        ;
    }
    let v: i64 = a as i64 * b as i64;
    if v > i32::MAX as i64 {
        i32::MAX
    } else if v < i32::MIN as i64 {
        i32::MIN
    } else {
        v as i32
    }
}

/// The larger of two values.
pub open spec fn max_of(a: int, b: int) -> int {
    if a >= b {
        a
    } else {
        b
    }
}

/// The damage-reduction percentage as applied: clamped to 0..=95.
pub open spec fn reduction_kept(dr: int) -> int {
    100 - (if dr > 95 {
        95
    } else if dr < 0 {
        0
    } else {
        dr
    })
}

/// Damage after percentage reduction: reduced only when the percentage is
/// positive, the product saturating before the division by 100.
pub open spec fn reduced(damage: int, dr: int) -> int {
    if dr > 0 {
        sat32(damage * reduction_kept(dr)) / 100
    } else {
        damage
    }
}

/// The average physical damage: the mean of the DC range plus the attack
/// bonus, less the mean of the defender's AC range, then reduced by the
/// defender's damage reduction; never negative.
pub open spec fn physical_damage(attacker: Stats, defender: Stats) -> int {
    let min_dc = max_of(attacker.min_dc as int, 0);
    let max_dc = max_of(attacker.max_dc as int, min_dc);
    let base = (min_dc + max_dc) / 2 + max_of(attacker.attack_bonus as int, 0);
    let min_ac = max_of(defender.min_ac as int, 0);
    let max_ac = max_of(defender.max_ac as int, min_ac);
    let damage = base - (min_ac + max_ac) / 2;
    if base <= 0 || damage <= 0 {
        0
    } else {
        let r = reduced(damage, defender.damage_reduction_percent as int);
        if r < 0 {
            0
        } else {
            r
        }
    }
}

/// The average physical damage of one character hitting another.
pub fn compute_physical_damage(attacker: &Stats, defender: &Stats) -> (r: i32)
    requires
        ({
            let min_dc = max_of(attacker.min_dc as int, 0);
            let max_dc = max_of(attacker.max_dc as int, min_dc);
            &&& min_dc + max_dc <= i32::MAX
            &&& (min_dc + max_dc) / 2 + max_of(attacker.attack_bonus as int, 0) <= i32::MAX
        }),
        max_of(defender.min_ac as int, 0) + max_of(defender.max_ac as int, max_of(defender.min_ac as int, 0)) <= i32::MAX,
    ensures
        r == physical_damage(*attacker, *defender),
{
    let min_dc: i32 = if attacker.get(Stat::MinDC) > 0 { attacker.get(Stat::MinDC) } else { 0 };
    let max_dc: i32 = if attacker.get(Stat::MaxDC) > min_dc { attacker.get(Stat::MaxDC) } else { min_dc };
    let attack_bonus: i32 = if attacker.get(Stat::AttackBonus) > 0 { attacker.get(Stat::AttackBonus) } else { 0 };
    let base_dc: i32 = (min_dc + max_dc) / 2 + attack_bonus;
    if base_dc <= 0 {
        return 0;
    }
    let min_ac: i32 = if defender.get(Stat::MinAC) > 0 { defender.get(Stat::MinAC) } else { 0 };
    let max_ac: i32 = if defender.get(Stat::MaxAC) > min_ac { defender.get(Stat::MaxAC) } else { min_ac };
    let ac: i32 = (min_ac + max_ac) / 2;
    let mut damage: i32 = base_dc - ac;
    if damage <= 0 {
        return 0;
    }
    let dr_percent = defender.get(Stat::DamageReductionPercent);
    if dr_percent > 0 {
        let clamped: i32 = if dr_percent > 95 { 95 } else { dr_percent };
        damage = sat_mul(damage, 100 - clamped) / 100;
    }
    if damage < 0 {
        0
    } else {
        damage
    }
}

} // verus!

verus! {

/// Which armour a hit is measured against.
#[derive(Clone, Copy, Debug, PartialEq, Eq, Structural)]
pub enum Defence {
    /// Physical armour: MinAC..=MaxAC.
    Armour,
    /// Magic armour: MinMAC..=MaxMAC.
    MagicArmour,
}

/// What a rolled hit comes to. A critical carries the damage before the
/// critical bonus, which the caller adds.
#[derive(Clone, Copy, Debug, PartialEq, Eq, Structural)]
pub enum HitOutcome {
    Miss,
    Hit(i32),
    Critical(i32),
}

/// The dice of one hit.
#[derive(Clone, Copy, Debug)]
pub struct HitRolls {
    /// A roll of 0..10 against the attacker's luck.
    pub luck: i32,
    /// A roll of MinDC..=MaxDC.
    pub damage: i32,
    /// A roll of 0..=Agility against the attacker's accuracy.
    pub agility: i32,
    /// A roll over the defender's armour range.
    pub armour: i32,
    /// A roll of 0..100 against the critical threshold.
    pub critical: i32,
}

/// The lowest DC an attacker rolls: MinDC, never below 0.
pub open spec fn low_dc(a: Stats) -> int {
    max_of(a.min_dc as int, 0)
}

/// The highest DC an attacker rolls: MaxDC, never below the lowest.
pub open spec fn high_dc(a: Stats) -> int {
    max_of(a.max_dc as int, low_dc(a))
}

/// The lowest armour of a defender against a kind of hit.
pub open spec fn low_armour(d: Stats, defence: Defence) -> int {
    match defence {
        Defence::Armour => max_of(d.min_ac as int, 0),
        Defence::MagicArmour => max_of(d.min_mac as int, 0),
    }
}

/// The highest armour of a defender against a kind of hit.
pub open spec fn high_armour(d: Stats, defence: Defence) -> int {
    match defence {
        Defence::Armour => max_of(d.max_ac as int, low_armour(d, defence)),
        Defence::MagicArmour => max_of(d.max_mac as int, low_armour(d, defence)),
    }
}

/// The dice lie in the ranges the hit draws them from.
pub open spec fn rolls_fit(a: Stats, d: Stats, defence: Defence, rolls: HitRolls) -> bool {
    &&& 0 <= rolls.luck < 10
    &&& low_dc(a) <= rolls.damage <= high_dc(a)
    &&& 0 <= rolls.agility <= max_of(d.agility as int, 0)
    &&& high_armour(d, defence) > 0 ==> low_armour(d, defence) <= rolls.armour <= high_armour(d, defence)
    &&& 0 <= rolls.critical < 100
}

/// The base damage: positive luck that beats its roll gives the top of the
/// DC range, negative luck that beats its roll the bottom, else the DC roll;
/// a positive attack bonus is added, saturating.
pub open spec fn base_damage(a: Stats, rolls: HitRolls) -> int {
    let rolled = if a.luck > 0 {
        if a.luck > rolls.luck {
            high_dc(a)
        } else {
            rolls.damage as int
        }
    } else if a.luck < 0 {
        if a.luck < -rolls.luck {
            low_dc(a)
        } else {
            rolls.damage as int
        }
    } else {
        rolls.damage as int
    };
    if a.attack_bonus > 0 {
        sat32(rolled + a.attack_bonus)
    } else {
        rolled
    }
}

/// The damage after armour and percentage reduction.
pub open spec fn landed_damage(a: Stats, d: Stats, defence: Defence, rolls: HitRolls) -> int {
    let armour = if high_armour(d, defence) > 0 {
        rolls.armour as int
    } else {
        0
    };
    sat32(base_damage(a, rolls) - armour)
}

/// The critical threshold in percent: five per point of critical rate.
pub open spec fn critical_threshold(a: Stats) -> int {
    max_of(sat32(max_of(a.critical_rate as int, 0) * 5), 0)
}

/// The outcome of a hit with given dice. No DC, a failed accuracy roll,
/// armour that absorbs everything, or a reduction to nothing is a miss. A
/// positive critical rate and critical damage with a critical roll below the
/// threshold is a critical.
pub open spec fn hit_outcome(a: Stats, d: Stats, defence: Defence, rolls: HitRolls) -> HitOutcome {
    let damage = landed_damage(a, d, defence, rolls);
    let after = reduced(damage, d.damage_reduction_percent as int);
    if high_dc(a) <= 0 {
        HitOutcome::Miss
    } else if rolls.agility > max_of(a.accuracy as int, 0) {
        HitOutcome::Miss
    } else if damage <= 0 || after <= 0 {
        HitOutcome::Miss
    } else if a.critical_rate > 0 && a.critical_damage > 0 && critical_threshold(a) > 0 && rolls.critical
        < critical_threshold(a) {
        HitOutcome::Critical(after as i32)
    } else {
        HitOutcome::Hit(after as i32)
    }
}

fn at_least_zero(v: i32) -> (r: i32)
    ensures
        r == max_of(v as int, 0),
{
    if v > 0 {
        v
    } else {
        0
    }
}

fn at_least(v: i32, floor: i32) -> (r: i32)
    ensures
        r == max_of(v as int, floor as int),
{
    if v > floor {
        v
    } else {
        floor
    }
}

/// The outcome of a hit with given dice.
pub fn resolve_hit(attacker: &Stats, defender: &Stats, defence: Defence, rolls: &HitRolls) -> (r: HitOutcome)
    ensures
        r == hit_outcome(*attacker, *defender, defence, *rolls),
{
    let min_dc = at_least_zero(attacker.get(Stat::MinDC));
    let max_dc = at_least(attacker.get(Stat::MaxDC), min_dc);
    if max_dc <= 0 {
        return HitOutcome::Miss;
    }
    let luck = attacker.get(Stat::Luck);
    let mut base: i32 = if luck > 0 {
        if luck > rolls.luck {
            max_dc
        } else {
            rolls.damage
        }
    } else if luck < 0 {
        if (luck as i64) < -(rolls.luck as i64) {
            min_dc
        } else {
            rolls.damage
        }
    } else {
        rolls.damage
    };
    let attack_bonus = at_least_zero(attacker.get(Stat::AttackBonus));
    if attack_bonus > 0 {
        base = sat_add(base, attack_bonus);
    }
    let accuracy = at_least_zero(attacker.get(Stat::Accuracy));
    if rolls.agility > accuracy {
        return HitOutcome::Miss;
    }
    let (low, high) = match defence {
        Defence::Armour => (defender.get(Stat::MinAC), defender.get(Stat::MaxAC)),
        Defence::MagicArmour => (defender.get(Stat::MinMAC), defender.get(Stat::MaxMAC)),
    };
    let min_armour = at_least_zero(low);
    let max_armour = at_least(high, min_armour);
    let armour: i32 = if max_armour > 0 {
        rolls.armour
    } else {
        0
    };
    let mut damage = sat_sub(base, armour);
    if damage <= 0 {
        return HitOutcome::Miss;
    }
    let dr_percent = defender.get(Stat::DamageReductionPercent);
    if dr_percent > 0 {
        let clamped: i32 = if dr_percent > 95 { 95 } else { dr_percent };
        damage = sat_mul(damage, 100 - clamped) / 100;
        if damage <= 0 {
            return HitOutcome::Miss;
        }
    }
    let crit_rate = at_least_zero(attacker.get(Stat::CriticalRate));
    let crit_damage = at_least_zero(attacker.get(Stat::CriticalDamage));
    if crit_rate > 0 && crit_damage > 0 {
        let threshold = at_least_zero(sat_mul(crit_rate, 5));
        if threshold > 0 && rolls.critical < threshold {
            return HitOutcome::Critical(damage);
        }
    }
    HitOutcome::Hit(damage)
}

/// A hit with the thread's dice: the outcome of some dice drawn from their
/// ranges.
pub fn roll_hit(attacker: &Stats, defender: &Stats, defence: Defence) -> (r: HitOutcome)
    ensures
        exists|rolls: HitRolls| rolls_fit(*attacker, *defender, defence, rolls) && r == hit_outcome(*attacker, *defender, defence, rolls),
{
    let min_dc = at_least_zero(attacker.get(Stat::MinDC));
    let max_dc = at_least(attacker.get(Stat::MaxDC), min_dc);
    let agility = at_least_zero(defender.get(Stat::Agility));
    let (low, high) = match defence {
        Defence::Armour => (defender.get(Stat::MinAC), defender.get(Stat::MaxAC)),
        Defence::MagicArmour => (defender.get(Stat::MinMAC), defender.get(Stat::MaxMAC)),
    };
    let min_armour = at_least_zero(low);
    let max_armour = at_least(high, min_armour);
    let rolls = HitRolls {
        luck: roll_i32_below(0, 10),
        damage: roll_i32_between(min_dc, max_dc),
        agility: roll_i32_between(0, agility),
        armour: if max_armour > 0 {
            roll_i32_between(min_armour, max_armour)
        } else {
            0
        },
        critical: roll_i32_below(0, 100),
    };
    let r = resolve_hit(attacker, defender, defence, &rolls);
    proof {
        assert(rolls_fit(*attacker, *defender, defence, rolls));
    }
    r
}

} // verus!

verus! {

/// Percentage reduction never raises damage and never makes positive
/// damage negative.
pub proof fn law_reduction_never_raises(damage: int, dr: int)
    requires
        0 < damage <= i32::MAX,
    ensures
        0 <= reduced(damage, dr) <= damage,
{
    if dr > 0 {
        let k = reduction_kept(dr);
        assert(5 <= k <= 100);
        assert(0 < damage * k <= damage * 100) by (nonlinear_arith)
            requires
                0 < damage,
                5 <= k <= 100,
        ;
        assert(damage * k <= i32::MAX * 100) by (nonlinear_arith)
            requires
                0 < damage <= i32::MAX,
                k <= 100,
        ;
        let s = sat32(damage * k);
        assert(0 < s <= damage * 100);
        assert(s / 100 <= damage) by (nonlinear_arith)
            requires
                0 < s <= damage * 100,
        ;
    }
}

/// A landed hit, critical or not, does positive damage.
pub proof fn law_landed_hit_is_positive(a: Stats, d: Stats, defence: Defence, rolls: HitRolls)
    ensures
        hit_outcome(a, d, defence, rolls) matches HitOutcome::Hit(x) ==> x > 0,
        hit_outcome(a, d, defence, rolls) matches HitOutcome::Critical(x) ==> x > 0,
{
    let damage = landed_damage(a, d, defence, rolls);
    if damage > 0 {
        law_reduction_never_raises(damage, d.damage_reduction_percent as int);
    }
}

/// The average damage is never negative and never more than the mean DC
/// plus the attack bonus.
pub proof fn law_average_damage_bounded(attacker: Stats, defender: Stats)
    ensures
        0 <= physical_damage(attacker, defender),
        physical_damage(attacker, defender) <= max_of(
            (low_dc(attacker) + high_dc(attacker)) / 2 + max_of(attacker.attack_bonus as int, 0),
            0,
        ),
{
    let base = (low_dc(attacker) + high_dc(attacker)) / 2 + max_of(attacker.attack_bonus as int, 0);
    let min_ac = max_of(defender.min_ac as int, 0);
    let max_ac = max_of(defender.max_ac as int, min_ac);
    let damage = base - (min_ac + max_ac) / 2;
    if base > 0 && damage > 0 && damage <= i32::MAX {
        law_reduction_never_raises(damage, defender.damage_reduction_percent as int);
    }
    if base > 0 && damage > i32::MAX {
        let dr = defender.damage_reduction_percent as int;
        if dr > 0 {
            let k = reduction_kept(dr);
            assert(damage * k >= damage) by (nonlinear_arith)
                requires
                    damage > 0,
                    k >= 5,
            ;
            assert(sat32(damage * k) / 100 <= damage);
        }
    }
}


/// A hit that lands against a defender with a positive damage-reduction
/// percentage p keeps at most (100 - min(p, 95)) percent of the damage that
/// got past the armour, and exactly that share, rounded down, when the
/// product stays within `i32`.
pub proof fn law_hit_reduced_by_percentage(a: Stats, d: Stats, defence: Defence, rolls: HitRolls, x: i32)
    requires
        d.damage_reduction_percent > 0,
        hit_outcome(a, d, defence, rolls) == HitOutcome::Hit(x) || hit_outcome(a, d, defence, rolls)
            == HitOutcome::Critical(x),
    ensures
        ({
            let p: int = if d.damage_reduction_percent > 95 { 95 } else { d.damage_reduction_percent as int };
            let dmg = landed_damage(a, d, defence, rolls);
            &&& 0 < x
            &&& x * 100 <= dmg * (100 - p)
            &&& dmg * (100 - p) <= i32::MAX ==> x == dmg * (100 - p) / 100
        }),
{
    let p: int = if d.damage_reduction_percent > 95 { 95 } else { d.damage_reduction_percent as int };
    let dmg = landed_damage(a, d, defence, rolls);
    let k = 100 - p;
    assert(reduction_kept(d.damage_reduction_percent as int) == k);
    assert(dmg > 0);
    assert(5 <= k <= 100);
    assert(dmg * k > 0) by (nonlinear_arith)
        requires
            dmg > 0,
            k >= 5,
    ;
    let s = sat32(dmg * k);
    assert(0 < s <= dmg * k);
    let after = s / 100;
    assert(0 <= after <= i32::MAX);
    assert(x as int == after);
    assert(after * 100 <= s) by (nonlinear_arith)
        requires
            after == s / 100,
            s > 0,
    ;
}

/// The average damage against a defender with a positive damage-reduction
/// percentage p is at most (100 - min(p, 95)) percent of the damage the
/// armour lets through.
pub proof fn law_average_damage_reduced_by_percentage(attacker: Stats, defender: Stats)
    requires
        defender.damage_reduction_percent > 0,
    ensures
        ({
            let p: int = if defender.damage_reduction_percent > 95 { 95 } else { defender.damage_reduction_percent as int };
            let min_dc = max_of(attacker.min_dc as int, 0);
            let max_dc = max_of(attacker.max_dc as int, min_dc);
            let base = (min_dc + max_dc) / 2 + max_of(attacker.attack_bonus as int, 0);
            let min_ac = max_of(defender.min_ac as int, 0);
            let max_ac = max_of(defender.max_ac as int, min_ac);
            let through = base - (min_ac + max_ac) / 2;
            &&& through > 0 && base > 0 ==> physical_damage(attacker, defender) * 100 <= through * (100 - p)
            &&& (through <= 0 || base <= 0) ==> physical_damage(attacker, defender) == 0
        }),
{
    let p: int = if defender.damage_reduction_percent > 95 { 95 } else { defender.damage_reduction_percent as int };
    let min_dc = max_of(attacker.min_dc as int, 0);
    let max_dc = max_of(attacker.max_dc as int, min_dc);
    let base = (min_dc + max_dc) / 2 + max_of(attacker.attack_bonus as int, 0);
    let min_ac = max_of(defender.min_ac as int, 0);
    let max_ac = max_of(defender.max_ac as int, min_ac);
    let through = base - (min_ac + max_ac) / 2;
    if through > 0 && base > 0 {
        let k = 100 - p;
        assert(reduction_kept(defender.damage_reduction_percent as int) == k);
        assert(through * k > 0) by (nonlinear_arith)
            requires
                through > 0,
                k >= 5,
        ;
        let s = sat32(through * k);
        assert(0 < s <= through * k);
        assert((s / 100) * 100 <= s) by (nonlinear_arith)
            requires
                s > 0,
        ;
    }
}


/// When a hit misses and when it is critical: an attacker without DC
/// misses; an agility roll above the attacker's accuracy (at least 0)
/// misses; a critical needs a positive critical rate and critical damage
/// and a critical roll below five times the rate; and a landed hit that
/// meets those conditions is critical, not plain.
pub proof fn law_miss_and_critical_rules(a: Stats, d: Stats, defence: Defence, rolls: HitRolls)
    ensures
        a.max_dc <= 0 && a.min_dc <= 0 ==> hit_outcome(a, d, defence, rolls) == HitOutcome::Miss,
        rolls.agility > (if a.accuracy > 0 { a.accuracy as int } else { 0 }) ==> hit_outcome(a, d, defence, rolls)
            == HitOutcome::Miss,
        forall|x: i32| hit_outcome(a, d, defence, rolls) == HitOutcome::Critical(x) ==> a.critical_rate > 0
            && a.critical_damage > 0 && rolls.critical < a.critical_rate * 5,
        forall|x: i32| hit_outcome(a, d, defence, rolls) == HitOutcome::Hit(x) && a.critical_rate > 0
            && a.critical_damage > 0 && 0 <= rolls.critical < a.critical_rate * 5 && a.critical_rate * 5 <= i32::MAX
            ==> false,
{
}

/// A plain hit on a defender without armour or damage reduction, by an
/// attacker without luck or attack bonus, does exactly the DC roll; with
/// armour it does the DC roll less the armour roll, and misses when the
/// armour roll is not below the DC roll.
pub proof fn law_plain_hit_damage(a: Stats, d: Stats, rolls: HitRolls)
    requires
        a.luck == 0,
        a.attack_bonus <= 0,
        a.critical_rate <= 0,
        d.damage_reduction_percent <= 0,
        a.max_dc > 0,
        0 <= rolls.agility <= a.accuracy,
        0 <= rolls.damage,
        0 <= rolls.armour,
    ensures
        d.max_ac <= 0 && d.min_ac <= 0 ==> hit_outcome(a, d, Defence::Armour, rolls) == if rolls.damage > 0 {
            HitOutcome::Hit(rolls.damage)
        } else {
            HitOutcome::Miss
        },
        d.max_ac > 0 ==> hit_outcome(a, d, Defence::Armour, rolls) == if rolls.damage > rolls.armour {
            HitOutcome::Hit((rolls.damage - rolls.armour) as i32)
        } else {
            HitOutcome::Miss
        },
{
}

/// Luck above its roll gives the top of the DC range: an attacker with
/// positive luck beating the luck roll, without attack bonus, hitting an
/// unarmoured defender without damage reduction, does its highest DC.
pub proof fn law_luck_gives_top_damage(a: Stats, d: Stats, rolls: HitRolls)
    requires
        a.luck > rolls.luck,
        a.luck > 0,
        a.attack_bonus <= 0,
        a.critical_rate <= 0,
        d.damage_reduction_percent <= 0,
        d.max_ac <= 0,
        d.min_ac <= 0,
        0 <= a.min_dc < a.max_dc,
        0 <= rolls.agility <= a.accuracy,
    ensures
        hit_outcome(a, d, Defence::Armour, rolls) == HitOutcome::Hit(a.max_dc),
{
}


/// Without damage reduction, the average damage is the mean of the DC range
/// (MinDC at least 0, MaxDC at least MinDC) plus a positive attack bonus,
/// less the mean of the armour range likewise, when both that base and the
/// result are positive; otherwise 0.
pub proof fn law_average_damage_without_reduction(attacker: Stats, defender: Stats)
    requires
        defender.damage_reduction_percent <= 0,
    ensures
        ({
            let min_dc = if attacker.min_dc > 0 { attacker.min_dc as int } else { 0 };
            let max_dc = if attacker.max_dc > min_dc { attacker.max_dc as int } else { min_dc };
            let bonus = if attacker.attack_bonus > 0 { attacker.attack_bonus as int } else { 0 };
            let base = (min_dc + max_dc) / 2 + bonus;
            let min_ac = if defender.min_ac > 0 { defender.min_ac as int } else { 0 };
            let max_ac = if defender.max_ac > min_ac { defender.max_ac as int } else { min_ac };
            let through = base - (min_ac + max_ac) / 2;
            physical_damage(attacker, defender) == if base > 0 && through > 0 { through } else { 0 }
        }),
{
}

} // verus!
