//! Item awakening: a kind chosen at the first level, then up to five
//! levels, each adding a value to the kind's stat.
use vstd::prelude::*;
use crate::item::{AwakeData, UserItemData};
use crate::chance::roll_i32_below;

verus! {

/// The stat an awakening raises.
#[derive(Clone, Copy, Debug, PartialEq, Eq, Structural)]
pub enum AwakeType {
    Unset,
    DC,
    MC,
    SC,
    AC,
    MAC,
    HPMP,
}

/// The kind's number as stored with an item.
pub open spec fn awake_code(t: AwakeType) -> u8 {
    match t {
        AwakeType::Unset => 0,
        AwakeType::DC => 1,
        AwakeType::MC => 2,
        AwakeType::SC => 3,
        AwakeType::AC => 4,
        AwakeType::MAC => 5,
        AwakeType::HPMP => 6,
    }
}

/// The kind a stored number names; unknown numbers name no kind.
pub open spec fn awake_type_of(value: u8) -> AwakeType {
    if value == 1 {
        AwakeType::DC
    } else if value == 2 {
        AwakeType::MC
    } else if value == 3 {
        AwakeType::SC
    } else if value == 4 {
        AwakeType::AC
    } else if value == 5 {
        AwakeType::MAC
    } else if value == 6 {
        AwakeType::HPMP
    } else {
        AwakeType::Unset
    }
}

impl Default for AwakeType {
    fn default() -> (r: Self)
        ensures
            r == AwakeType::Unset,
    {
        AwakeType::Unset
    }
}

impl AwakeType {
    /// The kind a stored number names.
    pub fn from_u8(value: u8) -> (r: Self)
        ensures
            r == awake_type_of(value),
    {
        match value {
            1 => AwakeType::DC,
            2 => AwakeType::MC,
            3 => AwakeType::SC,
            4 => AwakeType::AC,
            5 => AwakeType::MAC,
            6 => AwakeType::HPMP,
            _ => AwakeType::Unset,
        }
    }

    /// The kind's stored number.
    pub fn code(self) -> (r: u8)
        ensures
            r == awake_code(self),
    {
        match self {
            AwakeType::Unset => 0,
            AwakeType::DC => 1,
            AwakeType::MC => 2,
            AwakeType::SC => 3,
            AwakeType::AC => 4,
            AwakeType::MAC => 5,
            AwakeType::HPMP => 6,
        }
    }
}

/// Chance in percent that an awakening attempt succeeds (a roll of 0..100
/// at or below it).
pub const AWAKE_SUCCESS_RATE: u8 = 70;

/// Chance in percent that each of the five hit rolls hits.
pub const AWAKE_HIT_RATE: u8 = 70;

/// Levels an item can be awakened to.
pub const MAX_AWAKE_LEVEL: usize = 5;

pub const AWAKE_WEAPON_RATE: u8 = 1;

pub const AWAKE_HELMET_RATE: u8 = 1;

pub const AWAKE_ARMOR_RATE: u8 = 5;

pub const AWAKE_CHANCE_MIN: u8 = 1;

/// Extra materials per level, by grade (grade 1 first), as whole
/// multipliers of the level.
pub const AWAKE_MATERIAL_RATE: [u32; 4] = [1, 1, 1, 1];

/// The hit weight of an awakening, by level (capped at the last entry).
pub const AWAKE_CHANCE_MAX: [u8; 4] = [1, 2, 3, 4];

/// Material needs: by awakening kind, then by material, then by grade.
pub type MaterialMatrix = Vec<Vec<[u8; 4]>>;

/// Six kinds, two materials each, one of each material at every grade.
pub open spec fn is_default_materials(m: Seq<Vec<[u8; 4]>>) -> bool {
    &&& m.len() == 6
    &&& forall|t: int| 0 <= t < 6 ==> #[trigger] m[t]@.len() == 2
    &&& forall|t: int, k: int, g: int| 0 <= t < 6 && 0 <= k < 2 && 0 <= g < 4 ==> #[trigger] m[t]@[k]@[g] == 1
}

/// The default material needs.
pub fn get_default_materials() -> (r: MaterialMatrix)
    ensures
        is_default_materials(r@),
{
    let mut r: MaterialMatrix = Vec::new();
    let mut t: usize = 0;
    while t < 6
        invariant
            t <= 6,
            r@.len() == t,
            forall|u: int| 0 <= u < t ==> #[trigger] r@[u]@.len() == 2,
            forall|u: int, k: int, g: int| 0 <= u < t && 0 <= k < 2 && 0 <= g < 4 ==> #[trigger] r@[u]@[k]@[g] == 1,
        decreases 6 - t,
    {
        let row: Vec<[u8; 4]> = vec![[1u8, 1u8, 1u8, 1u8], [1u8, 1u8, 1u8, 1u8]];
        proof {
            assert(row@[0]@ =~= seq![1u8, 1u8, 1u8, 1u8]);
            assert(row@[1]@ =~= seq![1u8, 1u8, 1u8, 1u8]);
        }
        r.push(row);
        t = t + 1;
    }
    r
}

/// The sum of the level values.
pub open spec fn value_sum(s: Seq<u8>) -> int
    decreases s.len(),
{
    if s.len() == 0 {
        0
    } else {
        value_sum(s.drop_last()) + s.last()
    }
}

proof fn lemma_value_sum_prefix(s: Seq<u8>, i: int)
    requires
        0 <= i <= s.len(),
    ensures
        0 <= value_sum(s.take(i)) <= value_sum(s),
    decreases s.len() - i,
{
    if i < s.len() {
        lemma_value_sum_prefix(s, i + 1);
        assert(s.take(i + 1).drop_last() =~= s.take(i));
    } else {
        assert(s.take(i) =~= s);
    }
    lemma_value_sum_nonneg(s.take(i));
}

proof fn lemma_value_sum_nonneg(s: Seq<u8>)
    ensures
        value_sum(s) >= 0,
    decreases s.len(),
{
    if s.len() > 0 {
        lemma_value_sum_nonneg(s.drop_last());
    }
}

/// The hit results of five rolls of 0..100.
pub open spec fn hits_of(rolls: Seq<i32>) -> Seq<bool> {
    rolls.map_values(|r: i32| r < AWAKE_HIT_RATE)
}

/// Some roll hit.
pub open spec fn any_hit(hits: Seq<bool>) -> bool {
    exists|k: int| 0 <= k < hits.len() && #[trigger] hits[k]
}

/// The kind and levels after a successful attempt with these hits.
pub open spec fn after_success(kind: AwakeType, values: Seq<u8>, hits: Seq<bool>) -> (AwakeType, Seq<u8>) {
    (
        if kind == AwakeType::Unset {
            AwakeType::DC
        } else {
            kind
        },
        values.push(if any_hit(hits) { 1u8 } else { 0u8 }),
    )
}

/// The kind and levels after the last level is dropped.
pub open spec fn after_remove(kind: AwakeType, values: Seq<u8>) -> (AwakeType, Seq<u8>) {
    (
        if values.len() == 1 {
            AwakeType::Unset
        } else {
            kind
        },
        values.drop_last(),
    )
}

/// A kind is chosen exactly when some level exists.
pub open spec fn kind_matches_levels(kind: AwakeType, values: Seq<u8>) -> bool {
    (kind == AwakeType::Unset) == (values.len() == 0)
}

/// An item's awakening: its kind and one value per level.
#[derive(Clone, Debug)]
pub struct Awakening {
    pub awake_type: AwakeType,
    pub values: Vec<u8>,
}

impl Awakening {
    /// An awakening can be raised toward a kind: a kind is named, the last
    /// level is not reached, and the kind matches the one already chosen.
    pub open spec fn can_awaken(&self, awake_type: AwakeType) -> bool {
        &&& awake_type != AwakeType::Unset
        &&& self.values@.len() < MAX_AWAKE_LEVEL
        &&& (self.awake_type == AwakeType::Unset || self.awake_type == awake_type)
    }

    /// The value a level-getter reports for a kind.
    pub open spec fn stat_for(&self, kind: AwakeType) -> int {
        if self.awake_type == kind {
            value_sum(self.values@)
        } else {
            0
        }
    }

    /// No kind and no levels.
    pub fn new() -> (r: Self)
        ensures
            r.awake_type == AwakeType::Unset,
            r.values@.len() == 0,
    {
        Awakening { awake_type: AwakeType::Unset, values: Vec::new() }
    }

    /// The awakening stored with an item.
    pub fn from_data(data: &AwakeData) -> (r: Self)
        ensures
            r.awake_type == awake_type_of(data.awake_type),
            r.values@ == data.values@,
    {
        Awakening { awake_type: AwakeType::from_u8(data.awake_type), values: data.values.clone() }
    }

    /// The awakening as stored with an item.
    pub fn to_data(&self) -> (r: AwakeData)
        ensures
            r.awake_type == awake_code(self.awake_type),
            r.values@ == self.values@,
    {
        AwakeData { awake_type: self.awake_type.code(), values: self.values.clone() }
    }

    /// The last level is reached.
    pub fn is_max_level(&self) -> (r: bool)
        ensures
            r == (self.values@.len() >= MAX_AWAKE_LEVEL),
    {
        self.values.len() >= MAX_AWAKE_LEVEL
    }

    /// The number of levels.
    pub fn get_awake_level(&self) -> (r: usize)
        ensures
            r == self.values@.len(),
    {
        self.values.len()
    }

    /// The sum of the level values.
    pub fn get_awake_value(&self) -> (r: u8)
        requires
            value_sum(self.values@) <= u8::MAX,
        ensures
            r == value_sum(self.values@),
    {
        let mut total: u8 = 0;
        let mut i: usize = 0;
        while i < self.values.len()
            invariant
                0 <= i <= self.values@.len(),
                total == value_sum(self.values@.take(i as int)),
                value_sum(self.values@) <= u8::MAX,
            decreases self.values@.len() - i,
        {
            proof {
                lemma_value_sum_prefix(self.values@, i as int + 1);
                assert(self.values@.take(i as int + 1).drop_last() =~= self.values@.take(i as int));
            }
            total = total + self.values[i];
            i = i + 1;
        }
        proof {
            assert(self.values@.take(self.values@.len() as int) =~= self.values@);
        }
        total
    }

    fn value_for(&self, kind: AwakeType) -> (r: u8)
        requires
            self.awake_type == kind ==> value_sum(self.values@) <= u8::MAX,
        ensures
            r == self.stat_for(kind),
    {
        if self.awake_type == kind {
            self.get_awake_value()
        } else {
            0
        }
    }

    /// The DC the awakening adds.
    pub fn get_dc(&self) -> (r: u8)
        requires
            self.awake_type == AwakeType::DC ==> value_sum(self.values@) <= u8::MAX,
        ensures
            r == self.stat_for(AwakeType::DC),
    {
        self.value_for(AwakeType::DC)
    }

    /// The MC the awakening adds.
    pub fn get_mc(&self) -> (r: u8)
        requires
            self.awake_type == AwakeType::MC ==> value_sum(self.values@) <= u8::MAX,
        ensures
            r == self.stat_for(AwakeType::MC),
    {
        self.value_for(AwakeType::MC)
    }

    /// The SC the awakening adds.
    pub fn get_sc(&self) -> (r: u8)
        requires
            self.awake_type == AwakeType::SC ==> value_sum(self.values@) <= u8::MAX,
        ensures
            r == self.stat_for(AwakeType::SC),
    {
        self.value_for(AwakeType::SC)
    }

    /// The AC the awakening adds.
    pub fn get_ac(&self) -> (r: u8)
        requires
            self.awake_type == AwakeType::AC ==> value_sum(self.values@) <= u8::MAX,
        ensures
            r == self.stat_for(AwakeType::AC),
    {
        self.value_for(AwakeType::AC)
    }

    /// The MAC the awakening adds.
    pub fn get_mac(&self) -> (r: u8)
        requires
            self.awake_type == AwakeType::MAC ==> value_sum(self.values@) <= u8::MAX,
        ensures
            r == self.stat_for(AwakeType::MAC),
    {
        self.value_for(AwakeType::MAC)
    }

    /// The HP and MP the awakening adds.
    pub fn get_hpmp(&self) -> (r: u8)
        requires
            self.awake_type == AwakeType::HPMP ==> value_sum(self.values@) <= u8::MAX,
        ensures
            r == self.stat_for(AwakeType::HPMP),
    {
        self.value_for(AwakeType::HPMP)
    }
}

} // verus!

verus! {

impl Awakening {
    /// Drops the last level; with no level left the kind is cleared.
    /// Returns 1 when a level was dropped, 0 when there was none.
    pub fn remove_awake(&mut self) -> (r: i32)
        ensures
            old(self).values@.len() == 0 ==> r == 0 && *final(self) == *old(self),
            old(self).values@.len() > 0 ==> r == 1 && (final(self).awake_type, final(self).values@) == after_remove(
                old(self).awake_type,
                old(self).values@,
            ),
    {
        if self.values.len() == 0 {
            return 0;
        }
        self.values.pop();
        if self.values.len() == 0 {
            self.awake_type = AwakeType::Unset;
        }
        1
    }

    fn check_awakening(&self, _item: &UserItemData, awake_type: AwakeType) -> (r: bool)
        ensures
            r == self.can_awaken(awake_type),
    {
        if awake_type == AwakeType::Unset {
            return false;
        }
        if self.is_max_level() {
            return false;
        }
        if self.awake_type != AwakeType::Unset && self.awake_type != awake_type {
            return false;
        }
        true
    }

    /// The five hit results: each roll of 0..100 below the hit rate hits.
    fn make_hit(&self, rolls: &[i32]) -> (r: Vec<bool>)
        ensures
            r@ == hits_of(rolls@),
    {
        let mut hits: Vec<bool> = Vec::new();
        let mut i: usize = 0;
        while i < rolls.len()
            invariant
                0 <= i <= rolls@.len(),
                hits@ == hits_of(rolls@.take(i as int)),
            decreases rolls@.len() - i,
        {
            hits.push(rolls[i] < AWAKE_HIT_RATE as i32);
            proof {
                assert(hits_of(rolls@.take(i as int + 1)) =~= hits_of(rolls@.take(i as int)).push(rolls@[i as int] < AWAKE_HIT_RATE));
            }
            i = i + 1;
        }
        proof {
            assert(rolls@.take(rolls@.len() as int) =~= rolls@);
        }
        hits
    }

    /// A successful attempt: the first level fixes the kind at DC, and the
    /// new level is worth 1 when any roll hit, else 0.
    fn awakening(&mut self, rolls: &[i32]) -> (r: Vec<bool>)
        ensures
            r@ == hits_of(rolls@),
            final(self).awake_type == if old(self).awake_type == AwakeType::Unset {
                AwakeType::DC
            } else {
                old(self).awake_type
            },
            final(self).values@ == old(self).values@.push(if any_hit(hits_of(rolls@)) { 1u8 } else { 0u8 }),
    {
        let is_hit = self.make_hit(rolls);
        if self.awake_type == AwakeType::Unset {
            self.awake_type = AwakeType::DC;
        }
        let mut any: bool = false;
        let mut i: usize = 0;
        while i < is_hit.len()
            invariant
                0 <= i <= is_hit@.len(),
                any == exists|k: int| 0 <= k < i && #[trigger] is_hit@[k],
            decreases is_hit@.len() - i,
        {
            if is_hit[i] {
                any = true;
            }
            i = i + 1;
        }
        let value: u8 = if any { 1 } else { 0 };
        self.values.push(value);
        is_hit
    }

    /// An attempt with given dice: a success roll of 0..100 and five hit
    /// rolls of 0..100. Returns -1 with five misses when the attempt is not
    /// allowed, 1 and the hits when the success roll is at most the success
    /// rate, else 0 and the hits with the awakening unchanged.
    pub fn upgrade_awake_with_rolls(&mut self, item: &UserItemData, awake_type: AwakeType, success_roll: i32, hit_rolls: &[i32]) -> (r: (i32, Vec<bool>))
        ensures
            !old(self).can_awaken(awake_type) ==> {
                &&& r.0 == -1
                &&& r.1@ == seq![false, false, false, false, false]
                &&& *final(self) == *old(self)
            },
            old(self).can_awaken(awake_type) && success_roll > AWAKE_SUCCESS_RATE ==> {
                &&& r.0 == 0
                &&& r.1@ == hits_of(hit_rolls@)
                &&& *final(self) == *old(self)
            },
            old(self).can_awaken(awake_type) && success_roll <= AWAKE_SUCCESS_RATE ==> {
                &&& r.0 == 1
                &&& r.1@ == hits_of(hit_rolls@)
                &&& (final(self).awake_type, final(self).values@) == after_success(
                    old(self).awake_type,
                    old(self).values@,
                    r.1@,
                )
            },
    {
        if !self.check_awakening(item, awake_type) {
            let misses: Vec<bool> = vec![false, false, false, false, false];
            return (-1, misses);
        }
        if success_roll <= AWAKE_SUCCESS_RATE as i32 {
            let is_hit = self.awakening(hit_rolls);
            (1, is_hit)
        } else {
            let is_hit = self.make_hit(hit_rolls);
            (0, is_hit)
        }
    }

    /// An awakening attempt with the thread's dice. Whatever the dice: -1
    /// exactly when the attempt is not allowed, five hit results, and on a
    /// success one more level worth 1 when some roll hit, else 0.
    pub fn upgrade_awake(&mut self, item: &UserItemData, awake_type: AwakeType) -> (r: (i32, Vec<bool>))
        ensures
            r.1@.len() == 5,
            r.0 == -1 <==> !old(self).can_awaken(awake_type),
            r.0 == -1 ==> *final(self) == *old(self) && forall|k: int| 0 <= k < 5 ==> !#[trigger] r.1@[k],
            r.0 == 0 ==> *final(self) == *old(self),
            r.0 == 1 ==> (final(self).awake_type, final(self).values@) == after_success(
                old(self).awake_type,
                old(self).values@,
                r.1@,
            ),
            r.0 == -1 || r.0 == 0 || r.0 == 1,
    {
        if !self.check_awakening(item, awake_type) {
            let misses: Vec<bool> = vec![false, false, false, false, false];
            return (-1, misses);
        }
        let success_roll = roll_i32_below(0, 100);
        let mut rolls: Vec<i32> = Vec::new();
        let mut i: usize = 0;
        while i < 5
            invariant
                i <= 5,
                rolls@.len() == i,
            decreases 5 - i,
        {
            rolls.push(roll_i32_below(0, 100));
            i = i + 1;
        }
        self.upgrade_awake_with_rolls(item, awake_type, success_roll, rolls.as_slice())
    }
}

/// The base awakening price of a grade.
pub open spec fn awakening_base_price(grade: u8) -> int {
    if grade == 2 {
        5000
    } else if grade == 3 {
        20000
    } else if grade == 4 {
        100000
    } else {
        1000
    }
}

/// The price of the next awakening: the grade's base price times one more
/// than the current level.
pub fn calculate_awakening_price(grade: u8, level: usize) -> (r: u64)
    requires
        level < usize::MAX,
        awakening_base_price(grade) * (level + 1) <= u64::MAX,
    ensures
        r == awakening_base_price(grade) * (level + 1),
{
    let n: u64 = (level + 1) as u64;
    match grade {
        2 => 5000 * n,
        3 => 20000 * n,
        4 => 100000 * n,
        _ => 1000 * n,
    }
}

/// The price of removing a level, by grade.
pub open spec fn downgrade_price(grade: u8) -> u64 {
    if grade == 2 {
        2500
    } else if grade == 3 {
        10000
    } else if grade == 4 {
        50000
    } else {
        500
    }
}

/// The price of removing a level.
pub fn calculate_downgrade_price(grade: u8) -> (r: u64)
    ensures
        r == downgrade_price(grade),
{
    match grade {
        2 => 2500,
        3 => 10000,
        4 => 50000,
        _ => 500,
    }
}

/// The extra materials for a level: the grade's multiplier times the level,
/// saturating at 255.
pub open spec fn material_extra(grade: int, level: int) -> int {
    let v = AWAKE_MATERIAL_RATE@[grade] * level;
    if v > 255 {
        255
    } else {
        v
    }
}

/// The two material counts an awakening needs at a grade and level: the
/// first kind's base needs plus the level's extra; none when no needs are
/// given.
pub fn calculate_material_requirements(materials: &MaterialMatrix, grade: usize, level: usize) -> (r: [u8; 2])
    requires
        materials@.len() > 0 ==> {
            &&& grade < 4
            &&& materials@[0]@.len() >= 2
            &&& materials@[0]@[0]@[grade as int] + material_extra(grade as int, level as int) <= u8::MAX
            &&& materials@[0]@[1]@[grade as int] + material_extra(grade as int, level as int) <= u8::MAX
        },
    ensures
        materials@.len() == 0 ==> r@ == seq![0u8, 0u8],
        materials@.len() > 0 ==> r@ == seq![
            (materials@[0]@[0]@[grade as int] + material_extra(grade as int, level as int)) as u8,
            (materials@[0]@[1]@[grade as int] + material_extra(grade as int, level as int)) as u8,
        ],
{
    if materials.len() == 0 {
        let none: [u8; 2] = [0u8, 0u8];
        proof {
            assert(none@ =~= seq![0u8, 0u8]);
        }
        return none;
    }
    let type_index: usize = 0;
    let rate: u32 = AWAKE_MATERIAL_RATE[grade];
    proof {
        let a = rate as int;
        let b = level as int;
        assert(0 <= a * b <= 0xffff_ffff * 0xffff_ffff_ffff_ffff) by (nonlinear_arith)
            requires
                0 <= a <= 0xffff_ffff,
                0 <= b <= 0xffff_ffff_ffff_ffff,
        ;
    }
    let extra_wide: u128 = rate as u128 * level as u128;
    let extra: u8 = if extra_wide > 255 { 255 } else { extra_wide as u8 };
    let first: u8 = materials[type_index][0][grade] + extra;
    let second: u8 = materials[type_index][1][grade] + extra;
    let r: [u8; 2] = [first, second];
    proof {
        assert(r@ =~= seq![first, second]);
    }
    r
}

} // verus!

verus! {

/// Dropping the last level undoes a successful attempt, for an awakening
/// whose kind is chosen exactly when it has levels.
pub proof fn law_remove_undoes_success(kind: AwakeType, values: Seq<u8>, hits: Seq<bool>)
    requires
        kind_matches_levels(kind, values),
    ensures
        after_remove(after_success(kind, values, hits).0, after_success(kind, values, hits).1) == (kind, values),
{
    assert(values.push(if any_hit(hits) { 1u8 } else { 0u8 }).drop_last() =~= values);
}

/// Successful attempts and removals keep the kind chosen exactly when some
/// level exists, and an allowed attempt never goes past the last level.
pub proof fn law_awakening_shape_kept(a: Awakening, awake_type: AwakeType, hits: Seq<bool>)
    requires
        kind_matches_levels(a.awake_type, a.values@),
    ensures
        kind_matches_levels(after_success(a.awake_type, a.values@, hits).0, after_success(a.awake_type, a.values@, hits).1),
        a.values@.len() > 0 ==> kind_matches_levels(after_remove(a.awake_type, a.values@).0, after_remove(a.awake_type, a.values@).1),
        a.can_awaken(awake_type) ==> after_success(a.awake_type, a.values@, hits).1.len() <= MAX_AWAKE_LEVEL,
{
}


/// A successful attempt adds exactly one level and keeps the others; the
/// new level is worth 1 exactly when at least one of the hit results is a
/// hit, and 0 otherwise. With hits taken from rolls, that is when some roll
/// is below the hit rate.
pub proof fn law_new_level_worth_one_on_any_hit(kind: AwakeType, values: Seq<u8>, hits: Seq<bool>, rolls: Seq<i32>)
    ensures
        after_success(kind, values, hits).1.len() == values.len() + 1,
        after_success(kind, values, hits).1.take(values.len() as int) == values,
        after_success(kind, values, hits).1.last() == 1 <==> exists|k: int| 0 <= k < hits.len() && hits[k],
        after_success(kind, values, hits).1.last() == 0 <==> forall|k: int| 0 <= k < hits.len() ==> !hits[k],
        after_success(kind, values, hits_of(rolls)).1.last() == 1 <==> exists|k: int| 0 <= k < rolls.len() && rolls[k] < 70,
{
    let v = after_success(kind, values, hits).1;
    assert(v.take(values.len() as int) =~= values);
    let h = hits_of(rolls);
    if exists|k: int| 0 <= k < rolls.len() && rolls[k] < 70 {
        let k = choose|k: int| 0 <= k < rolls.len() && rolls[k] < 70;
        assert(h[k]);
    }
    if exists|k: int| 0 <= k < h.len() && h[k] {
        let k = choose|k: int| 0 <= k < h.len() && h[k];
        assert(rolls[k] < 70);
    }
}


/// A successful attempt raises the awakened stat by one exactly when some
/// hit result is a hit, and leaves it as it was otherwise; removing the last
/// level takes that level's worth off again.
pub proof fn law_success_raises_stat_on_hit(kind: AwakeType, values: Seq<u8>, hits: Seq<bool>)
    ensures
        value_sum(after_success(kind, values, hits).1) == value_sum(values) + if exists|k: int|
            0 <= k < hits.len() && hits[k] {
            1int
        } else {
            0int
        },
        values.len() > 0 ==> value_sum(after_remove(kind, values).1) == value_sum(values) - values.last(),
{
    let v = after_success(kind, values, hits).1;
    assert(v.drop_last() =~= values);
}

/// Each further level costs the grade's base price more than the one
/// before, the base price never falls with a higher grade among grades 1
/// to 4, and removing a level costs half the grade's base price.
pub proof fn law_awakening_prices(grade: u8, level: int)
    requires
        level >= 0,
    ensures
        awakening_base_price(grade) * (level + 2) == awakening_base_price(grade) * (level + 1) + awakening_base_price(grade),
        awakening_base_price(grade) >= 1000,
        1 <= grade < 4 ==> awakening_base_price(grade) <= awakening_base_price((grade + 1) as u8),
        downgrade_price(grade) * 2 == awakening_base_price(grade),
{
    assert(awakening_base_price(grade) * (level + 2) == awakening_base_price(grade) * (level + 1) + awakening_base_price(grade)) by (nonlinear_arith);
}

} // verus!
