//! Item instances, item templates, and the inventory and equipment grids.
use vstd::prelude::*;

verus! {

/// Slots in a character's bag.
pub const INVENTORY_SIZE: usize = 46;

/// Slots a character can wear.
pub const EQUIPMENT_SIZE: usize = 14;

/// Slots in the quest bag.
pub const QUEST_INVENTORY_SIZE: usize = 40;

/// An item's awakening: its kind and one value per level.
#[derive(Clone, Debug)]
pub struct AwakeData {
    pub awake_type: u8,
    pub values: Vec<u8>,
}

/// One item a player owns: the fields that the game rules read.
#[derive(Clone, Debug)]
pub struct UserItemData {
    pub unique_id: u64,
    pub item_index: i32,
    pub current_dura: u16,
    pub max_dura: u16,
    pub count: u16,
    pub soul_bound_id: i32,
    pub identified: bool,
    pub cursed: bool,
    pub gem_count: u32,
    pub awake: AwakeData,
    pub refined_value: u8,
    pub refine_added: u8,
    pub refine_success_chance: i32,
    pub wedding_ring: i32,
    pub is_shop_item: bool,
    pub gm_made: bool,
}

impl AwakeData {
    /// A field-for-field copy.
    pub fn duplicate(&self) -> (r: Self)
        ensures
            r.awake_type == self.awake_type,
            r.values@ == self.values@,
    {
        AwakeData { awake_type: self.awake_type, values: self.values.clone() }
    }
}

/// Two items agree in every field, the awakening values compared as lists.
pub open spec fn same_item(a: UserItemData, b: UserItemData) -> bool {
    &&& a.unique_id == b.unique_id
    &&& a.item_index == b.item_index
    &&& a.current_dura == b.current_dura
    &&& a.max_dura == b.max_dura
    &&& a.count == b.count
    &&& a.soul_bound_id == b.soul_bound_id
    &&& a.identified == b.identified
    &&& a.cursed == b.cursed
    &&& a.gem_count == b.gem_count
    &&& a.awake.awake_type == b.awake.awake_type
    &&& a.awake.values@ == b.awake.values@
    &&& a.refined_value == b.refined_value
    &&& a.refine_added == b.refine_added
    &&& a.refine_success_chance == b.refine_success_chance
    &&& a.wedding_ring == b.wedding_ring
    &&& a.is_shop_item == b.is_shop_item
    &&& a.gm_made == b.gm_made
}

impl UserItemData {
    /// A field-for-field copy.
    pub fn duplicate(&self) -> (r: Self)
        ensures
            same_item(r, *self),
    {
        UserItemData {
            unique_id: self.unique_id,
            item_index: self.item_index,
            current_dura: self.current_dura,
            max_dura: self.max_dura,
            count: self.count,
            soul_bound_id: self.soul_bound_id,
            identified: self.identified,
            cursed: self.cursed,
            gem_count: self.gem_count,
            awake: self.awake.duplicate(),
            refined_value: self.refined_value,
            refine_added: self.refine_added,
            refine_success_chance: self.refine_success_chance,
            wedding_ring: self.wedding_ring,
            is_shop_item: self.is_shop_item,
            gm_made: self.gm_made,
        }
    }
}

/// The template of an item kind: the fields that item creation and quest
/// texts read.
#[derive(Clone, Debug)]
pub struct ItemInfoData {
    pub index: i32,
    pub durability: u16,
    pub need_identify: bool,
    pub friendly_name: String,
}

/// A fresh item made from its template: full durability, identified unless
/// the template needs identifying, no awakening, refinement or flags.
pub open spec fn is_fresh_item(r: UserItemData, info: ItemInfoData, unique_id: u64, count: u16) -> bool {
    &&& r.unique_id == unique_id
    &&& r.item_index == info.index
    &&& r.current_dura == info.durability
    &&& r.max_dura == info.durability
    &&& r.count == count
    &&& r.soul_bound_id == 0
    &&& r.identified == !info.need_identify
    &&& !r.cursed
    &&& r.gem_count == 0
    &&& r.awake.awake_type == 0
    &&& r.awake.values@.len() == 0
    &&& r.refined_value == 0
    &&& r.refine_added == 0
    &&& r.refine_success_chance == 0
    &&& r.wedding_ring == 0
    &&& !r.is_shop_item
    &&& !r.gm_made
}

/// Makes a fresh item of a kind.
pub fn create_fresh_user_item(info: &ItemInfoData, unique_id: u64, count: u16) -> (r: UserItemData)
    ensures
        is_fresh_item(r, *info, unique_id, count),
{
    UserItemData {
        unique_id,
        item_index: info.index,
        current_dura: info.durability,
        max_dura: info.durability,
        count,
        soul_bound_id: 0,
        identified: !info.need_identify,
        cursed: false,
        gem_count: 0,
        awake: AwakeData { awake_type: 0, values: Vec::new() },
        refined_value: 0,
        refine_added: 0,
        refine_success_chance: 0,
        wedding_ring: 0,
        is_shop_item: false,
        gm_made: false,
    }
}

/// `n` empty slots.
fn empty_slots(n: usize) -> (r: Vec<Option<UserItemData>>)
    ensures
        r@.len() == n,
        forall|i: int| 0 <= i < n ==> r@[i] is None,
{
    let mut v: Vec<Option<UserItemData>> = Vec::new();
    let mut i: usize = 0;
    while i < n
        invariant
            0 <= i <= n,
            v@.len() == i,
            forall|j: int| 0 <= j < i ==> v@[j] is None,
        decreases n - i,
    {
        v.push(None);
        i = i + 1;
    }
    v
}

/// The item in a slot, `None` for an empty slot or one past the end.
pub open spec fn slot_item(s: Seq<Option<UserItemData>>, index: int) -> Option<UserItemData> {
    if 0 <= index < s.len() {
        s[index]
    } else {
        None
    }
}

/// A character's bag.
#[derive(Clone, Debug)]
pub struct Inventory {
    pub slots: Vec<Option<UserItemData>>,
}

impl Inventory {
    /// An empty bag of the standard size.
    pub fn new_default() -> (r: Self)
        ensures
            r.slots@.len() == INVENTORY_SIZE,
            forall|i: int| 0 <= i < INVENTORY_SIZE ==> r.slots@[i] is None,
    {
        Inventory { slots: empty_slots(INVENTORY_SIZE) }
    }

    /// Number of slots.
    pub fn len(&self) -> (r: usize)
        ensures
            r == self.slots@.len(),
    {
        self.slots.len()
    }

    /// The item in a slot.
    pub fn get(&self, index: usize) -> (r: Option<&UserItemData>)
        ensures
            match r {
                Some(it) => slot_item(self.slots@, index as int) == Some(*it),
                None => slot_item(self.slots@, index as int) is None,
            },
    {
        if index < self.slots.len() {
            match &self.slots[index] {
                Some(it) => Some(it),
                None => None,
            }
        } else {
            None
        }
    }

    /// Puts an item (or nothing) in a slot; slots past the end are ignored.
    pub fn set(&mut self, index: usize, item: Option<UserItemData>)
        ensures
            final(self).slots@ == if index < old(self).slots@.len() {
                old(self).slots@.update(index as int, item)
            } else {
                old(self).slots@
            },
    {
        if index < self.slots.len() {
            self.slots[index] = item;
        }
    }
}

/// What a character wears.
#[derive(Clone, Debug)]
pub struct Equipment {
    pub slots: Vec<Option<UserItemData>>,
}

impl Equipment {
    /// Nothing worn, standard number of slots.
    pub fn new_default() -> (r: Self)
        ensures
            r.slots@.len() == EQUIPMENT_SIZE,
            forall|i: int| 0 <= i < EQUIPMENT_SIZE ==> r.slots@[i] is None,
    {
        Equipment { slots: empty_slots(EQUIPMENT_SIZE) }
    }

    /// Number of slots.
    pub fn len(&self) -> (r: usize)
        ensures
            r == self.slots@.len(),
    {
        self.slots.len()
    }

    /// The item in a slot.
    pub fn get(&self, index: usize) -> (r: Option<&UserItemData>)
        ensures
            match r {
                Some(it) => slot_item(self.slots@, index as int) == Some(*it),
                None => slot_item(self.slots@, index as int) is None,
            },
    {
        if index < self.slots.len() {
            match &self.slots[index] {
                Some(it) => Some(it),
                None => None,
            }
        } else {
            None
        }
    }

    /// Puts an item (or nothing) in a slot; slots past the end are ignored.
    pub fn set(&mut self, index: usize, item: Option<UserItemData>)
        ensures
            final(self).slots@ == if index < old(self).slots@.len() {
                old(self).slots@.update(index as int, item)
            } else {
                old(self).slots@
            },
    {
        if index < self.slots.len() {
            self.slots[index] = item;
        }
    }
}

/// A slot reads back what was last put in it, and putting an item in one
/// slot leaves every other slot as it was.
pub proof fn law_set_then_get(s: Seq<Option<UserItemData>>, index: int, item: Option<UserItemData>, other: int)
    requires
        0 <= index < s.len(),
        other != index,
    ensures
        slot_item(s.update(index, item), index) == item,
        slot_item(s.update(index, item), other) == slot_item(s, other),
{
}

} // verus!
