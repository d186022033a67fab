//! Castle conquest definitions and their registry.
use std::collections::HashMap;
use vstd::prelude::*;

use crate::maps::{lists_values, map_get_mut, values_of};

verus! {

broadcast use vstd::std_specs::hash::group_hash_axioms;

#[derive(Clone, Copy, Debug, PartialEq, Eq, Hash, Structural)]
pub struct ConquestId(pub i32);

#[derive(Clone, Debug)]
pub struct ConquestArcherInfo {
    pub index: i32,
    pub location_x: i32,
    pub location_y: i32,
    pub mob_index: i32,
    pub name: String,
    pub repair_cost: u32,
}

#[derive(Clone, Debug)]
pub struct ConquestGateInfo {
    pub index: i32,
    pub location_x: i32,
    pub location_y: i32,
    pub mob_index: i32,
    pub name: String,
    pub repair_cost: i32,
}

#[derive(Clone, Debug)]
pub struct ConquestWallInfo {
    pub index: i32,
    pub location_x: i32,
    pub location_y: i32,
    pub mob_index: i32,
    pub name: String,
    pub repair_cost: i32,
}

#[derive(Clone, Debug)]
pub struct ConquestSiegeInfo {
    pub index: i32,
    pub location_x: i32,
    pub location_y: i32,
    pub mob_index: i32,
    pub name: String,
    pub repair_cost: i32,
}

#[derive(Clone, Debug)]
pub struct ConquestFlagInfo {
    pub index: i32,
    pub location_x: i32,
    pub location_y: i32,
    pub name: String,
    pub file_name: String,
}

#[derive(Clone, Debug)]
pub struct ConquestInfo {
    pub id: ConquestId,
    pub full_map: bool,
    pub location_x: i32,
    pub location_y: i32,
    pub size: u16,
    pub name: String,
    pub map_index: i32,
    pub palace_index: i32,
    pub extra_maps: Vec<i32>,
    pub guards: Vec<ConquestArcherInfo>,
    pub gates: Vec<ConquestGateInfo>,
    pub walls: Vec<ConquestWallInfo>,
    pub sieges: Vec<ConquestSiegeInfo>,
    pub flags: Vec<ConquestFlagInfo>,
    pub guard_index: i32,
    pub gate_index: i32,
    pub wall_index: i32,
    pub siege_index: i32,
    pub flag_index: i32,
    pub start_hour: u8,
    pub war_length: i32,
    pub conquest_type: u8,
    pub game: u8,
    pub monday: bool,
    pub tuesday: bool,
    pub wednesday: bool,
    pub thursday: bool,
    pub friday: bool,
    pub saturday: bool,
    pub sunday: bool,
    pub king_location_x: i32,
    pub king_location_y: i32,
    pub king_size: u16,
    pub control_points: Vec<ConquestFlagInfo>,
    pub control_point_index: i32,
}

/// The loaded conquests, keyed by id.
pub struct ConquestManager {
    conquests: HashMap<i32, ConquestInfo>,
}

impl ConquestManager {
    pub closed spec fn view(&self) -> Map<i32, ConquestInfo> {
        self.conquests@
    }

    /// An empty registry.
    pub fn new() -> (r: Self)
        ensures
            r@ == Map::<i32, ConquestInfo>::empty(),
    {
        ConquestManager { conquests: HashMap::new() }
    }

    /// Every registered conquest, once each.
    pub fn conquests(&self) -> (r: Vec<&ConquestInfo>)
        ensures
            exists|ks: Seq<i32>| #[trigger] lists_values(self@, ks, r@),
    {
        let r = values_of(&self.conquests);
        proof {
            let ks = choose|ks: Seq<i32>| #[trigger] lists_values(self.conquests@, ks, r@);
            assert(lists_values(self@, ks, r@));
        }
        r
    }

    /// The conquest with an id.
    pub fn get(&self, id: ConquestId) -> (r: Option<&ConquestInfo>)
        ensures
            match r {
                Some(c) => self@.contains_key(id.0) && *c == self@[id.0],
                None => !self@.contains_key(id.0),
            },
    {
        self.conquests.get(&id.0)
    }

    /// Mutable access to the conquest with an id.
    pub fn get_mut(&mut self, id: ConquestId) -> (r: Option<&mut ConquestInfo>)
        ensures
            match r {
                Some(c) => {
                    &&& old(self)@.contains_key(id.0)
                    &&& *c == old(self)@[id.0]
                    &&& final(self)@ == old(self)@.insert(id.0, *final(c))
                },
                None => !old(self)@.contains_key(id.0) && final(self)@ == old(self)@,
            },
    {
        map_get_mut(&mut self.conquests, &id.0)
    }

    /// Registers a conquest under its own id, replacing any earlier one.
    pub fn insert(&mut self, info: ConquestInfo)
        ensures
            final(self)@ == old(self)@.insert(info.id.0, info),
    {
        self.conquests.insert(info.id.0, info);
    }

    /// Unregisters a conquest and hands it back.
    pub fn remove(&mut self, id: ConquestId) -> (r: Option<ConquestInfo>)
        ensures
            final(self)@ == old(self)@.remove(id.0),
            match r {
                Some(c) => old(self)@.contains_key(id.0) && c == old(self)@[id.0],
                None => !old(self)@.contains_key(id.0),
            },
    {
        self.conquests.remove(&id.0)
    }
}

} // verus!
