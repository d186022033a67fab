//! Guild records and the registry that hands out guild ids.
use std::collections::HashMap;
use vstd::prelude::*;

use crate::maps::{lists_values, map_get_mut, values_of};
use crate::world::Job;

verus! {

broadcast use vstd::std_specs::hash::group_hash_axioms;

#[derive(Clone, Copy, Debug, PartialEq, Eq, Hash, Structural)]
pub struct GuildId(pub i32);

#[derive(Clone, Debug)]
pub struct GuildMember {
    pub id: i32,
    pub name: String,
    pub level: u16,
    pub class: Job,
    pub last_login_ticks: i64,
    pub online: bool,
}

#[derive(Clone, Debug)]
pub struct GuildRank {
    pub index: u8,
    pub name: String,
    pub options: u8,
    pub members: Vec<GuildMember>,
}

#[derive(Clone, Debug)]
pub struct GuildBuff {
    pub id: i32,
    pub active: bool,
    pub active_time_remaining: i32,
}

#[derive(Clone, Debug)]
pub struct GuildStorageItem {
    pub item_id: i64,
}

#[derive(Clone, Debug)]
pub struct GuildInfo {
    pub id: GuildId,
    pub name: String,
    pub level: u8,
    pub spare_points: u8,
    pub experience: i64,
    pub gold: u32,
    pub votes: i32,
    pub member_count: i32,
    pub max_experience: i64,
    pub member_cap: i32,
    pub flag_image: u16,
    pub flag_colour_argb: i32,
    pub ranks: Vec<GuildRank>,
    pub stored_items: Vec<GuildStorageItem>,
    pub buff_list: Vec<GuildBuff>,
    pub notice: Vec<String>,
    pub gt_rent_ticks: i64,
    pub gt_begin_ticks: i64,
    pub gt_index: i32,
    pub gt_key: i32,
    pub gt_price: i32,
}

impl GuildInfo {
    /// The guild holds a guild territory: its rent runs past `now_ticks`.
    pub fn has_gt(&self, now_ticks: i64) -> (r: bool)
        ensures
            r == (self.gt_rent_ticks > now_ticks),
    {
        self.gt_rent_ticks > now_ticks
    }
}

/// The record of a guild created with an id and a name: level 0, no gold,
/// members, ranks, items, buffs or notice, flag 1000 in colour 0x00FFFFFF,
/// and no territory (index -1).
pub open spec fn is_fresh_guild(g: GuildInfo, id: i32, name: String) -> bool {
    &&& g.id == GuildId(id)
    &&& g.name == name
    &&& g.level == 0
    &&& g.spare_points == 0
    &&& g.experience == 0
    &&& g.gold == 0
    &&& g.votes == 0
    &&& g.member_count == 0
    &&& g.max_experience == 0
    &&& g.member_cap == 0
    &&& g.flag_image == 1000
    &&& g.flag_colour_argb == 0x00ff_ffff
    &&& g.ranks@.len() == 0
    &&& g.stored_items@.len() == 0
    &&& g.buff_list@.len() == 0
    &&& g.notice@.len() == 0
    &&& g.gt_rent_ticks == 0
    &&& g.gt_begin_ticks == 0
    &&& g.gt_index == -1
    &&& g.gt_key == 0
    &&& g.gt_price == 0
}

/// The registry built from a list: later guilds with the same id replace earlier ones.
pub open spec fn guild_map(s: Seq<GuildInfo>) -> Map<i32, GuildInfo>
    decreases s.len(),
{
    if s.len() == 0 {
        Map::empty()
    } else {
        guild_map(s.drop_last()).insert(s.last().id.0, s.last())
    }
}

/// The largest id in a list, and 0 when every id is smaller.
pub open spec fn max_guild_id(s: Seq<GuildInfo>) -> i32
    decreases s.len(),
{
    if s.len() == 0 {
        0
    } else {
        let m = max_guild_id(s.drop_last());
        if s.last().id.0 > m {
            s.last().id.0
        } else {
            m
        }
    }
}

/// All guilds, keyed by id, and the last id handed out.
#[derive(Clone, Debug)]
pub struct GuildManager {
    next_id: i32,
    guilds: HashMap<i32, GuildInfo>,
}

impl GuildManager {
    pub closed spec fn view(&self) -> Map<i32, GuildInfo> {
        self.guilds@
    }

    pub closed spec fn last_id(&self) -> i32 {
        self.next_id
    }

    /// An empty registry whose first guild gets id 1.
    pub fn new() -> (r: Self)
        ensures
            r@ == Map::<i32, GuildInfo>::empty(),
            r.last_id() == 0,
    {
        GuildManager { next_id: 0, guilds: HashMap::new() }
    }

    /// A registry holding loaded guilds; new ids continue after the largest one.
    pub fn from_guilds(guilds: Vec<GuildInfo>) -> (r: Self)
        ensures
            r@ == guild_map(guilds@),
            r.last_id() == max_guild_id(guilds@),
    {
        let mut map: HashMap<i32, GuildInfo> = HashMap::new();
        let mut max_id: i32 = 0;
        let ghost all = guilds@;
        for g in it: guilds.into_iter()
            invariant
                it.seq() == all,
                map@ == guild_map(all.take(it.index() as int)),
                max_id == max_guild_id(all.take(it.index() as int)),
        {
            proof {
                let t = all.take(it.index() as int + 1);
                assert(t.drop_last() == all.take(it.index() as int));
                assert(t.last() == g);
            }
            let id = g.id.0;
            if id > max_id {
                max_id = id;
            }
            map.insert(id, g);
        }
        proof {
            assert(all.take(all.len() as int) == all);
        }
        GuildManager { next_id: max_id, guilds: map }
    }

    /// The last id handed out (or the largest loaded id).
    pub fn next_id_hint(&self) -> (r: i32)
        ensures
            r == self.last_id(),
    {
        self.next_id
    }

    /// Every guild, once each.
    pub fn guilds(&self) -> (r: Vec<&GuildInfo>)
        ensures
            exists|ks: Seq<i32>| #[trigger] lists_values(self@, ks, r@),
    {
        let r = values_of(&self.guilds);
        proof {
            let ks = choose|ks: Seq<i32>| #[trigger] lists_values(self.guilds@, ks, r@);
            assert(lists_values(self@, ks, r@));
        }
        r
    }

    /// Creates a guild under the next id and hands back its record.
    pub fn create_guild(&mut self, name: String) -> (r: &mut GuildInfo)
        requires
            old(self).last_id() < i32::MAX,
        ensures
            final(self).last_id() == old(self).last_id() + 1,
            is_fresh_guild(*r, (old(self).last_id() + 1) as i32, name),
            final(self)@ == old(self)@.insert((old(self).last_id() + 1) as i32, *final(r)),
    {
        self.next_id = self.next_id + 1;
        let id = self.next_id;
        let info = GuildInfo {
            id: GuildId(id),
            name,
            level: 0,
            spare_points: 0,
            experience: 0,
            gold: 0,
            votes: 0,
            member_count: 0,
            max_experience: 0,
            member_cap: 0,
            flag_image: 1000,
            flag_colour_argb: 0x00ff_ffff,
            ranks: Vec::new(),
            stored_items: Vec::new(),
            buff_list: Vec::new(),
            notice: Vec::new(),
            gt_rent_ticks: 0,
            gt_begin_ticks: 0,
            gt_index: -1,
            gt_key: 0,
            gt_price: 0,
        };
        self.guilds.insert(id, info);
        let r = map_get_mut(&mut self.guilds, &id);
        r.unwrap()
    }

    /// The guild with an id.
    pub fn get_guild(&self, id: GuildId) -> (r: Option<&GuildInfo>)
        ensures
            match r {
                Some(g) => self@.contains_key(id.0) && *g == self@[id.0],
                None => !self@.contains_key(id.0),
            },
    {
        self.guilds.get(&id.0)
    }

    /// Mutable access to the guild with an id.
    pub fn get_guild_mut(&mut self, id: GuildId) -> (r: Option<&mut GuildInfo>)
        ensures
            final(self).last_id() == old(self).last_id(),
            match r {
                Some(g) => {
                    &&& old(self)@.contains_key(id.0)
                    &&& *g == old(self)@[id.0]
                    &&& final(self)@ == old(self)@.insert(id.0, *final(g))
                },
                None => !old(self)@.contains_key(id.0) && final(self)@ == old(self)@,
            },
    {
        map_get_mut(&mut self.guilds, &id.0)
    }

    /// Removes a guild and hands it back; ids are not reused.
    pub fn remove_guild(&mut self, id: GuildId) -> (r: Option<GuildInfo>)
        ensures
            final(self).last_id() == old(self).last_id(),
            final(self)@ == old(self)@.remove(id.0),
            match r {
                Some(g) => old(self)@.contains_key(id.0) && g == old(self)@[id.0],
                None => !old(self)@.contains_key(id.0),
            },
    {
        self.guilds.remove(&id.0)
    }
}

/// Every id in a registry is at most the last id handed out.
pub open spec fn ids_below_last(m: Map<i32, GuildInfo>, last: i32) -> bool {
    forall|k: i32| m.contains_key(k) ==> k <= last
}

proof fn lemma_guild_map_ids(s: Seq<GuildInfo>)
    ensures
        ids_below_last(guild_map(s), max_guild_id(s)),
    decreases s.len(),
{
    if s.len() > 0 {
        lemma_guild_map_ids(s.drop_last());
    }
}

/// A registry loaded from a list of guilds, and every registry after a
/// creation, holds only ids up to the last id handed out; so the next
/// created guild never replaces an existing one.
pub proof fn law_created_ids_are_fresh(loaded: Seq<GuildInfo>, m: Map<i32, GuildInfo>, last: i32, name: String, g: GuildInfo)
    requires
        ids_below_last(m, last),
        last < i32::MAX,
    ensures
        ids_below_last(guild_map(loaded), max_guild_id(loaded)),
        !m.contains_key((last + 1) as i32),
        ids_below_last(m.insert((last + 1) as i32, g), (last + 1) as i32),
{
    lemma_guild_map_ids(loaded);
}

} // verus!
