//! Guild buffs, rented guild territories and guild-war return points.
//! Times are Unix seconds supplied by the caller.
use std::collections::HashMap;
use vstd::prelude::*;

use crate::maps::{derefs, enumerates, keys_of, lemma_derefs_push, lemma_selected_step, selected_values};
use crate::text::{is_err_with, text};

verus! {

broadcast use vstd::std_specs::hash::group_hash_axioms;

/// Seconds in an hour.
pub const SECS_PER_HOUR: u64 = 3600;

/// Seconds in a day.
pub const TERRITORY_SECS_PER_DAY: u64 = 86400;

/// Most buffs a guild may have active at once.
pub const MAX_ACTIVE_BUFFS: usize = 3;

/// Most territories a guild may hold.
pub const MAX_TERRITORIES: usize = 5;

/// Hours a purchased buff lasts.
pub const BUFF_HOURS: u8 = 24;

/// What a guild buff improves.
#[derive(Clone, Copy, Debug, PartialEq, Eq, Structural)]
pub enum GuildBuffType {
    Attack,
    Defence,
    Experience,
    DropRate,
    HP,
    MP,
}

/// The buff kind a wire number names; unknown numbers name Attack.
pub open spec fn buff_type_of(value: u8) -> GuildBuffType {
    if value == 1 {
        GuildBuffType::Defence
    } else if value == 2 {
        GuildBuffType::Experience
    } else if value == 3 {
        GuildBuffType::DropRate
    } else if value == 4 {
        GuildBuffType::HP
    } else if value == 5 {
        GuildBuffType::MP
    } else {
        GuildBuffType::Attack
    }
}

impl From<u8> for GuildBuffType {
    fn from(value: u8) -> (r: Self) {
        match value {
            0 => GuildBuffType::Attack,
            1 => GuildBuffType::Defence,
            2 => GuildBuffType::Experience,
            3 => GuildBuffType::DropRate,
            4 => GuildBuffType::HP,
            5 => GuildBuffType::MP,
            _ => GuildBuffType::Attack,
        }
    }
}

impl vstd::std_specs::convert::FromSpecImpl<u8> for GuildBuffType {
    open spec fn obeys_from_spec() -> bool {
        true
    }

    open spec fn from_spec(v: u8) -> GuildBuffType {
        buff_type_of(v)
    }
}

/// A buff a guild can buy; active ones run from `start_time` for `duration` seconds.
#[derive(Clone, Copy, Debug)]
pub struct GuildBuff {
    pub buff_id: u32,
    pub buff_type: GuildBuffType,
    pub level: u8,
    pub active: bool,
    pub start_time: u64,
    pub duration: u64,
    pub cost: u32,
    pub required_guild_level: u8,
}

/// An active buff has run out at `now`.
pub open spec fn buff_expired(b: GuildBuff, now: u64) -> bool {
    b.active && now >= b.start_time + b.duration
}

/// The end of an active buff fits in a timestamp.
pub open spec fn buff_end_fits(b: GuildBuff) -> bool {
    b.active ==> b.start_time + b.duration <= u64::MAX
}

impl GuildBuff {
    /// An inactive buff.
    pub fn new(buff_id: u32, buff_type: GuildBuffType, level: u8, cost: u32, required_guild_level: u8) -> (r: Self)
        ensures
            r == (GuildBuff {
                buff_id,
                buff_type,
                level,
                active: false,
                start_time: 0,
                duration: 0,
                cost,
                required_guild_level,
            }),
    {
        GuildBuff { buff_id, buff_type, level, active: false, start_time: 0, duration: 0, cost, required_guild_level }
    }

    /// Starts the buff at `now` for a number of hours.
    pub fn activate(&mut self, duration_hours: u8, now: u64)
        ensures
            *final(self) == (GuildBuff {
                active: true,
                start_time: now,
                duration: (duration_hours * SECS_PER_HOUR) as u64,
                ..*old(self)
            }),
    {
        self.active = true;
        self.start_time = now;
        self.duration = duration_hours as u64 * SECS_PER_HOUR;
    }

    /// Stops the buff.
    pub fn deactivate(&mut self)
        ensures
            *final(self) == (GuildBuff { active: false, start_time: 0, duration: 0, ..*old(self) }),
    {
        self.active = false;
        self.start_time = 0;
        self.duration = 0;
    }

    /// The buff is active and has run out at `now`.
    pub fn is_expired(&self, now: u64) -> (r: bool)
        requires
            buff_end_fits(*self),
        ensures
            r == buff_expired(*self, now),
    {
        if !self.active {
            return false;
        }
        now >= self.start_time + self.duration
    }

    /// Seconds left on an active buff at `now` (0 once it has run out, and
    /// for an inactive buff).
    pub fn get_remaining_time(&self, now: u64) -> (r: u64)
        requires
            buff_end_fits(*self),
        ensures
            r == if !self.active || now >= self.start_time + self.duration {
                0
            } else {
                self.start_time + self.duration - now
            },
    {
        if !self.active {
            return 0;
        }
        let end_time = self.start_time + self.duration;
        if now >= end_time {
            0
        } else {
            end_time - now
        }
    }
}

/// What holding a territory gives a guild.
#[derive(Clone, Copy, Debug, PartialEq, Eq, Structural)]
pub enum TerritoryBenefit {
    ExperienceBonus(u8),
    DropRateBonus(u8),
    TeleportAccess,
    SpecialNPC,
    WarehouseExpansion,
}

/// A territory a guild rents; the rent runs until `rent_time`.
#[derive(Clone, Debug)]
pub struct GuildTerritory {
    pub territory_id: i32,
    pub guild_id: i32,
    pub name: String,
    pub rent_time: u64,
    pub purchase_time: u64,
    pub daily_cost: u32,
    pub benefits: Vec<TerritoryBenefit>,
}

/// The benefits every new territory comes with.
pub open spec fn default_benefits() -> Seq<TerritoryBenefit> {
    seq![TerritoryBenefit::ExperienceBonus(5), TerritoryBenefit::DropRateBonus(3), TerritoryBenefit::TeleportAccess]
}

/// A territory bought at `now` with one day of rent.
pub open spec fn is_new_territory(t: GuildTerritory, territory_id: i32, guild_id: i32, name: String, daily_cost: u32, now: u64) -> bool {
    &&& t.territory_id == territory_id
    &&& t.guild_id == guild_id
    &&& t.name == name
    &&& t.rent_time == now + TERRITORY_SECS_PER_DAY
    &&& t.purchase_time == now
    &&& t.daily_cost == daily_cost
    &&& t.benefits@ == default_benefits()
}

impl GuildTerritory {
    /// A territory bought at `now`, rented for one day.
    pub fn new(territory_id: i32, guild_id: i32, name: String, daily_cost: u32, now: u64) -> (r: Self)
        requires
            now <= u64::MAX - TERRITORY_SECS_PER_DAY,
        ensures
            is_new_territory(r, territory_id, guild_id, name, daily_cost, now),
    {
        let mut benefits: Vec<TerritoryBenefit> = Vec::new();
        benefits.push(TerritoryBenefit::ExperienceBonus(5));
        benefits.push(TerritoryBenefit::DropRateBonus(3));
        benefits.push(TerritoryBenefit::TeleportAccess);
        assert(benefits@ =~= default_benefits());
        GuildTerritory {
            territory_id,
            guild_id,
            name,
            rent_time: now + TERRITORY_SECS_PER_DAY,
            purchase_time: now,
            daily_cost,
            benefits,
        }
    }

    /// The rent still runs at `now`.
    pub fn is_rent_active(&self, now: u64) -> (r: bool)
        ensures
            r == (now < self.rent_time),
    {
        now < self.rent_time
    }

    /// Pays rent for more days.
    pub fn extend_rent(&mut self, days: u32)
        requires
            old(self).rent_time + days * TERRITORY_SECS_PER_DAY <= u64::MAX,
        ensures
            final(self).rent_time == old(self).rent_time + days * TERRITORY_SECS_PER_DAY,
            final(self).territory_id == old(self).territory_id,
            final(self).guild_id == old(self).guild_id,
            final(self).name == old(self).name,
            final(self).purchase_time == old(self).purchase_time,
            final(self).daily_cost == old(self).daily_cost,
            final(self).benefits == old(self).benefits,
    {
        self.rent_time = self.rent_time + days as u64 * TERRITORY_SECS_PER_DAY;
    }

    /// The rent per day.
    pub fn get_daily_cost(&self) -> (r: u32)
        ensures
            r == self.daily_cost,
    {
        self.daily_cost
    }
}

/// Where a guild's members return to during a guild war.
#[derive(Clone, Copy, Debug)]
pub struct WarReturnPoint {
    pub guild_id: i32,
    pub map_id: u32,
    pub x: u16,
    pub y: u16,
    pub set_time: u64,
}

/// The buffs a guild can buy: Attack and Defence (100000 gold, guild level
/// 1), Experience (150000, level 2), DropRate (200000, level 3), HP and MP
/// (120000, level 2), ids 1 to 6 in that order, all at buff level 1.
pub open spec fn default_buffs() -> Seq<GuildBuff> {
    seq![
        GuildBuff { buff_id: 1, buff_type: GuildBuffType::Attack, level: 1, active: false, start_time: 0, duration: 0, cost: 100000, required_guild_level: 1 },
        GuildBuff { buff_id: 2, buff_type: GuildBuffType::Defence, level: 1, active: false, start_time: 0, duration: 0, cost: 100000, required_guild_level: 1 },
        GuildBuff { buff_id: 3, buff_type: GuildBuffType::Experience, level: 1, active: false, start_time: 0, duration: 0, cost: 150000, required_guild_level: 2 },
        GuildBuff { buff_id: 4, buff_type: GuildBuffType::DropRate, level: 1, active: false, start_time: 0, duration: 0, cost: 200000, required_guild_level: 3 },
        GuildBuff { buff_id: 5, buff_type: GuildBuffType::HP, level: 1, active: false, start_time: 0, duration: 0, cost: 120000, required_guild_level: 2 },
        GuildBuff { buff_id: 6, buff_type: GuildBuffType::MP, level: 1, active: false, start_time: 0, duration: 0, cost: 120000, required_guild_level: 2 },
    ]
}

/// Index of the first buff with an id, or the length when there is none.
pub open spec fn buff_pos(s: Seq<GuildBuff>, id: u32) -> int
    decreases s.len(),
{
    if s.len() == 0 {
        0
    } else if s[0].buff_id == id {
        0
    } else {
        1 + buff_pos(s.drop_first(), id)
    }
}

proof fn lemma_buff_pos_char(s: Seq<GuildBuff>, id: u32, p: int)
    requires
        0 <= p <= s.len(),
        forall|j: int| 0 <= j < p ==> (#[trigger] s[j]).buff_id != id,
        p < s.len() ==> s[p].buff_id == id,
    ensures
        buff_pos(s, id) == p,
    decreases s.len(),
{
    if s.len() > 0 && p > 0 {
        let t = s.drop_first();
        assert(s[0].buff_id != id);
        assert forall|j: int| 0 <= j < p - 1 implies (#[trigger] t[j]).buff_id != id by {
            assert(t[j] == s[j + 1]);
        }
        lemma_buff_pos_char(t, id, p - 1);
    }
}

/// Index of the first offered buff with an id, or the length.
fn find_buff(offers: &Vec<GuildBuff>, buff_id: u32) -> (r: usize)
    ensures
        r == buff_pos(offers@, buff_id),
        r <= offers@.len(),
{
    let mut i: usize = 0;
    while i < offers.len()
        invariant
            0 <= i <= offers@.len(),
            forall|j: int| 0 <= j < i ==> (#[trigger] offers@[j]).buff_id != buff_id,
        decreases offers@.len() - i,
    {
        if offers[i].buff_id == buff_id {
            proof {
                lemma_buff_pos_char(offers@, buff_id, i as int);
            }
            return i;
        }
        i = i + 1;
    }
    proof {
        lemma_buff_pos_char(offers@, buff_id, i as int);
    }
    i
}

/// The buffs active in a map all have ends that fit in a timestamp.
pub open spec fn active_ends_fit(m: Map<u32, GuildBuff>) -> bool {
    forall|k: u32| #[trigger] m.contains_key(k) ==> buff_end_fits(m[k])
}

/// The active buffs without the ones that have run out at `now`.
pub open spec fn unexpired_buffs(m: Map<u32, GuildBuff>, now: u64) -> Map<u32, GuildBuff> {
    Map::new(|k: u32| m.contains_key(k) && !buff_expired(m[k], now), |k: u32| m[k])
}

/// A guild's buffs, territories and war return points.
#[derive(Clone, Debug)]
pub struct GuildFeatures {
    pub available_buffs: Vec<GuildBuff>,
    pub active_buffs: HashMap<u32, GuildBuff>,
    pub territories: HashMap<i32, GuildTerritory>,
    pub war_return_points: HashMap<i32, WarReturnPoint>,
}

impl GuildFeatures {
    /// The default buffs on offer, nothing active, owned or set.
    pub fn new() -> (r: Self)
        ensures
            r.available_buffs@ == default_buffs(),
            r.active_buffs@ == Map::<u32, GuildBuff>::empty(),
            r.territories@ == Map::<i32, GuildTerritory>::empty(),
            r.war_return_points@ == Map::<i32, WarReturnPoint>::empty(),
    {
        let mut features = GuildFeatures {
            available_buffs: Vec::new(),
            active_buffs: HashMap::new(),
            territories: HashMap::new(),
            war_return_points: HashMap::new(),
        };
        features.initialize_default_buffs();
        features
    }

    fn initialize_default_buffs(&mut self)
        ensures
            final(self).available_buffs@ == old(self).available_buffs@ + default_buffs(),
            final(self).active_buffs == old(self).active_buffs,
            final(self).territories == old(self).territories,
            final(self).war_return_points == old(self).war_return_points,
    {
        self.available_buffs.push(GuildBuff::new(1, GuildBuffType::Attack, 1, 100000, 1));
        self.available_buffs.push(GuildBuff::new(2, GuildBuffType::Defence, 1, 100000, 1));
        self.available_buffs.push(GuildBuff::new(3, GuildBuffType::Experience, 1, 150000, 2));
        self.available_buffs.push(GuildBuff::new(4, GuildBuffType::DropRate, 1, 200000, 3));
        self.available_buffs.push(GuildBuff::new(5, GuildBuffType::HP, 1, 120000, 2));
        self.available_buffs.push(GuildBuff::new(6, GuildBuffType::MP, 1, 120000, 2));
        assert(self.available_buffs@ =~= old(self).available_buffs@ + default_buffs());
    }

    /// Buys an offered buff at `now` for 24 hours. Refused when no offered
    /// buff has the id, the guild's level is below the buff's, the buff is
    /// already active, three buffs are active, or the guild's gold is short.
    pub fn update_buff(&mut self, buff_id: u32, guild_level: u8, guild_gold: u64, now: u64) -> (r: Result<(), String>)
        ensures
            final(self).available_buffs == old(self).available_buffs,
            final(self).territories == old(self).territories,
            final(self).war_return_points == old(self).war_return_points,
            ({
                let offers = old(self).available_buffs@;
                let p = buff_pos(offers, buff_id);
                let act = old(self).active_buffs@;
                &&& p == offers.len() ==> is_err_with(r, "Buff not found"@)
                &&& p < offers.len() ==> {
                    let b = offers[p];
                    &&& guild_level < b.required_guild_level ==> is_err_with(r, "Guild level too low"@)
                    &&& guild_level >= b.required_guild_level && act.contains_key(buff_id) ==> is_err_with(r, "Buff already active"@)
                    &&& guild_level >= b.required_guild_level && !act.contains_key(buff_id) && act.len() >= MAX_ACTIVE_BUFFS
                        ==> is_err_with(r, "Maximum active buffs reached"@)
                    &&& guild_level >= b.required_guild_level && !act.contains_key(buff_id) && act.len() < MAX_ACTIVE_BUFFS
                        && guild_gold < b.cost ==> is_err_with(r, "Insufficient guild gold"@)
                    &&& (r is Ok <==> (guild_level >= b.required_guild_level && !act.contains_key(buff_id)
                        && act.len() < MAX_ACTIVE_BUFFS && guild_gold >= b.cost))
                    &&& r is Ok ==> final(self).active_buffs@ == act.insert(
                        buff_id,
                        GuildBuff { active: true, start_time: now, duration: (BUFF_HOURS * SECS_PER_HOUR) as u64, ..b },
                    )
                }
                &&& r is Err ==> final(self).active_buffs@ == act
            }),
    {
        let i = find_buff(&self.available_buffs, buff_id);
        if i >= self.available_buffs.len() {
            return Err(text("Buff not found"));
        }
        let buff = self.available_buffs[i];
        if guild_level < buff.required_guild_level {
            return Err(text("Guild level too low"));
        }
        if self.active_buffs.contains_key(&buff_id) {
            return Err(text("Buff already active"));
        }
        if self.active_buffs.len() >= MAX_ACTIVE_BUFFS {
            return Err(text("Maximum active buffs reached"));
        }
        if guild_gold < buff.cost as u64 {
            return Err(text("Insufficient guild gold"));
        }
        let mut new_buff = buff;
        new_buff.activate(BUFF_HOURS, now);
        self.active_buffs.insert(buff_id, new_buff);
        Ok(())
    }

    /// The active buffs that have not run out at `now`, one per id.
    pub fn get_active_buffs(&self, now: u64) -> (r: Vec<&GuildBuff>)
        requires
            active_ends_fit(self.active_buffs@),
        ensures
            exists|ks: Seq<u32>| #[trigger] enumerates(self.active_buffs@, ks) && derefs(r@) == selected_values(
                self.active_buffs@,
                ks,
                |k: u32| self.active_buffs@[k].active && !buff_expired(self.active_buffs@[k], now),
            ),
    {
        let ghost m = self.active_buffs@;
        let ghost keep = |k: u32| m[k].active && !buff_expired(m[k], now);
        let keys = keys_of(&self.active_buffs);
        let mut out: Vec<&GuildBuff> = Vec::new();
        let mut i: usize = 0;
        while i < keys.len()
            invariant
                0 <= i <= keys@.len(),
                m == self.active_buffs@,
                keep == (|k: u32| m[k].active && !buff_expired(m[k], now)),
                active_ends_fit(m),
                forall|k: u32| keys@.contains(k) <==> m.contains_key(k),
                derefs(out@) == selected_values(m, keys@.take(i as int), keep),
            decreases keys@.len() - i,
        {
            let k = keys[i];
            proof {
                assert(keys@.contains(k));
                lemma_selected_step(m, keys@, i as int, keep);
            }
            match self.active_buffs.get(&k) {
                Some(b) => {
                    if b.active && !b.is_expired(now) {
                        proof {
                            lemma_derefs_push(out@, b);
                        }
                        out.push(b);
                    }
                },
                None => {},
            }
            i = i + 1;
        }
        proof {
            assert(keys@.take(keys@.len() as int) == keys@);
            assert(enumerates(self.active_buffs@, keys@));
        }
        out
    }

    /// Drops every active buff that has run out at `now` and hands back the
    /// dropped ids, each once.
    pub fn cleanup_expired_buffs(&mut self, now: u64) -> (r: Vec<u32>)
        requires
            active_ends_fit(old(self).active_buffs@),
        ensures
            final(self).available_buffs == old(self).available_buffs,
            final(self).territories == old(self).territories,
            final(self).war_return_points == old(self).war_return_points,
            final(self).active_buffs@ == unexpired_buffs(old(self).active_buffs@, now),
            r@.no_duplicates(),
            forall|k: u32| r@.contains(k) <==> (old(self).active_buffs@.contains_key(k) && buff_expired(old(self).active_buffs@[k], now)),
    {
        let ghost m = self.active_buffs@;
        let keys = keys_of(&self.active_buffs);
        let mut expired: Vec<u32> = Vec::new();
        let mut i: usize = 0;
        while i < keys.len()
            invariant
                0 <= i <= keys@.len(),
                m == self.active_buffs@,
                active_ends_fit(m),
                keys@.no_duplicates(),
                forall|k: u32| keys@.contains(k) <==> m.contains_key(k),
                expired@ == keys@.take(i as int).filter(|k: u32| buff_expired(m[k], now)),
            decreases keys@.len() - i,
        {
            let k = keys[i];
            proof {
                assert(keys@.contains(k));
                assert(keys@.take(i as int + 1) == keys@.take(i as int).push(k));
                keys@.take(i as int).lemma_filter_push(k, |k: u32| buff_expired(m[k], now));
            }
            match self.active_buffs.get(&k) {
                Some(b) => {
                    if b.is_expired(now) {
                        expired.push(k);
                    }
                },
                None => {},
            }
            i = i + 1;
        }
        proof {
            assert(keys@.take(keys@.len() as int) == keys@);
            let f = |k: u32| buff_expired(m[k], now);
            assert forall|k: u32| expired@.contains(k) <==> (m.contains_key(k) && buff_expired(m[k], now)) by {
                if expired@.contains(k) {
                    keys@.lemma_filter_contains_rev(f, k);
                }
                if m.contains_key(k) && buff_expired(m[k], now) {
                    assert(keys@.contains(k));
                    let j = choose|j: int| 0 <= j < keys@.len() && keys@[j] == k;
                    keys@.lemma_filter_contains(f, j);
                }
            }
            crate::maps::lemma_filter_no_dup(keys@, f);
        }
        let mut j: usize = 0;
        while j < expired.len()
            invariant
                0 <= j <= expired@.len(),
                expired@.no_duplicates(),
                forall|k: u32| expired@.contains(k) <==> (m.contains_key(k) && buff_expired(m[k], now)),
                self.available_buffs == old(self).available_buffs,
                self.territories == old(self).territories,
                self.war_return_points == old(self).war_return_points,
                forall|k: u32| #[trigger] self.active_buffs@.contains_key(k) <==> (m.contains_key(k)
                    && !(buff_expired(m[k], now) && expired@.take(j as int).contains(k))),
                forall|k: u32| #[trigger] self.active_buffs@.contains_key(k) ==> self.active_buffs@[k] == m[k],
            decreases expired@.len() - j,
        {
            let k = expired[j];
            proof {
                assert(expired@.take(j as int + 1) == expired@.take(j as int).push(k));
                assert(expired@.contains(k));
            }
            let ghost before = self.active_buffs@;
            self.active_buffs.remove(&k);
            proof {
                let tj = expired@.take(j as int);
                let tj1 = expired@.take(j as int + 1);
                assert forall|x: u32| #[trigger] self.active_buffs@.contains_key(x) <==> (m.contains_key(x)
                    && !(buff_expired(m[x], now) && tj1.contains(x))) by {
                    if tj1.contains(x) && x != k {
                        let t = choose|t: int| 0 <= t < j + 1 && #[trigger] tj1[t] == x;
                        assert(tj[t] == x);
                    }
                    if tj.contains(x) {
                        let t = choose|t: int| 0 <= t < j && #[trigger] tj[t] == x;
                        assert(tj1[t] == x);
                    }
                    if x == k {
                        assert(tj1[j as int] == k);
                    }
                }
            }
            j = j + 1;
        }
        proof {
            assert(expired@.take(expired@.len() as int) == expired@);
            assert(self.active_buffs@ =~= unexpired_buffs(m, now));
        }
        expired
    }

    /// Buys a territory at `now` with one day of rent. Refused when five
    /// territories are held or the territory is already owned.
    pub fn purchase_territory(&mut self, guild_id: i32, territory_id: i32, name: String, cost: u32, now: u64) -> (r: Result<(), String>)
        requires
            now <= u64::MAX - TERRITORY_SECS_PER_DAY,
        ensures
            final(self).available_buffs == old(self).available_buffs,
            final(self).active_buffs == old(self).active_buffs,
            final(self).war_return_points == old(self).war_return_points,
            ({
                let t = old(self).territories@;
                &&& t.len() >= MAX_TERRITORIES ==> is_err_with(r, "Maximum territories reached"@)
                &&& t.len() < MAX_TERRITORIES && t.contains_key(territory_id) ==> is_err_with(r, "Territory already owned"@)
                &&& (r is Ok <==> (t.len() < MAX_TERRITORIES && !t.contains_key(territory_id)))
                &&& r is Ok ==> final(self).territories@.dom() == t.dom().insert(territory_id)
                    && is_new_territory(final(self).territories@[territory_id], territory_id, guild_id, name, cost, now)
                    && forall|k: i32| k != territory_id && #[trigger] t.contains_key(k) ==> final(self).territories@[k] == t[k]
                &&& r is Err ==> final(self).territories@ == t
            }),
    {
        if self.territories.len() >= MAX_TERRITORIES {
            return Err(text("Maximum territories reached"));
        }
        if self.territories.contains_key(&territory_id) {
            return Err(text("Territory already owned"));
        }
        let territory = GuildTerritory::new(territory_id, guild_id, name, cost, now);
        self.territories.insert(territory_id, territory);
        Ok(())
    }

    /// The territories of a guild whose rent still runs at `now`.
    pub fn get_guild_territories(&self, guild_id: i32, now: u64) -> (r: Vec<&GuildTerritory>)
        ensures
            exists|ks: Seq<i32>| #[trigger] enumerates(self.territories@, ks) && derefs(r@) == selected_values(
                self.territories@,
                ks,
                |k: i32| self.territories@[k].guild_id == guild_id && now < self.territories@[k].rent_time,
            ),
    {
        let ghost m = self.territories@;
        let ghost keep = |k: i32| m[k].guild_id == guild_id && now < m[k].rent_time;
        let keys = keys_of(&self.territories);
        let mut out: Vec<&GuildTerritory> = Vec::new();
        let mut i: usize = 0;
        while i < keys.len()
            invariant
                0 <= i <= keys@.len(),
                m == self.territories@,
                keep == (|k: i32| m[k].guild_id == guild_id && now < m[k].rent_time),
                forall|k: i32| keys@.contains(k) <==> m.contains_key(k),
                derefs(out@) == selected_values(m, keys@.take(i as int), keep),
            decreases keys@.len() - i,
        {
            let k = keys[i];
            proof {
                assert(keys@.contains(k));
                lemma_selected_step(m, keys@, i as int, keep);
            }
            match self.territories.get(&k) {
                Some(t) => {
                    if t.guild_id == guild_id && t.is_rent_active(now) {
                        proof {
                            lemma_derefs_push(out@, t);
                        }
                        out.push(t);
                    }
                },
                None => {},
            }
            i = i + 1;
        }
        proof {
            assert(keys@.take(keys@.len() as int) == keys@);
            assert(enumerates(self.territories@, keys@));
        }
        out
    }

    /// Sets (or replaces) a guild's war return point, stamped `now`.
    pub fn set_war_return_point(&mut self, guild_id: i32, map_id: u32, x: u16, y: u16, now: u64)
        ensures
            final(self).available_buffs == old(self).available_buffs,
            final(self).active_buffs == old(self).active_buffs,
            final(self).territories == old(self).territories,
            final(self).war_return_points@ == old(self).war_return_points@.insert(
                guild_id,
                WarReturnPoint { guild_id, map_id, x, y, set_time: now },
            ),
    {
        let point = WarReturnPoint { guild_id, map_id, x, y, set_time: now };
        self.war_return_points.insert(guild_id, point);
    }

    /// A guild's war return point.
    pub fn get_war_return_point(&self, guild_id: i32) -> (r: Option<&WarReturnPoint>)
        ensures
            match r {
                Some(p) => self.war_return_points@.contains_key(guild_id) && *p == self.war_return_points@[guild_id],
                None => !self.war_return_points@.contains_key(guild_id),
            },
    {
        self.war_return_points.get(&guild_id)
    }

    /// Clears a guild's war return point.
    pub fn remove_war_return_point(&mut self, guild_id: i32)
        ensures
            final(self).available_buffs == old(self).available_buffs,
            final(self).active_buffs == old(self).active_buffs,
            final(self).territories == old(self).territories,
            final(self).war_return_points@ == old(self).war_return_points@.remove(guild_id),
    {
        self.war_return_points.remove(&guild_id);
    }
}

/// The active-buff and territory caps hold after every purchase: a guild
/// never has more than three active buffs or more than five territories.
pub proof fn law_purchase_caps(
    act: Map<u32, GuildBuff>,
    buff_id: u32,
    b: GuildBuff,
    terr: Map<i32, GuildTerritory>,
    territory_id: i32,
    t: GuildTerritory,
)
    requires
        act.dom().finite(),
        terr.dom().finite(),
        !act.contains_key(buff_id),
        act.len() < MAX_ACTIVE_BUFFS,
        !terr.contains_key(territory_id),
        terr.len() < MAX_TERRITORIES,
    ensures
        act.insert(buff_id, b).len() <= MAX_ACTIVE_BUFFS,
        terr.insert(territory_id, t).len() <= MAX_TERRITORIES,
{
}

/// A buff bought at `now` is active and has not run out at `now`, so it
/// survives a cleanup at that time; after a cleanup no remaining buff has
/// run out.
pub proof fn law_fresh_buff_survives_cleanup(act: Map<u32, GuildBuff>, buff_id: u32, b: GuildBuff, now: u64)
    requires
        now + BUFF_HOURS * SECS_PER_HOUR <= u64::MAX,
    ensures
        ({
            let nb = GuildBuff { active: true, start_time: now, duration: (BUFF_HOURS * SECS_PER_HOUR) as u64, ..b };
            &&& !buff_expired(nb, now)
            &&& unexpired_buffs(act.insert(buff_id, nb), now).contains_key(buff_id)
        }),
        forall|k: u32| #[trigger] unexpired_buffs(act, now).contains_key(k) ==> !buff_expired(unexpired_buffs(act, now)[k], now),
{
}

} // verus!
