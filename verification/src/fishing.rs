//! Fishing: spots on the maps, a player's cast, bite and reel, and the fish
//! a bite brings.
use std::collections::HashMap;
use vstd::prelude::*;
use crate::item::UserItemData;
use crate::chance::random_u32;
use crate::maps::{keys_of, lists_values, map_get_mut, values_of};
use crate::text::{is_err_with, text};

verus! {

broadcast use vstd::std_specs::hash::group_hash_axioms;

/// How rare a fish is.
#[derive(Clone, Copy, Debug, PartialEq, Eq, Structural)]
pub enum FishType {
    Common,
    Uncommon,
    Rare,
    Epic,
    Legendary,
}

/// A place to fish.
#[derive(Clone, Debug)]
pub struct FishingSpot {
    pub spot_id: u32,
    pub map_id: u32,
    pub x: u16,
    pub y: u16,
    pub required_level: u16,
    pub fish_types: Vec<FishType>,
    /// One weight per entry of `fish_types`.
    pub rarity_weights: Vec<u32>,
}

/// A caught fish.
#[derive(Clone, Debug)]
pub struct Fish {
    pub fish_type: FishType,
    /// Length in centimetres.
    pub size: u16,
    pub value: u32,
    pub exp_reward: u32,
}

/// The gold value of a fish of a kind and size.
pub open spec fn fish_value(t: FishType, size: u16) -> int {
    match t {
        FishType::Common => 100 + size * 2,
        FishType::Uncommon => 300 + size * 5,
        FishType::Rare => 800 + size * 10,
        FishType::Epic => 2000 + size * 20,
        FishType::Legendary => 5000 + size * 50,
    }
}

/// The experience a fish of a kind and size gives.
pub open spec fn fish_exp(t: FishType, size: u16) -> int {
    match t {
        FishType::Common => 50 + size,
        FishType::Uncommon => 150 + size * 2,
        FishType::Rare => 400 + size * 3,
        FishType::Epic => 1000 + size * 5,
        FishType::Legendary => 2500 + size * 10,
    }
}

/// A fish of this kind and size, priced by the table.
pub open spec fn is_fish(f: Fish, t: FishType, size: u16) -> bool {
    &&& f.fish_type == t
    &&& f.size == size
    &&& f.value == fish_value(t, size)
    &&& f.exp_reward == fish_exp(t, size)
}

impl Fish {
    /// A fish of a kind and size, with its value and experience.
    pub fn new(fish_type: FishType, size: u16) -> (r: Self)
        ensures
            is_fish(r, fish_type, size),
    {
        let s: u32 = size as u32;
        let (value, exp) = match fish_type {
            FishType::Common => (100 + s * 2, 50 + s),
            FishType::Uncommon => (300 + s * 5, 150 + s * 2),
            FishType::Rare => (800 + s * 10, 400 + s * 3),
            FishType::Epic => (2000 + s * 20, 1000 + s * 5),
            FishType::Legendary => (5000 + s * 50, 2500 + s * 10),
        };
        Fish { fish_type, size, value, exp_reward: exp }
    }
}

/// The kind a rarity roll of 0..100 gives: 60% common, 25% uncommon, 10%
/// rare, 4% epic, 1% legendary.
pub open spec fn kind_for_roll(roll: int) -> FishType {
    if roll <= 59 {
        FishType::Common
    } else if roll <= 84 {
        FishType::Uncommon
    } else if roll <= 94 {
        FishType::Rare
    } else if roll <= 98 {
        FishType::Epic
    } else {
        FishType::Legendary
    }
}

/// The fish two random numbers give: the kind from the first modulo 100,
/// the size 10 + the second modulo 91.
pub open spec fn is_fish_for_rolls(f: Fish, rarity_roll: u32, size_roll: u16) -> bool {
    is_fish(f, kind_for_roll((rarity_roll % 100) as int), (10 + size_roll % 91) as u16)
}

/// Any fish a bite can bring: some kind, 10 to 100 cm.
pub open spec fn is_catchable(f: Fish) -> bool {
    10 <= f.size <= 100 && is_fish(f, f.fish_type, f.size)
}

/// The fish two random numbers give.
pub fn fish_from_rolls(rarity_roll: u32, size_roll: u16) -> (r: Fish)
    ensures
        is_fish_for_rolls(r, rarity_roll, size_roll),
{
    let roll = rarity_roll % 100;
    let fish_type = if roll <= 59 {
        FishType::Common
    } else if roll <= 84 {
        FishType::Uncommon
    } else if roll <= 94 {
        FishType::Rare
    } else if roll <= 98 {
        FishType::Epic
    } else {
        FishType::Legendary
    };
    let size: u16 = 10 + size_roll % 91;
    Fish::new(fish_type, size)
}

/// One player's fishing.
#[derive(Clone, Debug)]
pub struct FishingState {
    pub player_id: i32,
    pub is_fishing: bool,
    pub cast_out: bool,
    pub autocast: bool,
    pub spot_id: Option<u32>,
    /// Unix time in seconds when fishing started.
    pub cast_time: u64,
    /// Unix time in seconds when a fish bites.
    pub fish_bite_time: Option<u64>,
    pub current_fish: Option<Fish>,
    pub fishing_rod: Option<UserItemData>,
    pub fishing_bait: Option<UserItemData>,
}

/// Not fishing, nothing cast, nothing held.
pub open spec fn is_idle_state(s: FishingState, player_id: i32) -> bool {
    &&& s.player_id == player_id
    &&& !s.is_fishing
    &&& !s.cast_out
    &&& !s.autocast
    &&& s.spot_id is None
    &&& s.cast_time == 0
    &&& s.fish_bite_time is None
    &&& s.current_fish is None
    &&& s.fishing_rod is None
    &&& s.fishing_bait is None
}

/// The state after fishing starts at a spot at `now`.
pub open spec fn started(s: FishingState, spot_id: u32, rod: UserItemData, bait: Option<UserItemData>, now: u64) -> FishingState {
    FishingState {
        is_fishing: true,
        spot_id: Some(spot_id),
        fishing_rod: Some(rod),
        fishing_bait: bait,
        cast_time: now,
        ..s
    }
}

/// The state after a cast with a random byte: a fish bites 3 to 10 seconds
/// after fishing started. Nothing happens when not fishing.
pub open spec fn cast(s: FishingState, roll: u8) -> FishingState {
    if s.is_fishing {
        FishingState { cast_out: true, fish_bite_time: Some((s.cast_time + 3 + roll % 8) as u64), ..s }
    } else {
        s
    }
}

/// The state after reeling in: the line is in and the bite time cleared.
pub open spec fn reeled(s: FishingState) -> FishingState {
    if s.cast_out {
        FishingState { cast_out: false, fish_bite_time: None, ..s }
    } else {
        s
    }
}

/// A fish is on the line at `now`.
pub open spec fn bites(s: FishingState, now: u64) -> bool {
    &&& s.cast_out
    &&& s.fish_bite_time matches Some(t) && now >= t
}

/// `after` is `before` after a bite check at `now`: on a bite a catchable
/// fish is on the hook, otherwise nothing changed.
pub open spec fn bite_checked(before: FishingState, now: u64, after: FishingState) -> bool {
    if bites(before, now) {
        after.current_fish matches Some(f) && is_catchable(f) && after == FishingState { current_fish: Some(f), ..before }
    } else {
        after == before
    }
}

impl FishingState {
    /// Idle fishing for a player.
    pub fn new(player_id: i32) -> (r: Self)
        ensures
            is_idle_state(r, player_id),
    {
        FishingState {
            player_id,
            is_fishing: false,
            cast_out: false,
            autocast: false,
            spot_id: None,
            cast_time: 0,
            fish_bite_time: None,
            current_fish: None,
            fishing_rod: None,
            fishing_bait: None,
        }
    }

    /// Starts fishing at a spot with a rod and maybe bait at `now`.
    pub fn start_fishing(&mut self, spot_id: u32, rod: UserItemData, bait: Option<UserItemData>, now: u64)
        ensures
            *final(self) == started(*old(self), spot_id, rod, bait, now),
    {
        self.is_fishing = true;
        self.spot_id = Some(spot_id);
        self.fishing_rod = Some(rod);
        self.fishing_bait = bait;
        self.cast_time = now;
    }

    /// Casts with a given random byte.
    pub fn cast_line_with_roll(&mut self, roll: u8)
        requires
            old(self).cast_time + 10 <= u64::MAX,
        ensures
            *final(self) == cast(*old(self), roll),
    {
        if !self.is_fishing {
            return;
        }
        self.cast_out = true;
        let bite_delay: u8 = 3 + roll % 8;
        self.fish_bite_time = Some(self.cast_time + bite_delay as u64);
    }

    /// Casts: when fishing, a fish bites 3 to 10 seconds after the start.
    pub fn cast_line(&mut self)
        requires
            old(self).cast_time + 10 <= u64::MAX,
        ensures
            exists|roll: u8| *final(self) == cast(*old(self), roll),
    {
        let roll: u8 = (random_u32() % 256) as u8;
        self.cast_line_with_roll(roll);
    }

    /// Reels in. The bite time is cleared before it is looked at, so no
    /// fish ever comes back.
    pub fn reel_in(&mut self) -> (r: Option<Fish>)
        ensures
            r is None,
            *final(self) == reeled(*old(self)),
    {
        if !self.cast_out {
            return None;
        }
        self.cast_out = false;
        self.fish_bite_time = None;
        None
    }

    /// Stops fishing and clears everything but the player and autocast.
    pub fn stop_fishing(&mut self)
        ensures
            final(self).player_id == old(self).player_id,
            final(self).autocast == old(self).autocast,
            !final(self).is_fishing,
            !final(self).cast_out,
            final(self).spot_id is None,
            final(self).cast_time == 0,
            final(self).fish_bite_time is None,
            final(self).current_fish is None,
            final(self).fishing_rod is None,
            final(self).fishing_bait is None,
    {
        self.is_fishing = false;
        self.cast_out = false;
        self.spot_id = None;
        self.cast_time = 0;
        self.fish_bite_time = None;
        self.current_fish = None;
        self.fishing_rod = None;
        self.fishing_bait = None;
    }

    /// Flips autocast and returns the new setting.
    pub fn toggle_autocast(&mut self) -> (r: bool)
        ensures
            r == !old(self).autocast,
            *final(self) == (FishingState { autocast: r, ..*old(self) }),
    {
        self.autocast = !self.autocast;
        self.autocast
    }

    /// Checks for a bite at `now` with given random numbers for the fish.
    pub fn check_fish_bite_with_rolls(&mut self, now: u64, rarity_roll: u32, size_roll: u16) -> (r: bool)
        ensures
            r == bites(*old(self), now),
            r ==> (final(self).current_fish matches Some(f) && is_fish_for_rolls(f, rarity_roll, size_roll)
                && *final(self) == (FishingState { current_fish: Some(f), ..*old(self) })),
            !r ==> *final(self) == *old(self),
    {
        if !self.cast_out || self.fish_bite_time.is_none() {
            return false;
        }
        match self.fish_bite_time {
            Some(bite_time) => {
                if now >= bite_time {
                    self.current_fish = Some(fish_from_rolls(rarity_roll, size_roll));
                    true
                } else {
                    false
                }
            },
            None => false,
        }
    }

    /// Checks for a bite at `now`; on a bite a random fish is on the hook.
    pub fn check_fish_bite(&mut self, now: u64) -> (r: bool)
        ensures
            r == bites(*old(self), now),
            bite_checked(*old(self), now, *final(self)),
    {
        if !self.cast_out || self.fish_bite_time.is_none() {
            return false;
        }
        match self.fish_bite_time {
            Some(bite_time) => {
                if now >= bite_time {
                    self.current_fish = Some(self.generate_random_fish());
                    true
                } else {
                    false
                }
            },
            None => false,
        }
    }

    /// A random fish: the kind by rarity, the size 10 to 100 cm.
    fn generate_random_fish(&self) -> (r: Fish)
        ensures
            exists|rarity_roll: u32, size_roll: u16| is_fish_for_rolls(r, rarity_roll, size_roll),
            is_catchable(r),
    {
        let rarity_roll = random_u32();
        let size_roll: u16 = (random_u32() % 65536) as u16;
        fish_from_rolls(rarity_roll, size_roll)
    }
}

} // verus!

verus! {

/// The fishing spots and every player's fishing.
#[derive(Clone, Debug)]
pub struct FishingSystem {
    pub fishing_spots: HashMap<u32, FishingSpot>,
    pub player_states: HashMap<i32, FishingState>,
    max_fishing_spots: usize,
    fishing_rod_item_id: u32,
    fishing_bait_item_id: u32,
}

/// A spot with its fields.
pub open spec fn is_spot(s: FishingSpot, id: u32, map_id: u32, x: u16, y: u16, level: u16, kinds: Seq<FishType>, weights: Seq<u32>) -> bool {
    &&& s.spot_id == id
    &&& s.map_id == map_id
    &&& s.x == x
    &&& s.y == y
    &&& s.required_level == level
    &&& s.fish_types@ == kinds
    &&& s.rarity_weights@ == weights
}

/// The three spots a new system knows.
pub open spec fn is_default_spots(m: Map<u32, FishingSpot>) -> bool {
    &&& m.dom() == set![1u32, 2u32, 3u32]
    &&& is_spot(m[1], 1, 0, 100, 200, 1, seq![FishType::Common, FishType::Uncommon], seq![70u32, 30u32])
    &&& is_spot(
        m[2],
        2,
        1,
        150,
        300,
        20,
        seq![FishType::Common, FishType::Uncommon, FishType::Rare],
        seq![50u32, 35u32, 15u32],
    )
    &&& is_spot(
        m[3],
        3,
        2,
        200,
        400,
        40,
        seq![FishType::Uncommon, FishType::Rare, FishType::Epic],
        seq![30u32, 50u32, 20u32],
    )
}

/// A spot on the map within five tiles of a position on both axes.
pub open spec fn is_near(s: FishingSpot, map_id: u32, x: u16, y: u16) -> bool {
    &&& s.map_id == map_id
    &&& (if s.x > x { s.x - x } else { x - s.x }) <= 5
    &&& (if s.y > y { s.y - y } else { y - s.y }) <= 5
}

/// No player's cast time is too close to the end of time to add a bite
/// delay to.
pub open spec fn casts_fit(states: Map<i32, FishingState>) -> bool {
    forall|id: i32| states.contains_key(id) ==> #[trigger] states[id].cast_time + 10 <= u64::MAX
}

impl FishingSystem {
    /// The spots by id.
    pub closed spec fn spots(&self) -> Map<u32, FishingSpot> {
        self.fishing_spots@
    }

    /// Every player's fishing, by player id.
    pub closed spec fn players(&self) -> Map<i32, FishingState> {
        self.player_states@
    }

    /// The default spots and no players.
    pub fn new() -> (r: Self)
        ensures
            is_default_spots(r.spots()),
            r.players() == Map::<i32, FishingState>::empty(),
    {
        let mut system = FishingSystem {
            fishing_spots: HashMap::new(),
            player_states: HashMap::new(),
            max_fishing_spots: 100,
            fishing_rod_item_id: 3001,
            fishing_bait_item_id: 3002,
        };
        system.initialize_default_spots();
        system
    }

    fn initialize_default_spots(&mut self)
        requires
            old(self).fishing_spots@ == Map::<u32, FishingSpot>::empty(),
        ensures
            is_default_spots(final(self).fishing_spots@),
            final(self).player_states == old(self).player_states,
    {
        let first = FishingSpot {
            spot_id: 1,
            map_id: 0,
            x: 100,
            y: 200,
            required_level: 1,
            fish_types: vec![FishType::Common, FishType::Uncommon],
            rarity_weights: vec![70, 30],
        };
        let second = FishingSpot {
            spot_id: 2,
            map_id: 1,
            x: 150,
            y: 300,
            required_level: 20,
            fish_types: vec![FishType::Common, FishType::Uncommon, FishType::Rare],
            rarity_weights: vec![50, 35, 15],
        };
        let third = FishingSpot {
            spot_id: 3,
            map_id: 2,
            x: 200,
            y: 400,
            required_level: 40,
            fish_types: vec![FishType::Uncommon, FishType::Rare, FishType::Epic],
            rarity_weights: vec![30, 50, 20],
        };
        proof {
            assert(first.fish_types@ =~= seq![FishType::Common, FishType::Uncommon]);
            assert(first.rarity_weights@ =~= seq![70u32, 30u32]);
            assert(second.fish_types@ =~= seq![FishType::Common, FishType::Uncommon, FishType::Rare]);
            assert(second.rarity_weights@ =~= seq![50u32, 35u32, 15u32]);
            assert(third.fish_types@ =~= seq![FishType::Uncommon, FishType::Rare, FishType::Epic]);
            assert(third.rarity_weights@ =~= seq![30u32, 50u32, 20u32]);
        }
        self.fishing_spots.insert(1, first);
        self.fishing_spots.insert(2, second);
        self.fishing_spots.insert(3, third);
        proof {
            assert(self.fishing_spots@.dom() =~= set![1u32, 2u32, 3u32]);
        }
    }
}

} // verus!

verus! {

impl FishingSystem {
    /// A player's fishing, if any.
    pub fn get_player_state(&self, player_id: i32) -> (r: Option<&FishingState>)
        ensures
            match r {
                Some(s) => self.players().contains_key(player_id) && *s == self.players()[player_id],
                None => !self.players().contains_key(player_id),
            },
    {
        self.player_states.get(&player_id)
    }

    /// A player's fishing, made idle first when the player has none.
    pub fn get_player_state_mut(&mut self, player_id: i32) -> (r: &mut FishingState)
        ensures
            old(self).players().contains_key(player_id) ==> *r == old(self).players()[player_id],
            !old(self).players().contains_key(player_id) ==> is_idle_state(*r, player_id),
            final(self).players() == old(self).players().insert(player_id, *final(r)),
            final(self).spots() == old(self).spots(),
    {
        if !self.player_states.contains_key(&player_id) {
            self.player_states.insert(player_id, FishingState::new(player_id));
        }
        let r = map_get_mut(&mut self.player_states, &player_id);
        r.unwrap()
    }

    /// Starts a player fishing at a spot at `now`. Errors: no such spot, a
    /// level below the spot's, or the player is already fishing.
    pub fn start_fishing(&mut self, player_id: i32, spot_id: u32, rod: UserItemData, bait: Option<UserItemData>, player_level: u16, now: u64) -> (r: Result<(), String>)
        ensures
            final(self).spots() == old(self).spots(),
            !old(self).spots().contains_key(spot_id) ==> is_err_with(r, "Invalid fishing spot"@),
            old(self).spots().contains_key(spot_id) && player_level < old(self).spots()[spot_id].required_level
                ==> is_err_with(r, "Level too low for this fishing spot"@),
            old(self).spots().contains_key(spot_id) && player_level >= old(self).spots()[spot_id].required_level
                && old(self).players().contains_key(player_id) && old(self).players()[player_id].is_fishing
                ==> is_err_with(r, "Already fishing"@),
            r is Err ==> final(self).players() == old(self).players(),
            r is Ok <==> (old(self).spots().contains_key(spot_id) && player_level >= old(self).spots()[spot_id].required_level
                && !(old(self).players().contains_key(player_id) && old(self).players()[player_id].is_fishing)),
            r is Ok ==> exists|before: FishingState| #![trigger started(before, spot_id, rod, bait, now)] {
                &&& (if old(self).players().contains_key(player_id) {
                    before == old(self).players()[player_id]
                } else {
                    is_idle_state(before, player_id)
                })
                &&& final(self).players() == old(self).players().insert(
                    player_id,
                    started(before, spot_id, rod, bait, now),
                )
            },
    {
        let required = match self.fishing_spots.get(&spot_id) {
            Some(spot) => spot.required_level,
            None => {
                return Err(text("Invalid fishing spot"));
            },
        };
        if player_level < required {
            return Err(text("Level too low for this fishing spot"));
        }
        match self.player_states.get(&player_id) {
            Some(state) => {
                if state.is_fishing {
                    return Err(text("Already fishing"));
                }
            },
            None => {},
        }
        let state = self.get_player_state_mut(player_id);
        let ghost before = *state;
        let ghost rod_spec = rod;
        let ghost bait_spec = bait;
        state.start_fishing(spot_id, rod, bait, now);
        proof {
            assert(self.players() == old(self).players().insert(player_id, started(before, spot_id, rod_spec, bait_spec, now)));
        }
        Ok(())
    }

    /// Casts a player's line. Errors: the player has no fishing, or the line
    /// is already out.
    pub fn cast_line(&mut self, player_id: i32) -> (r: Result<(), String>)
        requires
            casts_fit(old(self).players()),
        ensures
            final(self).spots() == old(self).spots(),
            !old(self).players().contains_key(player_id) ==> is_err_with(r, "Not fishing"@),
            old(self).players().contains_key(player_id) && old(self).players()[player_id].cast_out
                ==> is_err_with(r, "Line already cast"@),
            r is Err ==> final(self).players() == old(self).players(),
            r is Ok <==> old(self).players().contains_key(player_id) && !old(self).players()[player_id].cast_out,
            r is Ok ==> exists|roll: u8| final(self).players() == old(self).players().insert(
                player_id,
                cast(old(self).players()[player_id], roll),
            ),
    {
        match map_get_mut(&mut self.player_states, &player_id) {
            None => Err(text("Not fishing")),
            Some(state) => {
                if state.cast_out {
                    return Err(text("Line already cast"));
                }
                state.cast_line();
                Ok(())
            },
        }
    }

    /// Reels a player's line in; nothing is ever caught this way. With
    /// autocast on, the line goes straight out again. Errors: the player has
    /// no fishing, or the line is not out.
    pub fn reel_in(&mut self, player_id: i32) -> (r: Result<Option<Fish>, String>)
        requires
            casts_fit(old(self).players()),
        ensures
            final(self).spots() == old(self).spots(),
            !old(self).players().contains_key(player_id) ==> is_err_with(r, "Not fishing"@),
            old(self).players().contains_key(player_id) && !old(self).players()[player_id].cast_out
                ==> is_err_with(r, "Line not cast"@),
            r is Err ==> final(self).players() == old(self).players(),
            r is Ok <==> old(self).players().contains_key(player_id) && old(self).players()[player_id].cast_out,
            r is Ok ==> r == Ok::<Option<Fish>, String>(None) && {
                let s = reeled(old(self).players()[player_id]);
                if s.autocast {
                    exists|roll: u8| final(self).players() == old(self).players().insert(player_id, cast(s, roll))
                } else {
                    final(self).players() == old(self).players().insert(player_id, s)
                }
            },
    {
        match map_get_mut(&mut self.player_states, &player_id) {
            None => Err(text("Not fishing")),
            Some(state) => {
                if !state.cast_out {
                    return Err(text("Line not cast"));
                }
                let fish = state.reel_in();
                if state.autocast && fish.is_none() {
                    state.cast_line();
                }
                Ok(fish)
            },
        }
    }

    /// Stops a player's fishing, if the player has any.
    pub fn stop_fishing(&mut self, player_id: i32)
        ensures
            final(self).spots() == old(self).spots(),
            final(self).players().dom() == old(self).players().dom(),
            forall|id: i32| id != player_id && old(self).players().contains_key(id) ==> #[trigger] final(self).players()[id] == old(self).players()[id],
            old(self).players().contains_key(player_id) ==> {
                let s = final(self).players()[player_id];
                let o = old(self).players()[player_id];
                &&& s.player_id == o.player_id
                &&& s.autocast == o.autocast
                &&& !s.is_fishing && !s.cast_out
                &&& s.spot_id is None && s.cast_time == 0 && s.fish_bite_time is None
                &&& s.current_fish is None && s.fishing_rod is None && s.fishing_bait is None
            },
    {
        match map_get_mut(&mut self.player_states, &player_id) {
            Some(state) => {
                state.stop_fishing();
            },
            None => {},
        }
        proof {
            assert(self.player_states@.dom() =~= old(self).player_states@.dom());
        }
    }

    /// Flips a player's autocast. Errors: the player has no fishing.
    pub fn toggle_autocast(&mut self, player_id: i32) -> (r: Result<bool, String>)
        ensures
            final(self).spots() == old(self).spots(),
            !old(self).players().contains_key(player_id) ==> is_err_with(r, "Not fishing"@) && final(self).players() == old(self).players(),
            old(self).players().contains_key(player_id) ==> {
                let o = old(self).players()[player_id];
                &&& r == Ok::<bool, String>(!o.autocast)
                &&& final(self).players() == old(self).players().insert(player_id, FishingState { autocast: !o.autocast, ..o })
            },
    {
        match map_get_mut(&mut self.player_states, &player_id) {
            None => Err(text("Not fishing")),
            Some(state) => Ok(state.toggle_autocast()),
        }
    }

    /// A spot by id.
    pub fn get_fishing_spot(&self, spot_id: u32) -> (r: Option<&FishingSpot>)
        ensures
            match r {
                Some(s) => self.spots().contains_key(spot_id) && *s == self.spots()[spot_id],
                None => !self.spots().contains_key(spot_id),
            },
    {
        self.fishing_spots.get(&spot_id)
    }

    /// Every spot, once each, in the map's order.
    pub fn get_all_spots(&self) -> (r: Vec<&FishingSpot>)
        ensures
            exists|ks: Seq<u32>| #[trigger] lists_values(self.spots(), ks, r@),
    {
        let r = values_of(&self.fishing_spots);
        proof {
            assert(self.spots() == self.fishing_spots@);
        }
        r
    }

    /// The id of a spot on the map within five tiles of a position on both
    /// axes; which one, when several are, follows the map's order.
    pub fn is_at_fishing_spot(&self, player_id: i32, map_id: u32, x: u16, y: u16) -> (r: Option<u32>)
        ensures
            match r {
                Some(id) => exists|k: u32| #[trigger] self.spots().contains_key(k) && is_near(self.spots()[k], map_id, x, y)
                    && self.spots()[k].spot_id == id,
                None => forall|k: u32| #[trigger] self.spots().contains_key(k) ==> !is_near(self.spots()[k], map_id, x, y),
            },
    {
        let ks = keys_of(&self.fishing_spots);
        let mut i: usize = 0;
        while i < ks.len()
            invariant
                0 <= i <= ks@.len(),
                forall|k: u32| ks@.contains(k) <==> self.fishing_spots@.contains_key(k),
                forall|j: int| 0 <= j < i ==> self.fishing_spots@.contains_key(#[trigger] ks@[j]),
                forall|j: int| 0 <= j < i ==> !is_near(self.fishing_spots@[#[trigger] ks@[j]], map_id, x, y),
            decreases ks@.len() - i,
        {
            let k = ks[i];
            assert(ks@.contains(k));
            match self.fishing_spots.get(&k) {
                Some(spot) => {
                    if spot.map_id == map_id {
                        let dx: u16 = if spot.x > x { spot.x - x } else { x - spot.x };
                        let dy: u16 = if spot.y > y { spot.y - y } else { y - spot.y };
                        if dx <= 5 && dy <= 5 {
                            proof {
                                assert(self.spots().contains_key(k) && is_near(self.spots()[k], map_id, x, y));
                            }
                            return Some(spot.spot_id);
                        }
                    }
                },
                None => {},
            }
            i = i + 1;
        }
        proof {
            assert forall|k: u32| #[trigger] self.fishing_spots@.contains_key(k) implies !is_near(self.fishing_spots@[k], map_id, x, y) by {
                assert(ks@.contains(k));
                let j = ks@.index_of(k);
                assert(ks@[j] == k);
            }
        }
        None
    }
}

} // verus!

verus! {

impl FishingSystem {
    /// Checks every player for a bite at `now`. Returns each player with a
    /// bite once, paired with true, in the map's order; each of them has a
    /// random fish on the hook.
    pub fn update_fishing(&mut self, now: u64) -> (r: Vec<(i32, bool)>)
        ensures
            final(self).spots() == old(self).spots(),
            final(self).players().dom() == old(self).players().dom(),
            forall|id: i32| #[trigger] old(self).players().contains_key(id) ==> bite_checked(
                old(self).players()[id],
                now,
                final(self).players()[id],
            ),
            r@.no_duplicates(),
            forall|p: (i32, bool)| #[trigger] r@.contains(p) <==> p.1 && old(self).players().contains_key(p.0) && bites(
                old(self).players()[p.0],
                now,
            ),
    {
        let ks = keys_of(&self.player_states);
        let ghost start = self.player_states@;
        let mut bitten: Vec<(i32, bool)> = Vec::new();
        let mut i: usize = 0;
        while i < ks.len()
            invariant
                0 <= i <= ks@.len(),
                ks@.no_duplicates(),
                forall|k: i32| ks@.contains(k) <==> start.contains_key(k),
                self.player_states@.dom() == start.dom(),
                self.fishing_spots@ == old(self).fishing_spots@,
                start == old(self).player_states@,
                forall|j: int| 0 <= j < i ==> bite_checked(start[#[trigger] ks@[j]], now, self.player_states@[ks@[j]]),
                forall|j: int| i <= j < ks@.len() ==> self.player_states@[#[trigger] ks@[j]] == start[ks@[j]],
                bitten@.no_duplicates(),
                forall|p: (i32, bool)| #[trigger] bitten@.contains(p) ==> p.1 && ks@.subrange(0, i as int).contains(p.0) && bites(start[p.0], now),
                forall|j: int| 0 <= j < i && bites(start[#[trigger] ks@[j]], now) ==> bitten@.contains((ks@[j], true)),
            decreases ks@.len() - i,
        {
            let k = ks[i];
            assert(ks@.contains(k));
            let ghost before_states = self.player_states@;
            let ghost before_bitten = bitten@;
            match map_get_mut(&mut self.player_states, &k) {
                Some(state) => {
                    if state.check_fish_bite(now) {
                        bitten.push((k, true));
                    }
                },
                None => {
                    assert(false);
                },
            }
            proof {
                assert forall|j: int| 0 <= j < ks@.len() && j != i implies ks@[j] != k by {
                    assert(ks@[j] != ks@[i as int]);
                }
                assert forall|p: (i32, bool)| #[trigger] bitten@.contains(p) implies p.1 && ks@.subrange(0, i as int + 1).contains(p.0) && bites(start[p.0], now) by {
                    if before_bitten.contains(p) {
                        let w = choose|w: int| 0 <= w < i && ks@.subrange(0, i as int)[w] == p.0;
                        assert(ks@.subrange(0, i as int + 1)[w] == p.0);
                    } else {
                        assert(p == (k, true));
                        assert(ks@.subrange(0, i as int + 1)[i as int] == k);
                    }
                }
                if bitten@.len() > before_bitten.len() {
                    assert(!before_bitten.contains((k, true))) by {
                        if before_bitten.contains((k, true)) {
                            let w = choose|w: int| 0 <= w < i && ks@.subrange(0, i as int)[w] == k;
                            assert(ks@[w] == ks@[i as int]);
                        }
                    }
                    assert forall|a: int, b: int| 0 <= a < bitten@.len() && 0 <= b < bitten@.len() && a != b implies bitten@[a] != bitten@[b] by {
                        if a < before_bitten.len() && b < before_bitten.len() {
                            assert(before_bitten[a] != before_bitten[b]);
                        } else if a < before_bitten.len() {
                            assert(before_bitten.contains(before_bitten[a]));
                        } else {
                            assert(before_bitten.contains(before_bitten[b]));
                        }
                    }
                }
                assert forall|j: int| 0 <= j < i + 1 && bites(start[#[trigger] ks@[j]], now) implies bitten@.contains((ks@[j], true)) by {
                    if j < i {
                        assert(before_bitten.contains((ks@[j], true)));
                        let w = choose|w: int| 0 <= w < before_bitten.len() && before_bitten[w] == (ks@[j], true);
                        assert(bitten@[w] == (ks@[j], true));
                    } else {
                        assert(bitten@.last() == (k, true));
                    }
                }
            }
            i = i + 1;
        }
        proof {
            assert forall|p: (i32, bool)| #[trigger] bitten@.contains(p) <==> p.1 && start.contains_key(p.0) && bites(start[p.0], now) by {
                if p.1 && start.contains_key(p.0) && bites(start[p.0], now) {
                    assert(ks@.contains(p.0));
                    let j = ks@.index_of(p.0);
                    assert(ks@[j] == p.0);
                }
                if bitten@.contains(p) {
                    let w = choose|w: int| 0 <= w < ks@.len() && ks@.subrange(0, ks@.len() as int)[w] == p.0;
                    assert(ks@[w] == p.0);
                    assert(ks@.contains(p.0));
                }
            }
            assert forall|id: i32| #[trigger] start.contains_key(id) implies bite_checked(start[id], now, self.player_states@[id]) by {
                assert(ks@.contains(id));
                let j = ks@.index_of(id);
                assert(ks@[j] == id);
            }
        }
        bitten
    }
}

} // verus!

verus! {

/// A cast while fishing puts the line out with a bite 3 to 10 seconds after
/// fishing started; a cast while not fishing changes nothing.
pub proof fn law_bite_comes_three_to_ten_seconds_in(s: FishingState, roll: u8)
    requires
        s.cast_time + 10 <= u64::MAX,
    ensures
        s.is_fishing ==> cast(s, roll).cast_out && (cast(s, roll).fish_bite_time matches Some(t) && s.cast_time + 3 <= t
            <= s.cast_time + 10),
        !s.is_fishing ==> cast(s, roll) == s,
{
}

/// A reeled-in line never has a fish on it, whatever the time.
pub proof fn law_reeled_line_never_bites(s: FishingState, now: u64)
    ensures
        !bites(reeled(s), now),
{
}

/// Every fish random numbers can give is 10 to 100 cm long and priced by
/// the table.
pub proof fn law_fish_are_catchable(f: Fish, rarity_roll: u32, size_roll: u16)
    requires
        is_fish_for_rolls(f, rarity_roll, size_roll),
    ensures
        is_catchable(f),
{
}


/// The kind of a fish follows its rarity roll taken modulo 100: 0-59
/// common, 60-84 uncommon, 85-94 rare, 95-98 epic, 99 legendary; its size
/// is 10 plus the size roll modulo 91.
pub proof fn law_rarity_bands(f: Fish, rarity_roll: u32, size_roll: u16)
    requires
        is_fish_for_rolls(f, rarity_roll, size_roll),
    ensures
        rarity_roll % 100 < 60 <==> f.fish_type == FishType::Common,
        60 <= rarity_roll % 100 <= 84 <==> f.fish_type == FishType::Uncommon,
        85 <= rarity_roll % 100 <= 94 <==> f.fish_type == FishType::Rare,
        95 <= rarity_roll % 100 <= 98 <==> f.fish_type == FishType::Epic,
        rarity_roll % 100 == 99 <==> f.fish_type == FishType::Legendary,
        f.size == 10 + size_roll % 91,
{
}

/// For the same size, a rarer kind of fish is worth more gold and more
/// experience.
pub proof fn law_rarer_fish_worth_more(size: u16)
    ensures
        fish_value(FishType::Common, size) < fish_value(FishType::Uncommon, size) < fish_value(FishType::Rare, size)
            < fish_value(FishType::Epic, size) < fish_value(FishType::Legendary, size),
        fish_exp(FishType::Common, size) < fish_exp(FishType::Uncommon, size) < fish_exp(FishType::Rare, size)
            < fish_exp(FishType::Epic, size) < fish_exp(FishType::Legendary, size),
{
}

} // verus!
