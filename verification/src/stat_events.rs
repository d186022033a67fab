//! What world events do to a signed-in character's stored stats: gains of
//! experience, gold and credit, and a new level's experience band.
use vstd::prelude::*;

use crate::account::CharacterStats;
use crate::npc_script::word_is;
use crate::quest_text::header_matches;
use crate::scan::chars_of;

verus! {

/// A world event that changes the character's stored stats.
#[derive(Clone, Copy, Debug, PartialEq, Eq, Structural)]
pub enum StatEvent {
    GainExperience(u32),
    /// The level changed; the experience is the new band's.
    LevelChanged(i64),
    GainedGold(u32),
    GainedCredit(u32),
}

/// `a + b` held within the `i64` range, as `i64::saturating_add` gives.
pub open spec fn sat_add64(a: i64, b: int) -> i64 {
    if a + b > i64::MAX {
        i64::MAX
    } else if a + b < i64::MIN {
        i64::MIN
    } else {
        (a + b) as i64
    }
}

/// The stats after an event.
pub open spec fn after_event(s: CharacterStats, e: StatEvent) -> CharacterStats {
    match e {
        StatEvent::GainExperience(n) => CharacterStats { experience: sat_add64(s.experience, n as int), ..s },
        StatEvent::LevelChanged(x) => CharacterStats { experience: x, ..s },
        StatEvent::GainedGold(n) => CharacterStats { gold: sat_add64(s.gold, n as int), ..s },
        StatEvent::GainedCredit(n) => CharacterStats { credit: sat_add64(s.credit, n as int), ..s },
    }
}

fn add_saturating(a: i64, n: u32) -> (r: i64)
    ensures
        r == sat_add64(a, n as int),
{
    let s: i128 = a as i128 + n as i128;
    if s > i64::MAX as i128 {
        i64::MAX
    } else {
        s as i64
    }
}

/// Applies an event to the character's stored stats.
pub fn apply_stat_event(stats: &mut CharacterStats, e: StatEvent)
    ensures
        *final(stats) == after_event(*old(stats), e),
{
    match e {
        StatEvent::GainExperience(n) => {
            stats.experience = add_saturating(stats.experience, n);
        },
        StatEvent::LevelChanged(x) => {
            stats.experience = x;
        },
        StatEvent::GainedGold(n) => {
            stats.gold = add_saturating(stats.gold, n);
        },
        StatEvent::GainedCredit(n) => {
            stats.credit = add_saturating(stats.credit, n);
        },
    }
}

/// Experience a player gains also goes to the player's guild, unless the
/// player has no guild or is in the newbie guild (named without regard to
/// ASCII case).
pub fn awards_guild_exp(guild_name: &str, newbie_guild: &str) -> (r: bool)
    ensures
        r == (guild_name@.len() > 0 && !header_matches(guild_name@, newbie_guild@)),
{
    let g = chars_of(guild_name);
    if g.len() == 0 {
        return false;
    }
    let same = word_is(&g, (0, g.len()), newbie_guild);
    proof {
        assert(g@.subrange(0, g@.len() as int) =~= g@);
    }
    !same
}

/// Gains never take anything away: experience, gold and credit never drop
/// on a gain, and nothing else changes.
pub proof fn law_gains_never_lower(s: CharacterStats, n: u32)
    ensures
        after_event(s, StatEvent::GainExperience(n)).experience >= s.experience,
        after_event(s, StatEvent::GainedGold(n)).gold >= s.gold,
        after_event(s, StatEvent::GainedCredit(n)).credit >= s.credit,
        after_event(s, StatEvent::GainedGold(n)).experience == s.experience,
        after_event(s, StatEvent::GainedGold(n)).credit == s.credit,
{
}

} // verus!
