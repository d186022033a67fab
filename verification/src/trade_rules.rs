//! Confirming a player-to-player trade: whether the two still stand face to
//! face, and whether both sides are locked and can take what the other
//! offers.
use vstd::prelude::*;

use crate::session_rules::{direction_between, facing_each_other, within};
use crate::text::text;

verus! {

/// How far apart, on each axis, two players may trade or see each other.
pub const DATA_RANGE: i32 = 16;

/// The most gold a character can carry.
pub const GOLD_CAP: u64 = 4294967295;

/// A player's place: map, x, y and facing direction.
pub type Place = (i32, i32, i32, u8);

/// The first step of a confirm.
#[derive(Clone, Copy, Debug, PartialEq, Eq, Structural)]
pub enum TradePlacement {
    /// The player took the lock off: clear the player's lock.
    Unlock,
    /// No partner, or the two are apart or not facing: cancel the trade.
    Cancel,
    /// Set the player's lock and go on to settle.
    Lock,
}

/// Who a trade message goes to.
#[derive(Clone, Copy, Debug, PartialEq, Eq, Structural)]
pub enum Party {
    Me,
    Partner,
}

/// The second step of a confirm, once the player's lock is set.
#[derive(Clone, Debug)]
pub enum TradeSettlement {
    /// The player's lock is not set: nothing more.
    Hold,
    /// Only the player is locked: tell the partner the player is waiting.
    AwaitPartner,
    /// Someone cannot take what is offered: clear the player's lock, send
    /// these messages, and cancel on both sides with the grids unlocked.
    Refuse(Vec<(Party, String)>),
    /// Both locked and both can take it: the player gains the partner's
    /// gold offer, the partner the player's, the items change hands.
    Complete,
}

/// Two places allow a trade: same map, within range, facing each other.
pub open spec fn placed_for_trade(me: Place, partner: Place) -> bool {
    &&& me.0 == partner.0
    &&& within(me.1 as int, me.2 as int, partner.1 as int, partner.2 as int, DATA_RANGE as int)
    &&& me.3 == direction_between(me.1, me.2, partner.1, partner.2)
    &&& partner.3 == direction_between(partner.1, partner.2, me.1, me.2)
}

/// The first step: `locked` is what the player asked for; the places are
/// where the player and the partner stand, when known.
pub open spec fn placement(locked: bool, has_partner: bool, me: Option<Place>, partner: Option<Place>) -> TradePlacement {
    if !locked {
        TradePlacement::Unlock
    } else if !has_partner {
        TradePlacement::Cancel
    } else {
        match (me, partner) {
            (Some(a), Some(b)) => if placed_for_trade(a, b) { TradePlacement::Lock } else { TradePlacement::Cancel },
            _ => TradePlacement::Cancel,
        }
    }
}

fn near(ax: i32, ay: i32, bx: i32, by: i32) -> (r: bool)
    ensures
        r == within(ax as int, ay as int, bx as int, by as int, DATA_RANGE as int),
{
    let dx: i64 = if ax >= bx { ax as i64 - bx as i64 } else { bx as i64 - ax as i64 };
    let dy: i64 = if ay >= by { ay as i64 - by as i64 } else { by as i64 - ay as i64 };
    dx <= DATA_RANGE as i64 && dy <= DATA_RANGE as i64
}

/// The first step of a confirm.
pub fn trade_placement(locked: bool, has_partner: bool, me: Option<Place>, partner: Option<Place>) -> (r: TradePlacement)
    ensures
        r == placement(locked, has_partner, me, partner),
{
    if !locked {
        return TradePlacement::Unlock;
    }
    if !has_partner {
        return TradePlacement::Cancel;
    }
    match (me, partner) {
        (Some(a), Some(b)) => {
            if a.0 == b.0 && near(a.1, a.2, b.1, b.2) && facing_each_other(a.3, a.1, a.2, b.3, b.1, b.2) {
                TradePlacement::Lock
            } else {
                TradePlacement::Cancel
            }
        },
        _ => TradePlacement::Cancel,
    }
}

/// A player holding `gold` (unknown: none) can take `incoming` more: with
/// nothing coming, always; else the gold held (at least 0) plus what comes
/// stays within the cap.
pub open spec fn can_take_gold(gold: Option<i64>, incoming: u32) -> bool {
    if incoming == 0 {
        true
    } else {
        match gold {
            Some(g) => (if g <= 0 { 0 } else { g as int }) + incoming <= GOLD_CAP,
            None => false,
        }
    }
}

/// Whether a player holding `gold` can take `incoming` more gold.
pub fn gold_fits(gold: Option<i64>, incoming: u32) -> (r: bool)
    ensures
        r == can_take_gold(gold, incoming),
{
    if incoming == 0 {
        return true;
    }
    match gold {
        Some(g) => {
            let current: u64 = if g <= 0 { 0 } else { g as u64 };
            current + incoming as u64 <= GOLD_CAP
        },
        None => false,
    }
}

/// The messages of a refusal: first for what the partner cannot take, then
/// for what the player cannot take; `what` names it.
pub open spec fn refusal(partner_cannot: bool, i_cannot: bool, what: Seq<char>) -> Seq<(Party, Seq<char>)> {
    (if partner_cannot {
        seq![(Party::Me, "Trading partner cannot accept "@ + what), (Party::Partner, "Unable to accept "@ + what)]
    } else {
        Seq::empty()
    }) + (if i_cannot {
        seq![(Party::Partner, "Trading partner cannot accept "@ + what), (Party::Me, "Unable to accept "@ + what)]
    } else {
        Seq::empty()
    })
}

/// The messages as plain values.
pub open spec fn message_views(ms: Seq<(Party, String)>) -> Seq<(Party, Seq<char>)> {
    ms.map_values(|m: (Party, String)| (m.0, m.1@))
}

/// The second step: both lock flags as read after the player's lock was
/// set; whether each side can take the other's items; the gold each
/// offers; the gold each holds (none when it could not be read; the
/// partner's is read only when the player offers gold).
pub open spec fn settlement_ok(
    r: TradeSettlement,
    my_lock: bool,
    partner_lock: bool,
    i_take_items: bool,
    partner_takes_items: bool,
    my_offer: u32,
    partner_offer: u32,
    my_gold: Option<i64>,
    partner_gold: Option<i64>,
) -> bool {
    let i_take_gold = can_take_gold(my_gold, partner_offer);
    let partner_takes_gold = can_take_gold(partner_gold, my_offer);
    if !my_lock {
        r is Hold
    } else if !partner_lock {
        r is AwaitPartner
    } else if !i_take_items || !partner_takes_items {
        r matches TradeSettlement::Refuse(ms) && message_views(ms@) == refusal(!partner_takes_items, !i_take_items, "all items."@)
    } else if !i_take_gold || !partner_takes_gold {
        r matches TradeSettlement::Refuse(ms) && message_views(ms@) == refusal(!partner_takes_gold, !i_take_gold, "any more gold."@)
    } else {
        r is Complete
    }
}

fn refusal_messages(partner_cannot: bool, i_cannot: bool, what: &str) -> (r: Vec<(Party, String)>)
    ensures
        message_views(r@) == refusal(partner_cannot, i_cannot, what@),
{
    let mut out: Vec<(Party, String)> = Vec::new();
    if partner_cannot {
        out.push((Party::Me, crate::text::join(text("Trading partner cannot accept "), what)));
        out.push((Party::Partner, crate::text::join(text("Unable to accept "), what)));
    }
    if i_cannot {
        out.push((Party::Partner, crate::text::join(text("Trading partner cannot accept "), what)));
        out.push((Party::Me, crate::text::join(text("Unable to accept "), what)));
    }
    proof {
        assert(message_views(out@) =~= refusal(partner_cannot, i_cannot, what@));
    }
    out
}

/// The second step of a confirm.
pub fn trade_settlement(
    my_lock: bool,
    partner_lock: bool,
    i_take_items: bool,
    partner_takes_items: bool,
    my_offer: u32,
    partner_offer: u32,
    my_gold: Option<i64>,
    partner_gold: Option<i64>,
) -> (r: TradeSettlement)
    ensures
        settlement_ok(r, my_lock, partner_lock, i_take_items, partner_takes_items, my_offer, partner_offer, my_gold, partner_gold),
{
    if !my_lock {
        return TradeSettlement::Hold;
    }
    if !partner_lock {
        return TradeSettlement::AwaitPartner;
    }
    if !i_take_items || !partner_takes_items {
        return TradeSettlement::Refuse(refusal_messages(!partner_takes_items, !i_take_items, "all items."));
    }
    let i_take_gold = gold_fits(my_gold, partner_offer);
    let partner_takes_gold = gold_fits(partner_gold, my_offer);
    if !i_take_gold || !partner_takes_gold {
        return TradeSettlement::Refuse(refusal_messages(!partner_takes_gold, !i_take_gold, "any more gold."));
    }
    TradeSettlement::Complete
}


/// A confirm locks exactly when the player asks to lock, has a partner, both
/// places are known, both stand on the same map at most 16 tiles apart on
/// each axis, and each faces the other. Otherwise an unlock request unlocks
/// and everything else cancels.
pub proof fn law_lock_needs_range_and_facing(locked: bool, has_partner: bool, me: Option<Place>, partner: Option<Place>)
    ensures
        placement(locked, has_partner, me, partner) == TradePlacement::Lock <==> (locked && has_partner && match (me, partner) {
            (Some(a), Some(b)) => {
                &&& a.0 == b.0
                &&& -16 <= a.1 - b.1 <= 16
                &&& -16 <= a.2 - b.2 <= 16
                &&& a.3 == direction_between(a.1, a.2, b.1, b.2)
                &&& b.3 == direction_between(b.1, b.2, a.1, a.2)
            },
            _ => false,
        }),
        !locked ==> placement(locked, has_partner, me, partner) == TradePlacement::Unlock,
        locked ==> placement(locked, has_partner, me, partner) != TradePlacement::Unlock,
{
}


/// A trade completes exactly when both sides are locked, each can take the
/// other's items, and each side that receives gold holds known gold which,
/// counted from 0 when negative, plus what comes in stays within
/// 4294967295.
pub proof fn law_trade_completes_only_when_both_can_take(
    r: TradeSettlement,
    my_lock: bool,
    partner_lock: bool,
    i_take_items: bool,
    partner_takes_items: bool,
    my_offer: u32,
    partner_offer: u32,
    my_gold: Option<i64>,
    partner_gold: Option<i64>,
)
    requires
        settlement_ok(r, my_lock, partner_lock, i_take_items, partner_takes_items, my_offer, partner_offer, my_gold, partner_gold),
    ensures
        r is Complete <==> {
            &&& my_lock && partner_lock && i_take_items && partner_takes_items
            &&& partner_offer == 0 || (my_gold matches Some(g) && (if g < 0 { 0 } else { g as int }) + partner_offer <= 4294967295)
            &&& my_offer == 0 || (partner_gold matches Some(g) && (if g < 0 { 0 } else { g as int }) + my_offer <= 4294967295)
        },
        !my_lock ==> r is Hold,
        my_lock && !partner_lock ==> r is AwaitPartner,
{
}

} // verus!
