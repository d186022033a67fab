//! The decisions taken when a player clicks an NPC: whether the call is
//! heard at all, which panel the page key opens, whether a paid teleport
//! goes ahead, and the keys under which script timers are kept.
use vstd::prelude::*;
use vstd::string::StrSliceExecFns;
use crate::text::{join, text};
use crate::trade_rules::DATA_RANGE;

verus! {

/// The longest page key a client may send; a longer one is a malformed
/// packet.
pub const MAX_NPC_KEY_CHARS: usize = 30;

/// The reason code of the disconnect sent for a malformed call.
pub const MALFORMED_CALL_REASON: u8 = 2;

/// What becomes of a call before any page is looked at.
#[derive(Clone, Copy, Debug, PartialEq, Eq, Structural)]
pub enum CallNpcGate {
    /// The connection is not in the game: the call is ignored.
    Ignore,
    /// The key is too long: the client is disconnected.
    Disconnect,
    /// The call is for the default (script-only) NPC.
    DefaultNpc,
    /// No NPC with that id stands on the player's map: nothing happens.
    NoNpc,
    /// The NPC is out of the player's data range: nothing happens.
    OutOfRange,
    /// The call goes ahead.
    Open,
}

/// Distance along one axis.
pub open spec fn gap(a: int, b: int) -> int {
    if a >= b { a - b } else { b - a }
}

/// What becomes of a call: not in the game, key too long, default NPC,
/// no such NPC here, out of range, in this order; else it goes ahead.
pub open spec fn call_gate(
    in_game: bool,
    key: Seq<char>,
    object_id: u32,
    default_npc_id: u32,
    npc: Option<(i32, i32)>,
    me: (i32, i32),
) -> CallNpcGate {
    if !in_game {
        CallNpcGate::Ignore
    } else if key.len() > MAX_NPC_KEY_CHARS {
        CallNpcGate::Disconnect
    } else if object_id == default_npc_id {
        CallNpcGate::DefaultNpc
    } else {
        match npc {
            None => CallNpcGate::NoNpc,
            Some((nx, ny)) => if gap(nx as int, me.0 as int) <= DATA_RANGE && gap(ny as int, me.1 as int) <= DATA_RANGE {
                CallNpcGate::Open
            } else {
                CallNpcGate::OutOfRange
            },
        }
    }
}

/// Decides what becomes of a call: `key` as the client sent it,
/// `object_id` the NPC clicked, `npc` the location of the NPC with that id
/// on the player's map (if any), `me` the player's location.
pub fn call_npc_gate(
    in_game: bool,
    key: &str,
    object_id: u32,
    default_npc_id: u32,
    npc: Option<(i32, i32)>,
    me: (i32, i32),
) -> (r: CallNpcGate)
    ensures
        r == call_gate(in_game, key@, object_id, default_npc_id, npc, me),
{
    if !in_game {
        return CallNpcGate::Ignore;
    }
    if key.unicode_len() > MAX_NPC_KEY_CHARS {
        return CallNpcGate::Disconnect;
    }
    if object_id == default_npc_id {
        return CallNpcGate::DefaultNpc;
    }
    match npc {
        None => CallNpcGate::NoNpc,
        Some((nx, ny)) => {
            let dx: i64 = nx as i64 - me.0 as i64;
            let dy: i64 = ny as i64 - me.1 as i64;
            let adx: i64 = if dx >= 0 { dx } else { -dx };
            let ady: i64 = if dy >= 0 { dy } else { -dy };
            if adx <= DATA_RANGE as i64 && ady <= DATA_RANGE as i64 {
                CallNpcGate::Open
            } else {
                CallNpcGate::OutOfRange
            }
        },
    }
}

/// The panel a page key opens, besides the dialog page itself.
#[derive(Clone, Copy, Debug, PartialEq, Eq, Structural)]
pub enum NpcPanel {
    ManageHeroes,
    CreateHero,
    /// The shop's goods; `sell_after` when the sell panel follows them.
    Buy { sell_after: bool },
    SellOnly,
    BuyBack,
    BuyUsed,
    /// No panel: only the dialog page.
    Dialog,
}

/// The panel for a normalized page key.
pub open spec fn panel_for(key: Seq<char>) -> NpcPanel {
    if key == "@MANAGEHERO"@ {
        NpcPanel::ManageHeroes
    } else if key == "@CREATEHERO"@ {
        NpcPanel::CreateHero
    } else if key == "@BUY"@ || key == "@BUYNEW"@ {
        NpcPanel::Buy { sell_after: false }
    } else if key == "@BUYSELL"@ || key == "@BUYSELLNEW"@ {
        NpcPanel::Buy { sell_after: true }
    } else if key == "@SELL"@ {
        NpcPanel::SellOnly
    } else if key == "@BUYBACK"@ {
        NpcPanel::BuyBack
    } else if key == "@BUYUSED"@ {
        NpcPanel::BuyUsed
    } else {
        NpcPanel::Dialog
    }
}

/// The panel a normalized page key opens.
pub fn npc_panel(key: &str) -> (r: NpcPanel)
    ensures
        r == panel_for(key@),
{
    let k = text(key);
    if k == text("@MANAGEHERO") {
        NpcPanel::ManageHeroes
    } else if k == text("@CREATEHERO") {
        NpcPanel::CreateHero
    } else if k == text("@BUY") || k == text("@BUYNEW") {
        NpcPanel::Buy { sell_after: false }
    } else if k == text("@BUYSELL") || k == text("@BUYSELLNEW") {
        NpcPanel::Buy { sell_after: true }
    } else if k == text("@SELL") {
        NpcPanel::SellOnly
    } else if k == text("@BUYBACK") {
        NpcPanel::BuyBack
    } else if k == text("@BUYUSED") {
        NpcPanel::BuyUsed
    } else {
        NpcPanel::Dialog
    }
}

/// What a paid teleport comes to.
#[derive(Clone, Debug)]
pub enum PaidTeleport {
    /// The character's stats are not loaded: nothing is charged and the
    /// teleport does not happen.
    NoStats,
    /// Too little gold: no teleport, and the fail page is shown if the
    /// script names one.
    Refused { fail_page: Option<String> },
    /// The price is taken and the teleport goes ahead; `lost` is what the
    /// client is told it lost.
    Charged { gold_after: i64, lost: u32 },
}

/// A value clamped to the range of `i64`.
pub open spec fn clamp_i64(v: int) -> int {
    if v > i64::MAX {
        i64::MAX as int
    } else if v < i64::MIN {
        i64::MIN as int
    } else {
        v
    }
}

/// Decides a paid teleport: `gold` the character's gold when its stats are
/// loaded, `price` and `fail_label` what the script asks. The price is
/// taken, saturating, when the gold reaches it.
pub fn paid_teleport_step(gold: Option<i64>, price: i64, fail_label: Option<String>) -> (r: PaidTeleport)
    ensures
        match gold {
            None => r is NoStats,
            Some(g) => if g < price {
                r matches PaidTeleport::Refused { fail_page } && match (fail_page, fail_label) {
                    (Some(p), Some(l)) => p@ == l@,
                    (None, None) => true,
                    _ => false,
                }
            } else {
                r matches PaidTeleport::Charged { gold_after, lost } && gold_after == clamp_i64(g - price)
                    && lost == price as u32
            },
        },
{
    match gold {
        None => PaidTeleport::NoStats,
        Some(g) => {
            if g < price {
                PaidTeleport::Refused { fail_page: fail_label }
            } else {
                let after: i128 = g as i128 - price as i128;
                let gold_after: i64 = if after > i64::MAX as i128 { i64::MAX } else { after as i64 };
                PaidTeleport::Charged { gold_after, lost: price as u32 }
            }
        },
    }
}

/// The key of a script timer shared by everyone: "_-" and the script's key.
pub open spec fn global_timer_key_of(key: Seq<char>) -> Seq<char> {
    "_-"@ + key
}

/// The key of a player's own script timer: the player's name, "-", and the
/// script's key.
pub open spec fn player_timer_key_of(name: Seq<char>, key: Seq<char>) -> Seq<char> {
    name + "-"@ + key
}

/// The key of a script timer shared by everyone.
pub fn global_timer_key(key: &str) -> (r: String)
    ensures
        r@ == global_timer_key_of(key@),
{
    join(text("_-"), key)
}

/// The key of a player's own script timer.
pub fn player_timer_key(name: &str, key: &str) -> (r: String)
    ensures
        r@ == player_timer_key_of(name@, key@),
{
    join(join(text(name), "-"), key)
}

/// The key a script's set-timer action stores its timer under: the shared
/// key for a global timer, else the player's key when the player's name is
/// known (only that one is sent to the client); none when it is not.
pub fn set_timer_key(global: bool, player_name: Option<&str>, key: &str) -> (r: Option<String>)
    ensures
        global ==> (r matches Some(k) && k@ == global_timer_key_of(key@)),
        !global ==> match player_name {
            Some(n) => r matches Some(k) && k@ == player_timer_key_of(n@, key@),
            None => r is None,
        },
{
    if global {
        Some(global_timer_key(key))
    } else {
        match player_name {
            Some(n) => Some(player_timer_key(n, key)),
            None => None,
        }
    }
}

} // verus!
