//! Filling the `<$NAME>` placeholders of NPC dialogue with the player's
//! values, and the small texts those values are made of.
use vstd::prelude::*;
use vstd::string::{StrSliceExecFns, StringExecFns};

use crate::scan::{chars_of, piece};
use crate::text::{decimal, int_text, join, text};
use crate::account::CharacterSummary;

verus! {

/// `s` with every occurrence of `p` replaced by `v`, scanning left to right
/// and never overlapping, as `str::replace` does.
pub open spec fn replaced(s: Seq<char>, p: Seq<char>, v: Seq<char>) -> Seq<char>
    decreases s.len(),
{
    if p.len() == 0 || s.len() < p.len() {
        s
    } else if s.take(p.len() as int) == p {
        v + replaced(s.skip(p.len() as int), p, v)
    } else {
        seq![s[0]] + replaced(s.skip(1), p, v)
    }
}

/// `p` occurs in `s`.
pub open spec fn mentions(s: Seq<char>, p: Seq<char>) -> bool {
    exists|i: int| 0 <= i && i + p.len() <= s.len() && #[trigger] s.subrange(i, i + p.len()) == p
}

/// `p` occurs in `s` at position `i`.
fn matches_at(s: &Vec<char>, p: &Vec<char>, i: usize) -> (r: bool)
    requires
        i + p@.len() <= s@.len(),
    ensures
        r == (s@.subrange(i as int, i + p@.len()) == p@),
{
    let n = s.len();
    let mut k: usize = 0;
    while k < p.len()
        invariant
            n == s@.len(),
            i + p@.len() <= s@.len(),
            0 <= k <= p@.len(),
            forall|j: int| 0 <= j < k ==> s@[i + j] == p@[j],
        decreases p@.len() - k,
    {
        if s[i + k] != p[k] {
            proof {
                assert(s@.subrange(i as int, i + p@.len())[k as int] != p@[k as int]);
            }
            return false;
        }
        k = k + 1;
    }
    proof {
        assert(s@.subrange(i as int, i + p@.len()) =~= p@);
    }
    true
}

/// `line` with every occurrence of `pattern` replaced by `value`.
pub fn replace_all(line: &str, pattern: &str, value: &str) -> (r: String)
    requires
        pattern@.len() > 0,
    ensures
        r@ == replaced(line@, pattern@, value@),
{
    let s = chars_of(line);
    let p = chars_of(pattern);
    let plen = p.len();
    let mut out = String::new();
    let mut start: usize = 0;
    let n = s.len();
    let mut i: usize = 0;
    proof {
        assert(s@.skip(0) =~= s@);
        assert(out@ + s@.subrange(0, 0) =~= Seq::<char>::empty());
    }
    while plen <= n - i
        invariant
            n == s@.len(),
            s@ == line@,
            p@ == pattern@,
            plen == p@.len(),
            plen > 0,
            start <= i <= s@.len(),
            out@ + s@.subrange(start as int, i as int) + replaced(s@.skip(i as int), p@, value@)
                == replaced(s@, p@, value@),
        decreases s@.len() - i,
    {
        let ghost rest = s@.skip(i as int);
        proof {
            assert(rest.take(plen as int) =~= s@.subrange(i as int, i + plen));
        }
        if matches_at(&s, &p, i) {
            proof {
                assert(rest.skip(plen as int) =~= s@.skip(i + plen));
            }
            let head = piece(line, start, i);
            out.append(head.as_str());
            out.append(value);
            i = i + plen;
            start = i;
            proof {
                assert(s@.subrange(start as int, i as int) =~= Seq::<char>::empty());
                assert(out@ + s@.subrange(start as int, i as int) + replaced(s@.skip(i as int), p@, value@)
                    =~= replaced(s@, p@, value@));
            }
        } else {
            proof {
                assert(rest.skip(1) =~= s@.skip(i + 1));
                assert(rest[0] == s@[i as int]);
                assert(s@.subrange(start as int, i as int).push(s@[i as int]) =~= s@.subrange(start as int, i + 1));
            }
            i = i + 1;
        }
    }
    proof {
        let rest = s@.skip(i as int);
        assert(replaced(rest, p@, value@) == rest);
        assert(s@.subrange(start as int, i as int) + rest =~= s@.subrange(start as int, s@.len() as int));
    }
    let tail = piece(line, start, s.len());
    out.append(tail.as_str());
    out
}

/// How many placeholders NPC dialogue knows.
pub const PLACEHOLDER_COUNT: usize = 40;

/// The placeholders, in the order they are filled in.
pub open spec fn placeholders() -> Seq<Seq<char>> {
    seq![
        "<$USERNAME>"@,
        "<$LEVEL>"@,
        "<$CLASS>"@,
        "<$MAP>"@,
        "<$X_COORD>"@,
        "<$Y_COORD>"@,
        "<$HP>"@,
        "<$MAXHP>"@,
        "<$MP>"@,
        "<$MAXMP>"@,
        "<$GAMEGOLD>"@,
        "<$CREDIT>"@,
        "<$PKPOINT>"@,
        "<$DATE>"@,
        "<$USERCOUNT>"@,
        "<$PARCELAMOUNT>"@,
        "<$NPCNAME>"@,
        "<$ROLLRESULT>"@,
        "<$GUILDWARTIME>"@,
        "<$GUILDWARFEE>"@,
        "<$GUILDNAME>"@,
        "<$AGITGUILDNAME>"@,
        "<$GUILDGTRENTALDAYSLEFT>"@,
        "<$GUILDEXTENDFEE>"@,
        "<$GUILDRENTFEE>"@,
        "<$ARMOUR>"@,
        "<$WEAPON>"@,
        "<$RING_L>"@,
        "<$RING_R>"@,
        "<$BRACELET_L>"@,
        "<$BRACELET_R>"@,
        "<$NECKLACE>"@,
        "<$BELT>"@,
        "<$BOOTS>"@,
        "<$HELMET>"@,
        "<$AMULET>"@,
        "<$STONE>"@,
        "<$TORCH>"@,
        "<$MOUNT>"@,
        "<$MOUNTLOYALTY>"@
    ]
}

proof fn lemma_placeholders_nonempty()
    ensures
        placeholders().len() == PLACEHOLDER_COUNT,
        forall|i: int| 0 <= i < PLACEHOLDER_COUNT ==> (#[trigger] placeholders()[i]).len() > 0,
{
    reveal_strlit("<$USERNAME>");
    reveal_strlit("<$LEVEL>");
    reveal_strlit("<$CLASS>");
    reveal_strlit("<$MAP>");
    reveal_strlit("<$X_COORD>");
    reveal_strlit("<$Y_COORD>");
    reveal_strlit("<$HP>");
    reveal_strlit("<$MAXHP>");
    reveal_strlit("<$MP>");
    reveal_strlit("<$MAXMP>");
    reveal_strlit("<$GAMEGOLD>");
    reveal_strlit("<$CREDIT>");
    reveal_strlit("<$PKPOINT>");
    reveal_strlit("<$DATE>");
    reveal_strlit("<$USERCOUNT>");
    reveal_strlit("<$PARCELAMOUNT>");
    reveal_strlit("<$NPCNAME>");
    reveal_strlit("<$ROLLRESULT>");
    reveal_strlit("<$GUILDWARTIME>");
    reveal_strlit("<$GUILDWARFEE>");
    reveal_strlit("<$GUILDNAME>");
    reveal_strlit("<$AGITGUILDNAME>");
    reveal_strlit("<$GUILDGTRENTALDAYSLEFT>");
    reveal_strlit("<$GUILDEXTENDFEE>");
    reveal_strlit("<$GUILDRENTFEE>");
    reveal_strlit("<$ARMOUR>");
    reveal_strlit("<$WEAPON>");
    reveal_strlit("<$RING_L>");
    reveal_strlit("<$RING_R>");
    reveal_strlit("<$BRACELET_L>");
    reveal_strlit("<$BRACELET_R>");
    reveal_strlit("<$NECKLACE>");
    reveal_strlit("<$BELT>");
    reveal_strlit("<$BOOTS>");
    reveal_strlit("<$HELMET>");
    reveal_strlit("<$AMULET>");
    reveal_strlit("<$STONE>");
    reveal_strlit("<$TORCH>");
    reveal_strlit("<$MOUNT>");
    reveal_strlit("<$MOUNTLOYALTY>");
}

/// The placeholder filled in at step `i`.
pub fn placeholder(i: usize) -> (r: &'static str)
    requires
        i < PLACEHOLDER_COUNT,
    ensures
        r@ == placeholders()[i as int],
{
    match i {
        0 => "<$USERNAME>",
        1 => "<$LEVEL>",
        2 => "<$CLASS>",
        3 => "<$MAP>",
        4 => "<$X_COORD>",
        5 => "<$Y_COORD>",
        6 => "<$HP>",
        7 => "<$MAXHP>",
        8 => "<$MP>",
        9 => "<$MAXMP>",
        10 => "<$GAMEGOLD>",
        11 => "<$CREDIT>",
        12 => "<$PKPOINT>",
        13 => "<$DATE>",
        14 => "<$USERCOUNT>",
        15 => "<$PARCELAMOUNT>",
        16 => "<$NPCNAME>",
        17 => "<$ROLLRESULT>",
        18 => "<$GUILDWARTIME>",
        19 => "<$GUILDWARFEE>",
        20 => "<$GUILDNAME>",
        21 => "<$AGITGUILDNAME>",
        22 => "<$GUILDGTRENTALDAYSLEFT>",
        23 => "<$GUILDEXTENDFEE>",
        24 => "<$GUILDRENTFEE>",
        25 => "<$ARMOUR>",
        26 => "<$WEAPON>",
        27 => "<$RING_L>",
        28 => "<$RING_R>",
        29 => "<$BRACELET_L>",
        30 => "<$BRACELET_R>",
        31 => "<$NECKLACE>",
        32 => "<$BELT>",
        33 => "<$BOOTS>",
        34 => "<$HELMET>",
        35 => "<$AMULET>",
        36 => "<$STONE>",
        37 => "<$TORCH>",
        38 => "<$MOUNT>",
        _ => "<$MOUNTLOYALTY>",
    }
}

/// Whether `token` occurs in `line`, as `str::contains` answers.
pub fn contains_text(line: &str, token: &str) -> (r: bool)
    ensures
        r == mentions(line@, token@),
{
    let s = chars_of(line);
    let p = chars_of(token);
    let n = s.len();
    let plen = p.len();
    if plen == 0 {
        proof {
            assert(s@.subrange(0int, 0int + p@.len()) =~= p@);
        }
        return true;
    }
    if plen > n {
        return false;
    }
    let mut i: usize = 0;
    while i <= n - plen
        invariant
            n == s@.len(),
            plen == p@.len(),
            0 < plen <= n,
            s@ == line@,
            p@ == token@,
            0 <= i <= n - plen + 1,
            forall|j: int| 0 <= j < i ==> #[trigger] s@.subrange(j, j + plen) != p@,
        decreases n - plen + 1 - i,
    {
        if matches_at(&s, &p, i) {
            return true;
        }
        i = i + 1;
    }
    false
}

/// The text of an optional value.
pub open spec fn opt_text(o: Option<String>) -> Option<Seq<char>> {
    match o {
        Some(v) => Some(v@),
        None => None,
    }
}

/// The texts of optional values.
pub open spec fn opt_texts(values: Seq<Option<String>>) -> Seq<Option<Seq<char>>> {
    values.map_values(|o: Option<String>| opt_text(o))
}

/// A line once steps `0..k` have filled in their placeholder; a step whose
/// value is absent leaves the line as it is.
pub open spec fn expanded(line: Seq<char>, values: Seq<Option<Seq<char>>>, k: int) -> Seq<char>
    decreases k,
{
    if k <= 0 {
        line
    } else {
        let prev = expanded(line, values, k - 1);
        match values[k - 1] {
            Some(v) => replaced(prev, placeholders()[k - 1], v),
            None => prev,
        }
    }
}

/// Replacing a pattern that does not occur leaves the text as it is.
pub proof fn law_absent_placeholder_unchanged(s: Seq<char>, p: Seq<char>, v: Seq<char>)
    requires
        !mentions(s, p),
    ensures
        replaced(s, p, v) == s,
    decreases s.len(),
{
    if p.len() == 0 {
        assert(s.subrange(0, 0) == p);
    } else if s.len() >= p.len() {
        let head = s.subrange(0, 0int + p.len());
        assert(head != p);
        assert(head =~= s.take(p.len() as int));
        let t = s.skip(1);
        assert forall|i: int| 0 <= i && i + p.len() <= t.len() implies #[trigger] t.subrange(i, i + p.len()) != p by {
            assert(t.subrange(i, i + p.len()) =~= s.subrange(i + 1, i + 1 + p.len()));
        }
        law_absent_placeholder_unchanged(t, p, v);
        assert(seq![s[0]] + t =~= s);
    }
}

/// One line with every placeholder that has a value filled in, in order.
fn expand_line(line: &String, values: &[Option<String>]) -> (r: String)
    requires
        values@.len() == PLACEHOLDER_COUNT,
    ensures
        r@ == expanded(line@, opt_texts(values@), PLACEHOLDER_COUNT as int),
{
    proof {
        lemma_placeholders_nonempty();
    }
    let mut cur = line.clone();
    let mut k: usize = 0;
    while k < PLACEHOLDER_COUNT
        invariant
            values@.len() == PLACEHOLDER_COUNT,
            0 <= k <= PLACEHOLDER_COUNT,
            cur@ == expanded(line@, opt_texts(values@), k as int),
            placeholders().len() == PLACEHOLDER_COUNT,
            forall|i: int| 0 <= i < PLACEHOLDER_COUNT ==> (#[trigger] placeholders()[i]).len() > 0,
        decreases PLACEHOLDER_COUNT - k,
    {
        proof {
            assert(opt_texts(values@)[k as int] == opt_text(values@[k as int]));
        }
        match &values[k] {
            Some(v) => {
                let token = placeholder(k);
                if contains_text(cur.as_str(), token) {
                    cur = replace_all(cur.as_str(), token, v.as_str());
                } else {
                    proof {
                        law_absent_placeholder_unchanged(cur@, token@, v@);
                    }
                }
            },
            None => {},
        }
        k = k + 1;
    }
    cur
}

/// The dialogue lines with every placeholder that has a value filled in.
/// `values[i]` is the value of `placeholders()[i]`; placeholders are filled
/// in that order, so a value may itself hold a later placeholder.
pub fn expand_npc_placeholders(lines: Vec<String>, values: &[Option<String>]) -> (r: Vec<String>)
    requires
        values@.len() == PLACEHOLDER_COUNT,
    ensures
        r@.len() == lines@.len(),
        forall|i: int| 0 <= i < lines@.len() ==> #[trigger] r@[i]@ == expanded(lines@[i]@, opt_texts(values@), PLACEHOLDER_COUNT as int),
{
    let mut out: Vec<String> = Vec::new();
    let mut i: usize = 0;
    while i < lines.len()
        invariant
            values@.len() == PLACEHOLDER_COUNT,
            0 <= i <= lines@.len(),
            out@.len() == i,
            forall|j: int| 0 <= j < i ==> #[trigger] out@[j]@ == expanded(lines@[j]@, opt_texts(values@), PLACEHOLDER_COUNT as int),
        decreases lines@.len() - i,
    {
        let line = expand_line(&lines[i], values);
        out.push(line);
        i = i + 1;
    }
    out
}

/// Which placeholders some line mentions: only those need a value.
pub fn needed_placeholders(lines: &[String]) -> (r: Vec<bool>)
    ensures
        r@.len() == PLACEHOLDER_COUNT,
        forall|k: int| 0 <= k < PLACEHOLDER_COUNT ==> #[trigger] r@[k] == (exists|j: int|
            0 <= j < lines@.len() && mentions(#[trigger] lines@[j]@, placeholders()[k])),
{
    let mut out: Vec<bool> = Vec::new();
    let mut k: usize = 0;
    while k < PLACEHOLDER_COUNT
        invariant
            0 <= k <= PLACEHOLDER_COUNT,
            out@.len() == k,
            forall|q: int| 0 <= q < k ==> #[trigger] out@[q] == (exists|j: int|
                0 <= j < lines@.len() && mentions(#[trigger] lines@[j]@, placeholders()[q])),
        decreases PLACEHOLDER_COUNT - k,
    {
        let token = placeholder(k);
        let mut found = false;
        let mut j: usize = 0;
        while j < lines.len()
            invariant
                0 <= j <= lines@.len(),
                token@ == placeholders()[k as int],
                found == (exists|m: int| 0 <= m < j && mentions(#[trigger] lines@[m]@, token@)),
            decreases lines@.len() - j,
        {
            if contains_text(lines[j].as_str(), token) {
                found = true;
            }
            j = j + 1;
        }
        out.push(found);
        k = k + 1;
    }
    out
}

/// The class name `<$CLASS>` shows for a class number.
pub open spec fn class_text(class: u8) -> Seq<char> {
    if class == 0 {
        "Warrior"@
    } else if class == 1 {
        "Wizard"@
    } else if class == 2 {
        "Taoist"@
    } else if class == 3 {
        "Assassin"@
    } else {
        "Unknown"@
    }
}

/// The class name for a class number.
pub fn class_name(class: u8) -> (r: String)
    ensures
        r@ == class_text(class),
{
    match class {
        0 => text("Warrior"),
        1 => text("Wizard"),
        2 => text("Taoist"),
        3 => text("Assassin"),
        _ => text("Unknown"),
    }
}

/// The NPC's name as `<$NPCNAME>` shows it: underscores become spaces.
pub fn npc_display_name(name: &str) -> (r: String)
    ensures
        r@ == replaced(name@, "_"@, " "@),
{
    proof {
        reveal_strlit("_");
    }
    replace_all(name, "_", " ")
}

/// `<$GUILDNAME>`: "No Guild" without a guild, else the name and " Guild".
pub fn guild_name_text(guild: &str) -> (r: String)
    ensures
        r@ == if guild@.len() == 0 { "No Guild"@ } else { guild@ + " Guild"@ },
{
    if guild.unicode_len() == 0 {
        text("No Guild")
    } else {
        join(text(guild), " Guild")
    }
}

/// `<$AGITGUILDNAME>`: "NO GUILD" without a guild, else the name.
pub fn agit_guild_name_text(guild: &str) -> (r: String)
    ensures
        r@ == if guild@.len() == 0 { "NO GUILD"@ } else { guild@ },
{
    if guild.unicode_len() == 0 {
        text("NO GUILD")
    } else {
        text(guild)
    }
}

/// `<$MOUNTLOYALTY>`: the mount's durability and its maximum in brackets,
/// or "No Mount" without one.
pub fn mount_loyalty_text(mount: Option<(u16, u16)>) -> (r: String)
    ensures
        r@ == match mount {
            Some((cur, max)) => decimal(cur as int) + " ("@ + decimal(max as int) + ")"@,
            None => "No Mount"@,
        },
{
    match mount {
        Some((cur, max)) => {
            let s = join(int_text(cur as i64), " (");
            let s = join(s, int_text(max as i64).as_str());
            join(s, ")")
        },
        None => text("No Mount"),
    }
}

/// `<$ROLLRESULT>`: the last roll, or "Not Rolled".
pub fn roll_result_text(roll: Option<String>) -> (r: String)
    ensures
        r@ == match roll {
            Some(v) => v@,
            None => "Not Rolled"@,
        },
{
    match roll {
        Some(v) => v,
        None => text("Not Rolled"),
    }
}


/// .NET ticks in a day.
pub const TICKS_PER_DAY: i64 = 864_000_000_000;

/// What the placeholders of a page are filled from, as plain values looked
/// up beforehand.
#[derive(Clone, Debug)]
pub struct PlaceholderFacts {
    /// The current character, if one is selected and found.
    pub character: Option<CharacterSummary>,
    /// The file name of the map the player stands on, if the map is known.
    pub map_file_name: Option<String>,
    pub x: i32,
    pub y: i32,
    /// Current HP and MP, if the world knows the player.
    pub hp_mp: Option<(i64, i64)>,
    /// Maximum HP and MP, if the world knows the player.
    pub max_hp_mp: Option<(i64, i64)>,
    /// Gold and credit, if the character's stats are loaded.
    pub gold_credit: Option<(i64, i64)>,
    /// PK points, if the world knows the player (else 0 is shown).
    pub pk_points: Option<i64>,
    /// Today's date as shown.
    pub date: String,
    /// How many players are online.
    pub user_count: i64,
    /// Letters waiting to be collected, if they could be counted.
    pub parcel_count: Option<i64>,
    /// The NPC's name as its script file names it.
    pub npc_name: Option<String>,
    /// The player's last NPC roll, if any.
    pub roll_result: Option<String>,
    /// The guild war's length and cost from the guild settings.
    pub war_time: i64,
    pub war_cost: i64,
    /// The gold a guild territory costs to buy, and to extend.
    pub buy_gt_gold: i64,
    pub extend_gt_gold: i64,
    /// The player's guild name, empty without a guild.
    pub player_guild: String,
    /// The end of that guild's territory rent in .NET ticks, if the guild
    /// is found.
    pub guild_gt_rent_ticks: Option<i64>,
    /// Now, in .NET ticks.
    pub now_ticks: i64,
    /// The rent's end as shown ("Never" or a local date and time).
    pub gt_expiry_text: String,
    /// The names of the equipped items by slot (none for an empty slot or
    /// an unknown item), if the world knows the player's items.
    pub equipment: Option<Vec<Option<String>>>,
    /// Durability and its maximum of the item in the mount slot, if any.
    pub mount_dura: Option<(u16, u16)>,
}

/// Division rounding toward zero, as Rust's `/` on signed integers.
pub open spec fn trunc_div(a: int, b: int) -> int {
    if a >= 0 { a / b } else { -((-a) / b) }
}

/// The facts can be shown: the days of rent left are computed without
/// overflow.
pub open spec fn facts_ok(f: PlaceholderFacts) -> bool {
    match f.guild_gt_rent_ticks {
        Some(t) => i64::MIN <= t - f.now_ticks <= i64::MAX,
        None => true,
    }
}

/// What an equipment placeholder shows: the item's name in the slot, or
/// the empty text; none when the player's items are unknown.
pub open spec fn slot_text(f: PlaceholderFacts, slot: int, empty: Seq<char>) -> Option<Seq<char>> {
    match f.equipment {
        None => None,
        Some(names) => Some(
            if slot < names@.len() && names@[slot] is Some {
                names@[slot]->0@
            } else {
                empty
            },
        ),
    }
}

/// The value of placeholder `k` (in the order of `placeholders()`), or none
/// when it stays as written.
pub open spec fn placeholder_value(k: int, f: PlaceholderFacts) -> Option<Seq<char>> {
    if k == 0 {
        match f.character { Some(c) => Some(c.name@), None => None }
    } else if k == 1 {
        match f.character { Some(c) => Some(decimal(c.level as int)), None => None }
    } else if k == 2 {
        match f.character { Some(c) => Some(class_text(c.class)), None => None }
    } else if k == 3 {
        opt_text(f.map_file_name)
    } else if k == 4 {
        Some(decimal(f.x as int))
    } else if k == 5 {
        Some(decimal(f.y as int))
    } else if k == 6 {
        match f.hp_mp { Some((h, _)) => Some(decimal(h as int)), None => None }
    } else if k == 7 {
        match f.max_hp_mp { Some((h, _)) => Some(decimal(h as int)), None => None }
    } else if k == 8 {
        match f.hp_mp { Some((_, m)) => Some(decimal(m as int)), None => None }
    } else if k == 9 {
        match f.max_hp_mp { Some((_, m)) => Some(decimal(m as int)), None => None }
    } else if k == 10 {
        match f.gold_credit { Some((g, _)) => Some(decimal(g as int)), None => None }
    } else if k == 11 {
        match f.gold_credit { Some((_, c)) => Some(decimal(c as int)), None => None }
    } else if k == 12 {
        Some(decimal(match f.pk_points { Some(p) => p as int, None => 0 }))
    } else if k == 13 {
        Some(f.date@)
    } else if k == 14 {
        Some(decimal(f.user_count as int))
    } else if k == 15 {
        match f.parcel_count { Some(n) => Some(decimal(n as int)), None => None }
    } else if k == 16 {
        match f.npc_name { Some(n) => Some(replaced(n@, "_"@, " "@)), None => None }
    } else if k == 17 {
        Some(match f.roll_result { Some(v) => v@, None => "Not Rolled"@ })
    } else if k == 18 {
        Some(decimal(f.war_time as int))
    } else if k == 19 {
        Some(decimal(f.war_cost as int))
    } else if k == 20 {
        Some(if f.player_guild@.len() == 0 { "No Guild"@ } else { f.player_guild@ + " Guild"@ })
    } else if k == 21 {
        Some(if f.player_guild@.len() == 0 { "NO GUILD"@ } else { f.player_guild@ })
    } else if k == 22 {
        Some(
            if f.player_guild@.len() == 0 {
                "0"@
            } else {
                match f.guild_gt_rent_ticks {
                    Some(t) => decimal(trunc_div(t - f.now_ticks, TICKS_PER_DAY as int)),
                    None => "0"@,
                }
            },
        )
    } else if k == 23 {
        Some(
            if f.player_guild@.len() == 0 {
                "None"@
            } else {
                match f.guild_gt_rent_ticks {
                    Some(t) => if t > f.now_ticks {
                        "Expire On: "@ + f.gt_expiry_text@ + " ,Extend fee: "@ + decimal(f.extend_gt_gold as int)
                    } else {
                        "None"@
                    },
                    None => "None"@,
                }
            },
        )
    } else if k == 24 {
        Some(decimal(f.buy_gt_gold as int))
    } else if k == 25 {
        slot_text(f, 1, "No Armour"@)
    } else if k == 26 {
        slot_text(f, 0, "No Weapon"@)
    } else if k == 27 {
        slot_text(f, 7, "No Ring"@)
    } else if k == 28 {
        slot_text(f, 8, "No Ring"@)
    } else if k == 29 {
        slot_text(f, 5, "No Bracelet"@)
    } else if k == 30 {
        slot_text(f, 6, "No Bracelet"@)
    } else if k == 31 {
        slot_text(f, 4, "No Necklace"@)
    } else if k == 32 {
        slot_text(f, 10, "No Belt"@)
    } else if k == 33 {
        slot_text(f, 11, "No Boots"@)
    } else if k == 34 {
        slot_text(f, 2, "No Helmet"@)
    } else if k == 35 {
        slot_text(f, 9, "No Amulet"@)
    } else if k == 36 {
        slot_text(f, 12, "No Stone"@)
    } else if k == 37 {
        slot_text(f, 3, "No Torch"@)
    } else if k == 38 {
        slot_text(f, 13, "No Mount"@)
    } else {
        match f.equipment {
            None => None,
            Some(_) => Some(
                match f.mount_dura {
                    Some((cur, max)) => decimal(cur as int) + " ("@ + decimal(max as int) + ")"@,
                    None => "No Mount"@,
                },
            ),
        }
    }
}

/// The values a page's placeholders are filled with: only those some line
/// mentions get one.
pub open spec fn page_values(lines: Seq<String>, f: PlaceholderFacts) -> Seq<Option<Seq<char>>> {
    Seq::new(
        PLACEHOLDER_COUNT as nat,
        |k: int|
            if exists|j: int| 0 <= j < lines.len() && mentions(#[trigger] lines[j]@, placeholders()[k]) {
                placeholder_value(k, f)
            } else {
                None
            },
    )
}

fn slot_name(f: &PlaceholderFacts, slot: usize, empty: &str) -> (r: Option<String>)
    ensures
        opt_text(r) == slot_text(*f, slot as int, empty@),
{
    match &f.equipment {
        None => None,
        Some(names) => {
            if slot < names.len() {
                match &names[slot] {
                    Some(n) => Some(n.clone()),
                    None => Some(text(empty)),
                }
            } else {
                Some(text(empty))
            }
        },
    }
}

fn days_left_text(t: i64, now: i64) -> (r: String)
    requires
        i64::MIN <= t - now <= i64::MAX,
    ensures
        r@ == decimal(trunc_div(t - now, TICKS_PER_DAY as int)),
{
    let delta: i64 = t - now;
    let days: i64 = if delta >= 0 {
        delta / TICKS_PER_DAY
    } else if delta == i64::MIN {
        -((i64::MAX / TICKS_PER_DAY))
    } else {
        -((-delta) / TICKS_PER_DAY)
    };
    proof {
        if delta == i64::MIN {
            assert((-(delta as int)) / (TICKS_PER_DAY as int) == (i64::MAX as int) / (TICKS_PER_DAY as int)) by (nonlinear_arith)
                requires
                    delta == i64::MIN,
            ;
        }
    }
    int_text(days)
}

/// The value of placeholder `k`.
pub fn placeholder_value_of(k: usize, f: &PlaceholderFacts) -> (r: Option<String>)
    requires
        k < PLACEHOLDER_COUNT,
        facts_ok(*f),
    ensures
        opt_text(r) == placeholder_value(k as int, *f),
{
    proof {
        reveal_strlit("_");
        reveal_strlit(" ");
    }
    if k == 0 {
        match &f.character { Some(c) => Some(c.name.clone()), None => None }
    } else if k == 1 {
        match &f.character { Some(c) => Some(int_text(c.level as i64)), None => None }
    } else if k == 2 {
        match &f.character { Some(c) => Some(class_name(c.class)), None => None }
    } else if k == 3 {
        match &f.map_file_name { Some(m) => Some(m.clone()), None => None }
    } else if k == 4 {
        Some(int_text(f.x as i64))
    } else if k == 5 {
        Some(int_text(f.y as i64))
    } else if k == 6 {
        match f.hp_mp { Some((h, _)) => Some(int_text(h)), None => None }
    } else if k == 7 {
        match f.max_hp_mp { Some((h, _)) => Some(int_text(h)), None => None }
    } else if k == 8 {
        match f.hp_mp { Some((_, m)) => Some(int_text(m)), None => None }
    } else if k == 9 {
        match f.max_hp_mp { Some((_, m)) => Some(int_text(m)), None => None }
    } else if k == 10 {
        match f.gold_credit { Some((g, _)) => Some(int_text(g)), None => None }
    } else if k == 11 {
        match f.gold_credit { Some((_, c)) => Some(int_text(c)), None => None }
    } else if k == 12 {
        Some(int_text(match f.pk_points { Some(p) => p, None => 0 }))
    } else if k == 13 {
        Some(f.date.clone())
    } else if k == 14 {
        Some(int_text(f.user_count))
    } else if k == 15 {
        match f.parcel_count { Some(n) => Some(int_text(n)), None => None }
    } else if k == 16 {
        match &f.npc_name { Some(n) => Some(npc_display_name(n.as_str())), None => None }
    } else if k == 17 {
        Some(match &f.roll_result { Some(v) => v.clone(), None => text("Not Rolled") })
    } else if k == 18 {
        Some(int_text(f.war_time))
    } else if k == 19 {
        Some(int_text(f.war_cost))
    } else if k == 20 {
        Some(guild_name_text(f.player_guild.as_str()))
    } else if k == 21 {
        Some(agit_guild_name_text(f.player_guild.as_str()))
    } else if k == 22 {
        if f.player_guild.as_str().unicode_len() == 0 {
            Some(text("0"))
        } else {
            match f.guild_gt_rent_ticks {
                Some(t) => Some(days_left_text(t, f.now_ticks)),
                None => Some(text("0")),
            }
        }
    } else if k == 23 {
        if f.player_guild.as_str().unicode_len() == 0 {
            Some(text("None"))
        } else {
            match f.guild_gt_rent_ticks {
                Some(t) => if t > f.now_ticks {
                    let s = join(text("Expire On: "), f.gt_expiry_text.as_str());
                    let s = join(s, " ,Extend fee: ");
                    Some(join(s, int_text(f.extend_gt_gold).as_str()))
                } else {
                    Some(text("None"))
                },
                None => Some(text("None")),
            }
        }
    } else if k == 24 {
        Some(int_text(f.buy_gt_gold))
    } else if k == 25 {
        slot_name(f, 1, "No Armour")
    } else if k == 26 {
        slot_name(f, 0, "No Weapon")
    } else if k == 27 {
        slot_name(f, 7, "No Ring")
    } else if k == 28 {
        slot_name(f, 8, "No Ring")
    } else if k == 29 {
        slot_name(f, 5, "No Bracelet")
    } else if k == 30 {
        slot_name(f, 6, "No Bracelet")
    } else if k == 31 {
        slot_name(f, 4, "No Necklace")
    } else if k == 32 {
        slot_name(f, 10, "No Belt")
    } else if k == 33 {
        slot_name(f, 11, "No Boots")
    } else if k == 34 {
        slot_name(f, 2, "No Helmet")
    } else if k == 35 {
        slot_name(f, 9, "No Amulet")
    } else if k == 36 {
        slot_name(f, 12, "No Stone")
    } else if k == 37 {
        slot_name(f, 3, "No Torch")
    } else if k == 38 {
        slot_name(f, 13, "No Mount")
    } else {
        match &f.equipment {
            None => None,
            Some(_) => Some(mount_loyalty_text(f.mount_dura)),
        }
    }
}

/// The values of the placeholders: placeholder `k` gets its value when
/// `needed[k]`, and none otherwise.
pub fn npc_placeholder_values(needed: &Vec<bool>, f: &PlaceholderFacts) -> (r: Vec<Option<String>>)
    requires
        needed@.len() == PLACEHOLDER_COUNT,
        facts_ok(*f),
    ensures
        r@.len() == PLACEHOLDER_COUNT,
        forall|k: int| 0 <= k < PLACEHOLDER_COUNT ==> #[trigger] opt_text(r@[k]) == if needed@[k] {
            placeholder_value(k, *f)
        } else {
            None
        },
{
    let mut out: Vec<Option<String>> = Vec::new();
    let mut k: usize = 0;
    while k < PLACEHOLDER_COUNT
        invariant
            needed@.len() == PLACEHOLDER_COUNT,
            facts_ok(*f),
            0 <= k <= PLACEHOLDER_COUNT,
            out@.len() == k,
            forall|q: int| 0 <= q < k ==> #[trigger] opt_text(out@[q]) == if needed@[q] {
                placeholder_value(q, *f)
            } else {
                None
            },
        decreases PLACEHOLDER_COUNT - k,
    {
        if needed[k] {
            out.push(placeholder_value_of(k, f));
        } else {
            out.push(None);
        }
        k = k + 1;
    }
    out
}

/// A page's lines with their placeholders filled from the facts: the values
/// of the placeholders some line mentions, filled in order.
pub fn expand_npc_page(lines: Vec<String>, f: &PlaceholderFacts) -> (r: Vec<String>)
    requires
        facts_ok(*f),
    ensures
        r@.len() == lines@.len(),
        forall|i: int| 0 <= i < lines@.len() ==> #[trigger] r@[i]@ == expanded(lines@[i]@, page_values(lines@, *f), PLACEHOLDER_COUNT as int),
{
    let needed = needed_placeholders(lines.as_slice());
    let values = npc_placeholder_values(&needed, f);
    proof {
        assert forall|k: int| 0 <= k < PLACEHOLDER_COUNT implies #[trigger] opt_texts(values@)[k] == page_values(lines@, *f)[k] by {
            assert(opt_texts(values@)[k] == opt_text(values@[k]));
        }
        assert(opt_texts(values@) =~= page_values(lines@, *f));
    }
    expand_npc_placeholders(lines, values.as_slice())
}

} // verus!
