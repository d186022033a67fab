//! The `#ACT` blocks of NPC scripts: which command lines run under a page
//! label, and the commands the game reads out of them.
use vstd::prelude::*;

use crate::npc_script::{has_prefix, starts_with, strs, sub_chars, upper_chars, word_bounds, word_is, words_from};
use crate::quest_text::{ascii_upper, header_matches};
use crate::scan::{chars_of, parse_i32_in, parse_i64_in, parse_int, parse_u8_in, piece, trim_bounds, trimmed};
use crate::session_rules::{normalize_npc_key, npc_key};

verus! {

/// Text with its ASCII letters upper-cased.
pub open spec fn upper(s: Seq<char>) -> Seq<char> {
    s.map_values(|c: char| ascii_upper(c))
}

/// The first position at or after `i` holding ']', or the length.
pub open spec fn close_pos(t: Seq<char>, i: int) -> int
    decreases t.len() - i,
{
    if i >= t.len() {
        t.len() as int
    } else if t[i] == ']' {
        i
    } else {
        close_pos(t, i + 1)
    }
}

/// The label a "[@..." line opens: the text after '[' up to the first ']',
/// upper-cased; none when the line has no ']'.
pub open spec fn label_of(t: Seq<char>) -> Option<Seq<char>> {
    let e = close_pos(t, 0);
    if e < t.len() {
        Some(upper(t.subrange(1, e)))
    } else {
        None
    }
}

/// Where a script reader stands: the current label, and whether it is
/// inside that label's `#ACT` block.
pub open spec fn act_step(st: (Option<Seq<char>>, bool), t: Seq<char>, target: Seq<char>) -> (Option<Seq<char>>, bool) {
    if starts_with(t, "[@"@) {
        (label_of(t), false)
    } else if st.0 != Some(target) {
        st
    } else if header_matches(t, "#ACT"@) {
        (st.0, true)
    } else if t.len() > 0 && t[0] == '#' {
        (st.0, false)
    } else {
        st
    }
}

/// The trimmed line `t`, read in state `st`, is a command of the `#ACT`
/// block under `target`.
pub open spec fn is_act_command(st: (Option<Seq<char>>, bool), t: Seq<char>, target: Seq<char>) -> bool {
    &&& !starts_with(t, "[@"@)
    &&& st.0 == Some(target)
    &&& !header_matches(t, "#ACT"@)
    &&& !(t.len() > 0 && t[0] == '#')
    &&& st.1
    &&& t.len() > 0
}

/// The reader's state after the first `n` lines.
pub open spec fn act_state(ls: Seq<Seq<char>>, target: Seq<char>, n: int) -> (Option<Seq<char>>, bool)
    decreases n,
{
    if n <= 0 {
        (None, false)
    } else {
        act_step(act_state(ls, target, n - 1), trimmed(ls[n - 1]), target)
    }
}

/// The trimmed command lines, in order, of the `#ACT` blocks under `target`
/// among the first `n` lines.
pub open spec fn act_commands(ls: Seq<Seq<char>>, target: Seq<char>, n: int) -> Seq<Seq<char>>
    decreases n,
{
    if n <= 0 {
        Seq::empty()
    } else {
        let prev = act_commands(ls, target, n - 1);
        let t = trimmed(ls[n - 1]);
        if is_act_command(act_state(ls, target, n - 1), t, target) {
            prev.push(t)
        } else {
            prev
        }
    }
}

/// The text of each string.
pub open spec fn string_views(v: Seq<String>) -> Seq<Seq<char>> {
    v.map_values(|s: String| s@)
}

pub(crate) fn same_chars(a: &Vec<char>, b: &Vec<char>) -> (r: bool)
    ensures
        r == (a@ == b@),
{
    if a.len() != b.len() {
        return false;
    }
    let mut i: usize = 0;
    while i < a.len()
        invariant
            a@.len() == b@.len(),
            0 <= i <= a@.len(),
            forall|k: int| 0 <= k < i ==> a@[k] == b@[k],
        decreases a@.len() - i,
    {
        if a[i] != b[i] {
            return false;
        }
        i = i + 1;
    }
    proof {
        assert(a@ =~= b@);
    }
    true
}

pub(crate) proof fn lemma_close_pos_bounds(t: Seq<char>, i: int)
    requires
        0 <= i <= t.len(),
    ensures
        i <= close_pos(t, i) <= t.len(),
    decreases t.len() - i,
{
    if i < t.len() && t[i] != ']' {
        lemma_close_pos_bounds(t, i + 1);
    }
}

pub(crate) fn find_close(t: &Vec<char>) -> (r: usize)
    ensures
        r == close_pos(t@, 0),
        r <= t@.len(),
{
    let mut i: usize = 0;
    while i < t.len()
        invariant
            0 <= i <= t@.len(),
            close_pos(t@, 0) == close_pos(t@, i as int),
        decreases t@.len() - i,
    {
        if t[i] == ']' {
            return i;
        }
        i = i + 1;
    }
    i
}

/// The trimmed command lines of the `#ACT` blocks under the label `key`,
/// compared without regard to ASCII case, in script order.
pub fn act_commands_of(lines: &[&str], key: &str) -> (r: Vec<String>)
    ensures
        string_views(r@) == act_commands(strs(lines@), upper(key@), lines@.len() as int),
{
    let ghost ls = strs(lines@);
    let target = upper_chars(&chars_of(key));
    let ghost tgt = target@;
    let mut on_target = false;
    let mut in_act = false;
    let mut out: Vec<String> = Vec::new();
    let mut i: usize = 0;
    proof {
        reveal_strlit("[@");
    }
    while i < lines.len()
        invariant
            0 <= i <= lines@.len(),
            ls == strs(lines@),
            tgt == upper(key@),
            target@ == tgt,
            on_target == (act_state(ls, tgt, i as int).0 == Some(tgt)),
            in_act == act_state(ls, tgt, i as int).1,
            string_views(out@) == act_commands(ls, tgt, i as int),
            "[@"@ == seq!['[', '@'],
        decreases lines@.len() - i,
    {
        let line = lines[i];
        let cs = chars_of(line);
        let (a, b) = trim_bounds(&cs, 0, cs.len());
        proof {
            assert(cs@.subrange(0, cs@.len() as int) =~= cs@);
            assert(ls[i as int] == line@);
        }
        let tv = sub_chars(&cs, a, b);
        let ghost t = tv@;
        let ghost st = act_state(ls, tgt, i as int);
        let ghost prev = out@;
        if has_prefix(&tv, "[@") {
            let e = find_close(&tv);
            if e < tv.len() {
                proof {
                    assert(t.subrange(0, 2)[0] == '[');
                    assert(t[0] == '[');
                    lemma_close_pos_bounds(t, 1);
                }
                let inner = sub_chars(&tv, 1, e);
                let label = upper_chars(&inner);
                on_target = same_chars(&label, &target);
            } else {
                on_target = false;
            }
            in_act = false;
        } else if !on_target {
        } else if word_is(&tv, (0, tv.len()), "#ACT") {
            proof {
                assert(t.subrange(0, t.len() as int) =~= t);
            }
            in_act = true;
        } else if tv.len() > 0 && tv[0] == '#' {
            proof {
                assert(t.subrange(0, t.len() as int) =~= t);
            }
            in_act = false;
        } else if in_act && tv.len() > 0 {
            proof {
                assert(t.subrange(0, t.len() as int) =~= t);
            }
            let cmd = piece(line, a, b);
            out.push(cmd);
            proof {
                assert(string_views(out@) =~= string_views(prev).push(t));
            }
        } else {
            proof {
                assert(t.subrange(0, t.len() as int) =~= t);
            }
        }
        i = i + 1;
    }
    out
}

/// The position of the first command whose words satisfy `pred`, or the
/// number of commands.
pub open spec fn first_where(cmds: Seq<Seq<char>>, pred: spec_fn(Seq<Seq<char>>) -> bool) -> int
    decreases cmds.len(),
{
    if cmds.len() == 0 {
        0
    } else if pred(words_from(cmds[0], 0)) {
        0
    } else {
        1 + first_where(cmds.drop_first(), pred)
    }
}

proof fn lemma_first_where(cmds: Seq<Seq<char>>, pred: spec_fn(Seq<Seq<char>>) -> bool, p: int)
    requires
        0 <= p <= cmds.len(),
        forall|j: int| 0 <= j < p ==> !pred(words_from(#[trigger] cmds[j], 0)),
        p < cmds.len() ==> pred(words_from(cmds[p], 0)),
    ensures
        first_where(cmds, pred) == p,
    decreases cmds.len(),
{
    if cmds.len() > 0 && p > 0 {
        let rest = cmds.drop_first();
        assert(!pred(words_from(cmds[0], 0)));
        assert forall|j: int| 0 <= j < p - 1 implies !pred(words_from(#[trigger] rest[j], 0)) by {
            assert(rest[j] == cmds[j + 1]);
        }
        if p < cmds.len() {
            assert(rest[p - 1] == cmds[p]);
        }
        lemma_first_where(rest, pred, p - 1);
    }
}

/// The commands of the `#ACT` blocks under `key`, read from the script's lines.
pub open spec fn commands_for(lines: Seq<&str>, key: Seq<char>) -> Seq<Seq<char>> {
    act_commands(strs(lines), upper(key), lines.len() as int)
}

/// A word is `name`, compared without regard to ASCII case.
pub open spec fn is_word(w: Seq<char>, name: Seq<char>) -> bool {
    header_matches(w, name)
}

/// `OPENBROWSER url`.
pub open spec fn opens_browser() -> spec_fn(Seq<Seq<char>>) -> bool {
    |w: Seq<Seq<char>>| w.len() >= 2 && is_word(w[0], "OPENBROWSER"@)
}

/// `EXPIRETIMER key`.
pub open spec fn expires_timer() -> spec_fn(Seq<Seq<char>>) -> bool {
    |w: Seq<Seq<char>>| w.len() >= 2 && is_word(w[0], "EXPIRETIMER"@)
}

/// `PLAYSOUND id`, the id an `i32`.
pub open spec fn plays_sound() -> spec_fn(Seq<Seq<char>>) -> bool {
    |w: Seq<Seq<char>>| w.len() >= 2 && is_word(w[0], "PLAYSOUND"@) && parse_int(w[1], i32::MIN as int, i32::MAX as int, true) is Some
}

/// `SETTIMER key seconds type [global]`, the seconds an `i32`, the type a `u8`.
pub open spec fn sets_timer() -> spec_fn(Seq<Seq<char>>) -> bool {
    |w: Seq<Seq<char>>| w.len() >= 4 && is_word(w[0], "SETTIMER"@) && parse_int(w[2], i32::MIN as int, i32::MAX as int, true) is Some
        && parse_int(w[3], 0, u8::MAX as int, false) is Some
}

/// `ROLLDIE page auto` or `ROLLYUT page auto`.
pub open spec fn rolls() -> spec_fn(Seq<Seq<char>>) -> bool {
    |w: Seq<Seq<char>>| w.len() >= 3 && (is_word(w[0], "ROLLDIE"@) || is_word(w[0], "ROLLYUT"@))
}

/// The words of the first command under `key` that `pred` accepts.
pub open spec fn first_command(lines: Seq<&str>, key: Seq<char>, pred: spec_fn(Seq<Seq<char>>) -> bool) -> Option<Seq<Seq<char>>> {
    let cmds = commands_for(lines, key);
    let k = first_where(cmds, pred);
    if k < cmds.len() {
        Some(words_from(cmds[k], 0))
    } else {
        None
    }
}

/// The command kinds the readers below look for, by number.
pub open spec fn command_pred(kind: u8) -> spec_fn(Seq<Seq<char>>) -> bool {
    if kind == 0 {
        opens_browser()
    } else if kind == 1 {
        expires_timer()
    } else if kind == 2 {
        plays_sound()
    } else if kind == 3 {
        sets_timer()
    } else {
        rolls()
    }
}

/// The first command of the given kind: its position among the commands
/// and its word bounds.
fn find_command(cmds: &Vec<String>, lines: &[&str], key: &str, kind: u8) -> (r: Option<(usize, Vec<(usize, usize)>)>)
    requires
        string_views(cmds@) == commands_for(lines@, key@),
    ensures
        match r {
            Some((i, wb)) => {
                let w = words_from(cmds@[i as int]@, 0);
                &&& i < cmds@.len()
                &&& first_command(lines@, key@, command_pred(kind)) == Some(w)
                &&& command_pred(kind)(w)
                &&& wb@.len() == w.len()
                &&& forall|k: int| 0 <= k < wb@.len() ==> (#[trigger] wb@[k]).0 <= wb@[k].1 <= cmds@[i as int]@.len()
                    && cmds@[i as int]@.subrange(wb@[k].0 as int, wb@[k].1 as int) == w[k]
            },
            None => first_command(lines@, key@, command_pred(kind)) is None,
        },
{
    let ghost all = commands_for(lines@, key@);
    let ghost pred = command_pred(kind);
    let mut i: usize = 0;
    while i < cmds.len()
        invariant
            0 <= i <= cmds@.len(),
            string_views(cmds@) == all,
            all == commands_for(lines@, key@),
            pred == command_pred(kind),
            forall|j: int| 0 <= j < i ==> !pred(words_from(#[trigger] all[j], 0)),
        decreases cmds@.len() - i,
    {
        let cs = chars_of(cmds[i].as_str());
        let wb = word_bounds(&cs);
        let ghost w = words_from(cs@, 0);
        proof {
            assert(all[i as int] == cmds@[i as int]@);
            assert forall|k: int| 0 <= k < wb@.len() implies (#[trigger] wb@[k]).0 <= wb@[k].1 <= cs@.len() by {}
        }
        let n = wb.len();
        let hit = if kind == 0 {
            n >= 2 && word_is(&cs, wb[0], "OPENBROWSER")
        } else if kind == 1 {
            n >= 2 && word_is(&cs, wb[0], "EXPIRETIMER")
        } else if kind == 2 {
            n >= 2 && word_is(&cs, wb[0], "PLAYSOUND") && parse_i32_in(&cs, wb[1].0, wb[1].1).is_some()
        } else if kind == 3 {
            n >= 4 && word_is(&cs, wb[0], "SETTIMER") && parse_i32_in(&cs, wb[2].0, wb[2].1).is_some()
                && parse_u8_in(&cs, wb[3].0, wb[3].1).is_some()
        } else {
            n >= 3 && (word_is(&cs, wb[0], "ROLLDIE") || word_is(&cs, wb[0], "ROLLYUT"))
        };
        if hit {
            proof {
                lemma_first_where(all, pred, i as int);
            }
            return Some((i, wb));
        }
        i = i + 1;
    }
    proof {
        lemma_first_where(all, pred, i as int);
    }
    None
}

/// The URL of the first `OPENBROWSER` command under `key`.
pub fn extract_open_browser_url(lines: &[&str], key: &str) -> (r: Option<String>)
    ensures
        match first_command(lines@, key@, opens_browser()) {
            Some(w) => r matches Some(u) && u@ == w[1],
            None => r is None,
        },
{
    let cmds = act_commands_of(lines, key);
    match find_command(&cmds, lines, key, 0) {
        Some((i, wb)) => Some(piece(cmds[i].as_str(), wb[1].0, wb[1].1)),
        None => None,
    }
}

/// The timer key of the first `EXPIRETIMER` command under `key`.
pub fn extract_expire_timer(lines: &[&str], key: &str) -> (r: Option<String>)
    ensures
        match first_command(lines@, key@, expires_timer()) {
            Some(w) => r matches Some(t) && t@ == w[1],
            None => r is None,
        },
{
    let cmds = act_commands_of(lines, key);
    match find_command(&cmds, lines, key, 1) {
        Some((i, wb)) => Some(piece(cmds[i].as_str(), wb[1].0, wb[1].1)),
        None => None,
    }
}

/// The sound id of the first `PLAYSOUND` command under `key` whose id reads
/// as an `i32`.
pub fn extract_play_sound(lines: &[&str], key: &str) -> (r: Option<i32>)
    ensures
        match first_command(lines@, key@, plays_sound()) {
            Some(w) => r == Some(parse_int(w[1], i32::MIN as int, i32::MAX as int, true)->0 as i32),
            None => r is None,
        },
{
    let cmds = act_commands_of(lines, key);
    match find_command(&cmds, lines, key, 2) {
        Some((i, wb)) => {
            let cs = chars_of(cmds[i].as_str());
            parse_i32_in(&cs, wb[1].0, wb[1].1)
        },
        None => None,
    }
}

/// The timer a `SETTIMER` command sets.
pub open spec fn timer_of(w: Seq<Seq<char>>) -> (Seq<char>, i32, u8, bool) {
    let secs = parse_int(w[2], i32::MIN as int, i32::MAX as int, true)->0;
    (
        w[1],
        if secs < 0 { 0i32 } else { secs as i32 },
        parse_int(w[3], 0, u8::MAX as int, false)->0 as u8,
        w.len() >= 5 && is_word(w[4], "true"@),
    )
}

/// The first `SETTIMER` command under `key` whose seconds and type read as
/// numbers: (timer key, seconds at least 0, type, global).
pub fn extract_set_timer(lines: &[&str], key: &str) -> (r: Option<(String, i32, u8, bool)>)
    ensures
        match first_command(lines@, key@, sets_timer()) {
            Some(w) => r matches Some((k, secs, ty, global)) && (k@, secs, ty, global) == timer_of(w),
            None => r is None,
        },
{
    let cmds = act_commands_of(lines, key);
    match find_command(&cmds, lines, key, 3) {
        Some((i, wb)) => {
            let line = cmds[i].as_str();
            let cs = chars_of(line);
            let secs = match parse_i32_in(&cs, wb[2].0, wb[2].1) {
                Some(v) => if v < 0 { 0i32 } else { v },
                None => 0i32,
            };
            let ty = match parse_u8_in(&cs, wb[3].0, wb[3].1) {
                Some(v) => v,
                None => 0u8,
            };
            let global = wb.len() >= 5 && word_is(&cs, wb[4], "true");
            Some((piece(line, wb[1].0, wb[1].1), secs, ty, global))
        },
        None => None,
    }
}

/// What a roll command asks for: 0 for a die, 1 for yut sticks; the page
/// to show; whether it rolls by itself.
pub open spec fn roll_of(w: Seq<Seq<char>>) -> (i32, Seq<char>, bool) {
    (if is_word(w[0], "ROLLDIE"@) { 0i32 } else { 1i32 }, w[1], is_word(w[2], "true"@))
}

/// The first `ROLLDIE` or `ROLLYUT` command under `key`.
pub fn extract_roll_action(lines: &[&str], key: &str) -> (r: Option<(i32, String, bool)>)
    ensures
        match first_command(lines@, key@, rolls()) {
            Some(w) => r matches Some((kind, page, auto)) && (kind, page@, auto) == roll_of(w),
            None => r is None,
        },
{
    let cmds = act_commands_of(lines, key);
    match find_command(&cmds, lines, key, 4) {
        Some((i, wb)) => {
            let line = cmds[i].as_str();
            let cs = chars_of(line);
            let kind: i32 = if word_is(&cs, wb[0], "ROLLDIE") { 0 } else { 1 };
            let auto = word_is(&cs, wb[2], "true");
            Some((kind, piece(line, wb[1].0, wb[1].1), auto))
        },
        None => None,
    }
}

/// The first line at or after `j` that is not blank once trimmed, or the
/// number of lines.
pub open spec fn next_filled(ls: Seq<Seq<char>>, j: int) -> int
    decreases ls.len() - j,
{
    if j >= ls.len() {
        ls.len() as int
    } else if trimmed(ls[j]).len() > 0 {
        j
    } else {
        next_filled(ls, j + 1)
    }
}

/// The page an `#ELSEACT` at line `j - 1` sends the player to: read from
/// the next non-blank line when it is `GOTO page`; a label or another `#`
/// line there names none.
pub open spec fn else_goto(ls: Seq<Seq<char>>, j: int) -> Option<Seq<char>> {
    let k = next_filled(ls, j);
    if k >= ls.len() {
        None
    } else {
        let t = trimmed(ls[k]);
        let w = words_from(t, 0);
        if starts_with(t, "[@"@) || t[0] == '#' {
            None
        } else if w.len() >= 2 && is_word(w[0], "GOTO"@) {
            Some(npc_key(w[1]))
        } else {
            None
        }
    }
}

/// The teleport reader's state after the first `n` lines: the label, inside
/// `#ACT`, the last gold price read, the last fail page read.
pub open spec fn teleport_state(ls: Seq<Seq<char>>, target: Seq<char>, n: int) -> (Option<Seq<char>>, bool, Option<int>, Option<Seq<char>>)
    decreases n,
{
    if n <= 0 {
        (None, false, None, None)
    } else {
        let prev = teleport_state(ls, target, n - 1);
        let t = trimmed(ls[n - 1]);
        let w = words_from(t, 0);
        if starts_with(t, "[@"@) {
            (label_of(t), false, prev.2, prev.3)
        } else if prev.0 != Some(target) {
            prev
        } else if is_word(t, "#ACT"@) {
            (prev.0, true, prev.2, prev.3)
        } else if is_word(t, "#ELSEACT"@) {
            (prev.0, false, prev.2, match else_goto(ls, n) {
                Some(g) => Some(g),
                None => prev.3,
            })
        } else if prev.1 && w.len() >= 2 && is_word(w[0], "TAKEGOLD"@) && parse_int(w[1], i64::MIN as int, i64::MAX as int, true) is Some {
            (prev.0, prev.1, parse_int(w[1], i64::MIN as int, i64::MAX as int, true), prev.3)
        } else {
            prev
        }
    }
}

/// What a paid teleport under `key` costs and where a player who cannot pay
/// goes: none when the page names neither.
pub open spec fn paid_teleport(lines: Seq<&str>, key: Seq<char>) -> Option<(int, Option<Seq<char>>)> {
    let st = teleport_state(strs(lines), upper(key), lines.len() as int);
    if st.2 is Some || st.3 is Some {
        Some((if st.2 is Some { st.2->0 } else { 0 }, st.3))
    } else {
        None
    }
}

proof fn lemma_next_filled_bounds(ls: Seq<Seq<char>>, j: int)
    requires
        0 <= j <= ls.len(),
    ensures
        j <= next_filled(ls, j) <= ls.len(),
    decreases ls.len() - j,
{
    if j < ls.len() && trimmed(ls[j]).len() == 0 {
        lemma_next_filled_bounds(ls, j + 1);
    }
}

/// The page named by the `GOTO` after an `#ELSEACT`, reading from line `j`.
fn else_goto_at(lines: &[&str], j: usize) -> (r: Option<String>)
    requires
        j <= lines@.len(),
    ensures
        match else_goto(strs(lines@), j as int) {
            Some(g) => r matches Some(s) && s@ == g,
            None => r is None,
        },
{
    let ghost ls = strs(lines@);
    let mut k: usize = j;
    proof {
        reveal_strlit("[@");
    }
    while k < lines.len()
        invariant
            j <= k <= lines@.len(),
            ls == strs(lines@),
            next_filled(ls, j as int) == next_filled(ls, k as int),
            "[@"@ == seq!['[', '@'],
        decreases lines@.len() - k,
    {
        let line = lines[k];
        let cs = chars_of(line);
        let (a, b) = trim_bounds(&cs, 0, cs.len());
        proof {
            assert(cs@.subrange(0, cs@.len() as int) =~= cs@);
            assert(ls[k as int] == line@);
        }
        if a < b {
            let tv = sub_chars(&cs, a, b);
            if has_prefix(&tv, "[@") || tv[0] == '#' {
                return None;
            }
            let wb = word_bounds(&tv);
            proof {
                assert forall|q: int| 0 <= q < wb@.len() implies (#[trigger] wb@[q]).0 <= wb@[q].1 <= tv@.len() by {}
            }
            if wb.len() >= 2 && word_is(&tv, wb[0], "GOTO") {
                let t = piece(line, a, b);
                let target = piece(t.as_str(), wb[1].0, wb[1].1);
                return Some(normalize_npc_key(target.as_str()));
            }
            return None;
        }
        k = k + 1;
    }
    None
}

/// Reads a paid teleport page: the gold its `#ACT` block takes (the last
/// `TAKEGOLD` read) and the page its `#ELSEACT` sends a player who cannot
/// pay to (the last such page read). None when the page names neither.
pub fn extract_paid_teleport_info(lines: &[&str], key: &str) -> (r: Option<(i64, Option<String>)>)
    ensures
        match paid_teleport(lines@, key@) {
            Some((price, fail)) => r matches Some((p, f)) && p == price && match fail {
                Some(g) => f matches Some(s) && s@ == g,
                None => f is None,
            },
            None => r is None,
        },
{
    let ghost ls = strs(lines@);
    let target = upper_chars(&chars_of(key));
    let ghost tgt = target@;
    let mut on_target = false;
    let mut in_act = false;
    let mut price: Option<i64> = None;
    let mut fail_goto: Option<String> = None;
    let mut i: usize = 0;
    proof {
        reveal_strlit("[@");
    }
    while i < lines.len()
        invariant
            0 <= i <= lines@.len(),
            ls == strs(lines@),
            tgt == upper(key@),
            target@ == tgt,
            ({
                let st = teleport_state(ls, tgt, i as int);
                &&& on_target == (st.0 == Some(tgt))
                &&& in_act == st.1
                &&& match st.2 {
                    Some(v) => i64::MIN <= v <= i64::MAX && price == Some(v as i64),
                    None => price is None,
                }
                &&& match st.3 {
                    Some(g) => fail_goto matches Some(s) && s@ == g,
                    None => fail_goto is None,
                }
            }),
            "[@"@ == seq!['[', '@'],
        decreases lines@.len() - i,
    {
        let line = lines[i];
        let cs = chars_of(line);
        let (a, b) = trim_bounds(&cs, 0, cs.len());
        proof {
            assert(cs@.subrange(0, cs@.len() as int) =~= cs@);
            assert(ls[i as int] == line@);
        }
        let tv = sub_chars(&cs, a, b);
        let ghost t = tv@;
        proof {
            assert(t.subrange(0, t.len() as int) =~= t);
        }
        if has_prefix(&tv, "[@") {
            let e = find_close(&tv);
            if e < tv.len() {
                proof {
                    assert(t.subrange(0, 2)[0] == '[');
                    lemma_close_pos_bounds(t, 1);
                }
                let label = upper_chars(&sub_chars(&tv, 1, e));
                on_target = same_chars(&label, &target);
            } else {
                on_target = false;
            }
            in_act = false;
        } else if !on_target {
        } else if word_is(&tv, (0, tv.len()), "#ACT") {
            in_act = true;
        } else if word_is(&tv, (0, tv.len()), "#ELSEACT") {
            in_act = false;
            match else_goto_at(lines, i + 1) {
                Some(g) => {
                    fail_goto = Some(g);
                },
                None => {},
            }
        } else if in_act {
            let wb = word_bounds(&tv);
            proof {
                assert forall|q: int| 0 <= q < wb@.len() implies (#[trigger] wb@[q]).0 <= wb@[q].1 <= tv@.len() by {}
            }
            if wb.len() >= 2 && word_is(&tv, wb[0], "TAKEGOLD") {
                match parse_i64_in(&tv, wb[1].0, wb[1].1) {
                    Some(v) => {
                        price = Some(v);
                    },
                    None => {},
                }
            }
        }
        i = i + 1;
    }
    if price.is_some() || fail_goto.is_some() {
        let p = match price {
            Some(v) => v,
            None => 0i64,
        };
        Some((p, fail_goto))
    } else {
        None
    }
}

/// No line of the script opens the label `target`.
pub open spec fn never_opened(ls: Seq<Seq<char>>, target: Seq<char>) -> bool {
    forall|j: int| 0 <= j < ls.len() ==> !(starts_with(#[trigger] trimmed(ls[j]), "[@"@) && label_of(trimmed(ls[j])) == Some(target))
}

proof fn lemma_unopened_label(ls: Seq<Seq<char>>, target: Seq<char>, n: int)
    requires
        0 <= n <= ls.len(),
        never_opened(ls, target),
    ensures
        act_state(ls, target, n).0 != Some(target),
        act_commands(ls, target, n) == Seq::<Seq<char>>::empty(),
    decreases n,
{
    if n > 0 {
        lemma_unopened_label(ls, target, n - 1);
        let t = trimmed(ls[n - 1]);
        assert(!(starts_with(t, "[@"@) && label_of(t) == Some(target)));
    }
}

/// Commands come only from a label the script opens: asking for a label
/// that no line opens gives no commands.
pub proof fn law_unopened_label_has_no_commands(lines: Seq<&str>, key: Seq<char>)
    requires
        never_opened(strs(lines), upper(key)),
    ensures
        commands_for(lines, key) == Seq::<Seq<char>>::empty(),
{
    lemma_unopened_label(strs(lines), upper(key), lines.len() as int);
}

} // verus!
