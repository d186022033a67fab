//! NPC script pages: the text a page shows once its `#IF` segments are
//! decided, and the pages, moves and goods a script file declares.
use vstd::prelude::*;

use crate::npc_actions::{label_of, lemma_close_pos_bounds, find_close, same_chars, upper};
use crate::npc_script::{
    has_prefix, if_segment, law_segment_moves_past_if, process_if_segment, starts_with, strs, sub_chars, upper_chars, word_bounds,
    word_is, words_from,
};
use crate::quest_text::header_matches;
use crate::scan::{chars_of, lead_bound, parse_i32_in, parse_int, parse_u16_in, piece, trim_bounds, trim_start, trimmed};
use crate::session_rules::npc_key;
use crate::wire::string_texts;

verus! {

/// The lines of a `#SAY` block from line `j`, untrimmed, up to a line that
/// (once its leading whitespace is skipped) opens a label or is another
/// `#` directive than `#SAY`; and where the block ends.
pub open spec fn say_block(ls: Seq<Seq<char>>, j: int) -> (int, Seq<Seq<char>>)
    decreases ls.len() - j,
{
    if j < 0 || j >= ls.len() {
        (j, Seq::empty())
    } else {
        let t = trim_start(ls[j]);
        if starts_with(t, "[@"@) || (t.len() > 0 && t[0] == '#' && !header_matches(t, "#SAY"@)) {
            (j, Seq::empty())
        } else {
            let rest = say_block(ls, j + 1);
            (rest.0, seq![ls[j]] + rest.1)
        }
    }
}

/// Lines left from `i` on.
pub open spec fn left(n: int, i: int) -> int {
    if i < n {
        n - i
    } else {
        0
    }
}

/// A rendered page is shown only when some `#IF` condition was read and
/// some text came out.
pub open spec fn page_done(out: Seq<Seq<char>>, found: bool) -> Option<Seq<Seq<char>>> {
    if found && out.len() > 0 {
        Some(out)
    } else {
        None
    }
}

/// Rendering the page `target` from line `i`: whether the page has begun,
/// the text so far, and whether a condition was read so far.
pub open spec fn render_from(
    ls: Seq<Seq<char>>,
    target: Seq<char>,
    pk: int,
    i: int,
    in_page: bool,
    out: Seq<Seq<char>>,
    found: bool,
) -> Option<Seq<Seq<char>>>
    decreases left(ls.len() as int, i),
{
    if i < 0 || i >= ls.len() {
        page_done(out, found)
    } else {
        let t = trimmed(ls[i]);
        if starts_with(t, "[@"@) {
            match label_of(t) {
                Some(l) => if l == target {
                    render_from(ls, target, pk, i + 1, true, out, found)
                } else if in_page {
                    page_done(out, found)
                } else {
                    render_from(ls, target, pk, i + 1, in_page, out, found)
                },
                None => render_from(ls, target, pk, i + 1, in_page, out, found),
            }
        } else if !in_page {
            render_from(ls, target, pk, i + 1, in_page, out, found)
        } else if header_matches(t, "#IF"@) {
            match if_segment(ls, i, pk) {
                None => None,
                Some((seg, next, any)) => if next > i {
                    render_from(ls, target, pk, next, in_page, out + seg, found || any)
                } else {
                    None
                },
            }
        } else if header_matches(t, "#SAY"@) {
            let b = say_block(ls, i + 1);
            if b.0 > i {
                render_from(ls, target, pk, b.0, in_page, out + b.1, found)
            } else {
                None
            }
        } else {
            render_from(ls, target, pk, i + 1, in_page, out, found)
        }
    }
}

/// The page `key` as a player with `pk_points` sees it.
pub open spec fn rendered_page(lines: Seq<&str>, key: Seq<char>, pk: int) -> Option<Seq<Seq<char>>> {
    render_from(strs(lines), upper(key), pk, 0, false, Seq::empty(), false)
}

proof fn lemma_say_block_advances(ls: Seq<Seq<char>>, j: int)
    requires
        0 <= j,
    ensures
        say_block(ls, j).0 >= j,
    decreases ls.len() - j,
{
    if j < ls.len() {
        lemma_say_block_advances(ls, j + 1);
    }
}

/// Renders the page `key` of a script for a player with `pk_points`: the
/// page's `#IF` segments are decided and its `#SAY` blocks copied. None when
/// a segment cannot be read, or when no condition was read or no text came
/// out, so that the caller falls back to the plain page.
pub fn render_npc_page_with_if(lines: &[&str], key: &str, pk_points: i64) -> (r: Option<Vec<String>>)
    ensures
        match rendered_page(lines@, key@, pk_points as int) {
            Some(o) => r matches Some(v) && string_texts(v@) == o,
            None => r is None,
        },
{
    let ghost ls = strs(lines@);
    let ghost pk = pk_points as int;
    let target = upper_chars(&chars_of(key));
    let ghost tgt = target@;
    let ghost goal = rendered_page(lines@, key@, pk);
    let mut in_page = false;
    let mut found = false;
    let mut out: Vec<String> = Vec::new();
    let mut i: usize = 0;
    proof {
        reveal_strlit("[@");
        assert(string_texts(out@) =~= Seq::<Seq<char>>::empty());
    }
    while i < lines.len()
        invariant
            ls == strs(lines@),
            tgt == upper(key@),
            target@ == tgt,
            goal == rendered_page(lines@, key@, pk),
            pk == pk_points as int,
            goal == render_from(ls, tgt, pk, i as int, in_page, string_texts(out@), found),
            "[@"@ == seq!['[', '@'],
        ensures
            goal == page_done(string_texts(out@), found),
        decreases left(lines@.len() as int, i as int),
    {
        let line = lines[i];
        let cs = chars_of(line);
        let (a, b) = trim_bounds(&cs, 0, cs.len());
        proof {
            assert(cs@.subrange(0, cs@.len() as int) =~= cs@);
            assert(ls[i as int] == line@);
        }
        let tv = sub_chars(&cs, a, b);
        let ghost t = tv@;
        proof {
            assert(t.subrange(0, t.len() as int) =~= t);
        }
        if has_prefix(&tv, "[@") {
            let e = find_close(&tv);
            if e < tv.len() {
                proof {
                    assert(t.subrange(0, 2)[0] == '[');
                    lemma_close_pos_bounds(t, 1);
                }
                let label = upper_chars(&sub_chars(&tv, 1, e));
                if same_chars(&label, &target) {
                    in_page = true;
                } else if in_page {
                    break;
                }
            }
            i = i + 1;
        } else if !in_page {
            i = i + 1;
        } else if word_is(&tv, (0, tv.len()), "#IF") {
            proof {
                law_segment_moves_past_if(ls, i as int, pk);
            }
            match process_if_segment(lines, i, pk_points) {
                None => {
                    return None;
                },
                Some((mut seg, next, any)) => {
                    let ghost before = string_texts(out@);
                    proof {
                        assert(string_texts(out@ + seg@) =~= before + string_texts(seg@));
                    }
                    out.append(&mut seg);
                    if any {
                        found = true;
                    }
                    i = next;
                },
            }
        } else if word_is(&tv, (0, tv.len()), "#SAY") {
            let ghost start = i + 1;
            proof {
                lemma_say_block_advances(ls, start as int);
            }
            let ghost base = string_texts(out@);
            i = i + 1;
            while i < lines.len()
                invariant
                    ls == strs(lines@),
                    start <= i <= lines@.len(),
                    say_block(ls, start as int).0 == say_block(ls, i as int).0,
                    base + say_block(ls, start as int).1 == string_texts(out@) + say_block(ls, i as int).1,
                    "[@"@ == seq!['[', '@'],
                ensures
                    start <= i <= lines@.len(),
                    say_block(ls, start as int).0 == i,
                    base + say_block(ls, start as int).1 == string_texts(out@),
                decreases lines@.len() - i,
            {
                let l = lines[i];
                let lc = chars_of(l);
                let s0 = lead_bound(&lc);
                let ts = sub_chars(&lc, s0, lc.len());
                proof {
                    assert(ls[i as int] == l@);
                    assert(ts@.subrange(0, ts@.len() as int) =~= ts@);
                }
                if has_prefix(&ts, "[@") || (ts.len() > 0 && ts[0] == '#' && !word_is(&ts, (0, ts.len()), "#SAY")) {
                    proof {
                        assert(say_block(ls, i as int).1 =~= Seq::<Seq<char>>::empty());
                        assert(string_texts(out@) + say_block(ls, i as int).1 =~= string_texts(out@));
                    }
                    break;
                }
                let ghost prev = string_texts(out@);
                out.push(crate::text::text(l));
                proof {
                    assert(string_texts(out@) =~= prev.push(l@));
                    assert(seq![ls[i as int]] + say_block(ls, i + 1).1 == say_block(ls, i as int).1);
                    assert(prev + say_block(ls, i as int).1 =~= string_texts(out@) + say_block(ls, i + 1).1);
                }
                i = i + 1;
            }
        } else {
            i = i + 1;
        }
    }
    if found && out.len() > 0 {
        Some(out)
    } else {
        None
    }
}

/// A goods line: the item name and the count, 1 unless the second word
/// reads as a `u16`.
pub open spec fn trade_good(t: Seq<char>) -> (Seq<char>, u16) {
    let w = words_from(t, 0);
    (w[0], if w.len() >= 2 && parse_int(w[1], 0, u16::MAX as int, false) is Some {
        parse_int(w[1], 0, u16::MAX as int, false)->0 as u16
    } else {
        1u16
    })
}

/// After the first `n` lines: inside a `[Trade]` section, and the goods so
/// far. A line starting with '[' ends a section and opens one when it
/// starts with "[TRADE]" in any ASCII case.
pub open spec fn goods_state(ls: Seq<Seq<char>>, n: int) -> (bool, Seq<(Seq<char>, u16)>)
    decreases n,
{
    if n <= 0 {
        (false, Seq::empty())
    } else {
        let prev = goods_state(ls, n - 1);
        let t = trimmed(ls[n - 1]);
        if t.len() > 0 && t[0] == '[' {
            (starts_with(upper(t), "[TRADE]"@), prev.1)
        } else if prev.0 && t.len() > 0 && words_from(t, 0).len() > 0 {
            (true, prev.1.push(trade_good(t)))
        } else {
            prev
        }
    }
}

/// The goods of the `[Trade]` sections of a script, as (item name, count).
pub fn parse_npc_trade_goods(lines: &[&str]) -> (r: Vec<(String, u16)>)
    ensures
        r@.map_values(|g: (String, u16)| (g.0@, g.1)) == goods_state(strs(lines@), lines@.len() as int).1,
{
    let ghost ls = strs(lines@);
    let mut in_trade = false;
    let mut goods: Vec<(String, u16)> = Vec::new();
    let mut i: usize = 0;
    proof {
        assert(goods@.map_values(|g: (String, u16)| (g.0@, g.1)) =~= Seq::<(Seq<char>, u16)>::empty());
    }
    while i < lines.len()
        invariant
            0 <= i <= lines@.len(),
            ls == strs(lines@),
            in_trade == goods_state(ls, i as int).0,
            goods@.map_values(|g: (String, u16)| (g.0@, g.1)) == goods_state(ls, i as int).1,
        decreases lines@.len() - i,
    {
        let line = lines[i];
        let cs = chars_of(line);
        let (a, b) = trim_bounds(&cs, 0, cs.len());
        proof {
            assert(cs@.subrange(0, cs@.len() as int) =~= cs@);
            assert(ls[i as int] == line@);
        }
        let tv = sub_chars(&cs, a, b);
        if tv.len() > 0 && tv[0] == '[' {
            let u = upper_chars(&tv);
            in_trade = has_prefix(&u, "[TRADE]");
        } else if in_trade && tv.len() > 0 {
            let wb = word_bounds(&tv);
            proof {
                assert forall|q: int| 0 <= q < wb@.len() implies (#[trigger] wb@[q]).0 <= wb@[q].1 <= tv@.len() by {}
            }
            if wb.len() > 0 {
                let t = piece(line, a, b);
                let name = piece(t.as_str(), wb[0].0, wb[0].1);
                let mut count: u16 = 1;
                if wb.len() >= 2 {
                    match parse_u16_in(&tv, wb[1].0, wb[1].1) {
                        Some(v) => {
                            count = v;
                        },
                        None => {},
                    }
                }
                let ghost prev = goods@;
                goods.push((name, count));
                proof {
                    assert(goods@.map_values(|g: (String, u16)| (g.0@, g.1)) =~= prev.map_values(
                        |g: (String, u16)| (g.0@, g.1),
                    ).push(trade_good(tv@)));
                }
            }
        }
        i = i + 1;
    }
    goods
}

/// A `MOVE` destination: map name, x and y.
pub type MoveTarget = (Seq<char>, i32, i32);

/// Word `k` as an `i32`, or 0 when it is missing or does not read.
pub open spec fn i32_or_zero(w: Seq<Seq<char>>, k: int) -> i32 {
    if w.len() > k && parse_int(w[k], i32::MIN as int, i32::MAX as int, true) is Some {
        parse_int(w[k], i32::MIN as int, i32::MAX as int, true)->0 as i32
    } else {
        0i32
    }
}

/// Reading an `#ACT` block from line `j` for its `MOVE`: blank lines are
/// skipped; a label or directive line ends the block, and reading resumes
/// on the line before it; the first `MOVE` ends the block too, and reading
/// resumes on it, with its destination when it names a map.
pub open spec fn act_move(ls: Seq<Seq<char>>, j: int) -> (int, Option<MoveTarget>)
    decreases ls.len() - j,
{
    if j < 0 || j >= ls.len() {
        (j, None)
    } else {
        let t = trimmed(ls[j]);
        let w = words_from(t, 0);
        if t.len() == 0 {
            act_move(ls, j + 1)
        } else if starts_with(t, "[@"@) || t[0] == '#' {
            (j - 1, None)
        } else if w.len() > 0 && header_matches(w[0], "MOVE"@) {
            (j, if w.len() >= 2 { Some((w[1], i32_or_zero(w, 2), i32_or_zero(w, 3))) } else { None })
        } else {
            act_move(ls, j + 1)
        }
    }
}

/// Reading a script from line `i` under `label`, with the pages and moves
/// so far: the pages and moves at the end, or none when the reading never
/// ends (an `#ACT` under a label directly followed by a label or directive
/// line sends it back to the `#ACT` line).
pub open spec fn script_from(
    ls: Seq<Seq<char>>,
    i: int,
    label: Option<Seq<char>>,
    pages: Map<Seq<char>, Seq<Seq<char>>>,
    moves: Map<Seq<char>, MoveTarget>,
) -> Option<(Map<Seq<char>, Seq<Seq<char>>>, Map<Seq<char>, MoveTarget>)>
    decreases left(ls.len() as int, i),
{
    if i < 0 || i >= ls.len() {
        Some((pages, moves))
    } else {
        let t = trimmed(ls[i]);
        if starts_with(t, "[@"@) {
            script_from(ls, i + 1, label_of(t), pages, moves)
        } else {
            match label {
                None => script_from(ls, i + 1, label, pages, moves),
                Some(l) => if header_matches(t, "#SAY"@) {
                    let b = say_block(ls, i + 1);
                    if b.0 > i {
                        script_from(ls, b.0, label, pages.insert(l, b.1), moves)
                    } else {
                        None
                    }
                } else if header_matches(t, "#ACT"@) {
                    let a = act_move(ls, i + 1);
                    if a.0 > i {
                        script_from(
                            ls,
                            a.0,
                            label,
                            pages,
                            match a.1 {
                                Some(m) => moves.insert(l, m),
                                None => moves,
                            },
                        )
                    } else {
                        None
                    }
                } else {
                    script_from(ls, i + 1, label, pages, moves)
                },
            }
        }
    }
}

/// The pages and moves a script declares.
pub open spec fn script_of(lines: Seq<&str>) -> Option<(Map<Seq<char>, Seq<Seq<char>>>, Map<Seq<char>, MoveTarget>)> {
    script_from(strs(lines), 0, None, Map::empty(), Map::empty())
}

/// The pages of a script, keyed by upper-cased label; a later page for a
/// label replaces an earlier one.
pub open spec fn page_map(v: Seq<(String, Vec<String>)>) -> Map<Seq<char>, Seq<Seq<char>>>
    decreases v.len(),
{
    if v.len() == 0 {
        Map::empty()
    } else {
        page_map(v.drop_last()).insert(v.last().0@, string_texts(v.last().1@))
    }
}

/// The moves of a script, keyed by upper-cased label; a later move for a
/// label replaces an earlier one.
pub open spec fn move_map(v: Seq<(String, (String, i32, i32))>) -> Map<Seq<char>, MoveTarget>
    decreases v.len(),
{
    if v.len() == 0 {
        Map::empty()
    } else {
        move_map(v.drop_last()).insert(v.last().0@, (v.last().1.0@, v.last().1.1, v.last().1.2))
    }
}

/// An NPC script's `#SAY` pages and `#ACT` moves, in the order the script
/// declares them.
pub struct NpcScript {
    pub pages: Vec<(String, Vec<String>)>,
    pub moves: Vec<(String, (String, i32, i32))>,
}

impl NpcScript {
    /// The pages by label.
    pub open spec fn page_view(&self) -> Map<Seq<char>, Seq<Seq<char>>> {
        page_map(self.pages@)
    }

    /// The moves by label.
    pub open spec fn move_view(&self) -> Map<Seq<char>, MoveTarget> {
        move_map(self.moves@)
    }
}

proof fn lemma_act_move_bounds(ls: Seq<Seq<char>>, j: int)
    requires
        1 <= j,
    ensures
        j - 1 <= act_move(ls, j).0,
    decreases ls.len() - j,
{
    if j < ls.len() {
        lemma_act_move_bounds(ls, j + 1);
    }
}

/// Reads the `#ACT` block from line `j`: where reading resumes and the
/// block's move.
fn read_act_move(lines: &[&str], j: usize) -> (r: (usize, Option<(String, i32, i32)>))
    requires
        1 <= j <= lines@.len(),
    ensures
        r.0 == act_move(strs(lines@), j as int).0,
        match act_move(strs(lines@), j as int).1 {
            Some(m) => r.1 matches Some((name, x, y)) && (name@, x, y) == m,
            None => r.1 is None,
        },
{
    let ghost ls = strs(lines@);
    let mut k: usize = j;
    proof {
        reveal_strlit("[@");
    }
    while k < lines.len()
        invariant
            1 <= j <= k <= lines@.len(),
            ls == strs(lines@),
            act_move(ls, j as int) == act_move(ls, k as int),
            "[@"@ == seq!['[', '@'],
        decreases lines@.len() - k,
    {
        let line = lines[k];
        let cs = chars_of(line);
        let (a, b) = trim_bounds(&cs, 0, cs.len());
        proof {
            assert(cs@.subrange(0, cs@.len() as int) =~= cs@);
            assert(ls[k as int] == line@);
        }
        if a < b {
            let tv = sub_chars(&cs, a, b);
            if has_prefix(&tv, "[@") || tv[0] == '#' {
                return (k - 1, None);
            }
            let wb = word_bounds(&tv);
            proof {
                assert forall|q: int| 0 <= q < wb@.len() implies (#[trigger] wb@[q]).0 <= wb@[q].1 <= tv@.len() by {}
            }
            if wb.len() > 0 && word_is(&tv, wb[0], "MOVE") {
                if wb.len() >= 2 {
                    let t = piece(line, a, b);
                    let map_name = piece(t.as_str(), wb[1].0, wb[1].1);
                    let x = if wb.len() > 2 {
                        match parse_i32_in(&tv, wb[2].0, wb[2].1) {
                            Some(v) => v,
                            None => 0i32,
                        }
                    } else {
                        0i32
                    };
                    let y = if wb.len() > 3 {
                        match parse_i32_in(&tv, wb[3].0, wb[3].1) {
                            Some(v) => v,
                            None => 0i32,
                        }
                    } else {
                        0i32
                    };
                    return (k, Some((map_name, x, y)));
                }
                return (k, None);
            }
        }
        k = k + 1;
    }
    (k, None)
}

/// The text of an optional label.
pub open spec fn label_view(l: Option<String>) -> Option<Seq<char>> {
    match l {
        Some(s) => Some(s@),
        None => None,
    }
}

/// Reads an NPC script: each `#SAY` block under a label becomes that
/// label's page (its lines untrimmed), and the first `MOVE` of an `#ACT`
/// block under a label becomes that label's move. None when the reading
/// would never end: an `#ACT` under a label directly followed by a label
/// or directive line.
pub fn parse_npc_script(lines: &[&str]) -> (r: Option<NpcScript>)
    ensures
        match script_of(lines@) {
            Some((pages, moves)) => r matches Some(s) && s.page_view() == pages && s.move_view() == moves,
            None => r is None,
        },
{
    let ghost ls = strs(lines@);
    let ghost goal = script_of(lines@);
    let mut label: Option<String> = None;
    let mut pages: Vec<(String, Vec<String>)> = Vec::new();
    let mut moves: Vec<(String, (String, i32, i32))> = Vec::new();
    let mut i: usize = 0;
    proof {
        reveal_strlit("[@");
        assert(page_map(pages@) =~= Map::<Seq<char>, Seq<Seq<char>>>::empty());
        assert(move_map(moves@) =~= Map::<Seq<char>, MoveTarget>::empty());
    }
    while i < lines.len()
        invariant
            ls == strs(lines@),
            goal == script_of(lines@),
            goal == script_from(ls, i as int, label_view(label), page_map(pages@), move_map(moves@)),
            "[@"@ == seq!['[', '@'],
        decreases left(lines@.len() as int, i as int),
    {
        let line = lines[i];
        let cs = chars_of(line);
        let (a, b) = trim_bounds(&cs, 0, cs.len());
        proof {
            assert(cs@.subrange(0, cs@.len() as int) =~= cs@);
            assert(ls[i as int] == line@);
        }
        let tv = sub_chars(&cs, a, b);
        let ghost t = tv@;
        proof {
            assert(t.subrange(0, t.len() as int) =~= t);
        }
        if has_prefix(&tv, "[@") {
            let e = find_close(&tv);
            if e < tv.len() {
                proof {
                    assert(t.subrange(0, 2)[0] == '[');
                    lemma_close_pos_bounds(t, 1);
                }
                let inner = piece(piece(line, a, b).as_str(), 1, e);
                label = Some(crate::session_rules::ascii_uppercase(inner.as_str()));
            } else {
                label = None;
            }
            i = i + 1;
        } else if label.is_none() {
            i = i + 1;
        } else if word_is(&tv, (0, tv.len()), "#SAY") {
            let ghost start = i + 1;
            proof {
                lemma_say_block_advances(ls, start as int);
            }
            let mut page: Vec<String> = Vec::new();
            i = i + 1;
            while i < lines.len()
                invariant
                    ls == strs(lines@),
                    start <= i <= lines@.len(),
                    say_block(ls, start as int).0 == say_block(ls, i as int).0,
                    say_block(ls, start as int).1 == string_texts(page@) + say_block(ls, i as int).1,
                    "[@"@ == seq!['[', '@'],
                ensures
                    start <= i <= lines@.len(),
                    say_block(ls, start as int).0 == i,
                    say_block(ls, start as int).1 == string_texts(page@),
                decreases lines@.len() - i,
            {
                let l = lines[i];
                let lc = chars_of(l);
                let s0 = lead_bound(&lc);
                let ts = sub_chars(&lc, s0, lc.len());
                proof {
                    assert(ls[i as int] == l@);
                    assert(ts@.subrange(0, ts@.len() as int) =~= ts@);
                }
                if has_prefix(&ts, "[@") || (ts.len() > 0 && ts[0] == '#' && !word_is(&ts, (0, ts.len()), "#SAY")) {
                    proof {
                        assert(string_texts(page@) + say_block(ls, i as int).1 =~= string_texts(page@));
                    }
                    break;
                }
                let ghost prev = string_texts(page@);
                page.push(crate::text::text(l));
                proof {
                    assert(string_texts(page@) =~= prev.push(l@));
                    assert(prev + say_block(ls, i as int).1 =~= string_texts(page@) + say_block(ls, i + 1).1);
                }
                i = i + 1;
            }
            let ghost before = pages@;
            let key = match &label {
                Some(l) => l.clone(),
                None => String::new(),
            };
            pages.push((key, page));
            proof {
                assert(pages@.drop_last() == before);
            }
        } else if word_is(&tv, (0, tv.len()), "#ACT") {
            proof {
                lemma_act_move_bounds(ls, i + 1);
            }
            let (next, mv) = read_act_move(lines, i + 1);
            if next <= i {
                return None;
            }
            match mv {
                Some(m) => {
                    let ghost before = moves@;
                    let key = match &label {
                        Some(l) => l.clone(),
                        None => String::new(),
                    };
                    moves.push((key, m));
                    proof {
                        assert(moves@.drop_last() == before);
                    }
                },
                None => {},
            }
            i = next;
        } else {
            i = i + 1;
        }
    }
    Some(NpcScript { pages, moves })
}

/// No line from `i` on is an `#IF` line.
pub open spec fn no_if_from(ls: Seq<Seq<char>>, i: int) -> bool {
    forall|j: int| i <= j < ls.len() ==> !header_matches(#[trigger] trimmed(ls[j]), "#IF"@)
}

proof fn lemma_render_without_if(
    ls: Seq<Seq<char>>,
    target: Seq<char>,
    pk: int,
    i: int,
    in_page: bool,
    out: Seq<Seq<char>>,
)
    requires
        0 <= i,
        no_if_from(ls, i),
    ensures
        render_from(ls, target, pk, i, in_page, out, false) is None,
    decreases left(ls.len() as int, i),
{
    if i < ls.len() {
        let t = trimmed(ls[i]);
        assert(!header_matches(t, "#IF"@));
        if starts_with(t, "[@"@) {
            match label_of(t) {
                Some(l) => if l == target {
                    lemma_render_without_if(ls, target, pk, i + 1, true, out);
                } else if !in_page {
                    lemma_render_without_if(ls, target, pk, i + 1, in_page, out);
                },
                None => lemma_render_without_if(ls, target, pk, i + 1, in_page, out),
            }
        } else if !in_page {
            lemma_render_without_if(ls, target, pk, i + 1, in_page, out);
        } else if header_matches(t, "#SAY"@) {
            let b = say_block(ls, i + 1);
            if b.0 > i {
                lemma_render_without_if(ls, target, pk, b.0, in_page, out + b.1);
            }
        } else {
            lemma_render_without_if(ls, target, pk, i + 1, in_page, out);
        }
    }
}

/// A script with no `#IF` line renders no page, so the caller shows the
/// plain page instead.
pub proof fn law_pages_without_if_fall_back(lines: Seq<&str>, key: Seq<char>, pk: int)
    requires
        no_if_from(strs(lines), 0),
    ensures
        rendered_page(lines, key, pk) is None,
{
    lemma_render_without_if(strs(lines), upper(key), pk, 0, false, Seq::empty());
}

/// What a move destination is looked up in: a map's index and file name.
#[derive(Clone, Debug)]
pub struct MapName {
    pub index: i32,
    pub file_name: String,
}

/// The map a `MOVE` names: the number it reads as when a map has that
/// index; else the first map whose file name matches it without regard to
/// ASCII case; else none.
pub open spec fn move_destination(name: Seq<char>, maps: Seq<MapName>) -> Option<i32> {
    let n = parse_int(name, i32::MIN as int, i32::MAX as int, true);
    if n is Some && exists|k: int| 0 <= k < maps.len() && maps[k].index == n->0 {
        Some(n->0 as i32)
    } else if exists|k: int| 0 <= k < maps.len() && header_matches(#[trigger] maps[k].file_name@, name) {
        Some(maps[first_named(maps, name)].index)
    } else {
        None
    }
}

/// The first map whose file name matches, or the number of maps.
pub open spec fn first_named(maps: Seq<MapName>, name: Seq<char>) -> int
    decreases maps.len(),
{
    if maps.len() == 0 {
        0
    } else if header_matches(maps[0].file_name@, name) {
        0
    } else {
        1 + first_named(maps.drop_first(), name)
    }
}

proof fn lemma_first_named(maps: Seq<MapName>, name: Seq<char>, p: int)
    requires
        0 <= p <= maps.len(),
        forall|j: int| 0 <= j < p ==> !header_matches(#[trigger] maps[j].file_name@, name),
        p < maps.len() ==> header_matches(maps[p].file_name@, name),
    ensures
        first_named(maps, name) == p,
    decreases maps.len(),
{
    if maps.len() > 0 && p > 0 {
        let t = maps.drop_first();
        assert forall|j: int| 0 <= j < p - 1 implies !header_matches(#[trigger] t[j].file_name@, name) by {
            assert(t[j] == maps[j + 1]);
        }
        if p < maps.len() {
            assert(t[p - 1] == maps[p]);
        }
        lemma_first_named(t, name, p - 1);
    }
}

/// The map a `MOVE` command's map name sends the player to.
pub fn resolve_move_map(name: &str, maps: &[MapName]) -> (r: Option<i32>)
    ensures
        r == move_destination(name@, maps@),
{
    let cs = chars_of(name);
    proof {
        assert(cs@.subrange(0, cs@.len() as int) =~= cs@);
    }
    let ghost parsed = parse_int(name@, i32::MIN as int, i32::MAX as int, true);
    match parse_i32_in(&cs, 0, cs.len()) {
        Some(n) => {
            proof {
                assert(cs@ == name@);
                assert(parsed == Some(n as int));
            }
            let mut k: usize = 0;
            while k < maps.len()
                invariant
                    0 <= k <= maps@.len(),
                    parsed == Some(n as int),
                    parsed == parse_int(name@, i32::MIN as int, i32::MAX as int, true),
                    forall|j: int| 0 <= j < k ==> (#[trigger] maps@[j]).index != n,
                decreases maps@.len() - k,
            {
                if maps[k].index == n {
                    proof {
                        assert(maps@[k as int].index == parsed->0);
                    }
                    return Some(n);
                }
                k = k + 1;
            }
            proof {
                assert(!(exists|q: int| 0 <= q < maps@.len() && maps@[q].index == parsed->0));
            }
        },
        None => {},
    }
    let mut i: usize = 0;
    while i < maps.len()
        invariant
            0 <= i <= maps@.len(),
            parsed == parse_int(name@, i32::MIN as int, i32::MAX as int, true),
            !(parsed is Some && exists|q: int| 0 <= q < maps@.len() && maps@[q].index == parsed->0),
            forall|j: int| 0 <= j < i ==> !header_matches(#[trigger] maps@[j].file_name@, name@),
        decreases maps@.len() - i,
    {
        let fc = chars_of(maps[i].file_name.as_str());
        proof {
            assert(fc@.subrange(0, fc@.len() as int) =~= fc@);
        }
        if word_is(&fc, (0, fc.len()), name) {
            proof {
                lemma_first_named(maps@, name@, i as int);
                assert(header_matches(maps@[i as int].file_name@, name@));
            }
            return Some(maps[i].index);
        }
        i = i + 1;
    }
    None
}

proof fn lemma_page_map_tail(v: Seq<(String, Vec<String>)>, label: Seq<char>, i: int)
    requires
        0 <= i <= v.len(),
        forall|j: int| i <= j < v.len() ==> (#[trigger] v[j]).0@ != label,
    ensures
        page_map(v).contains_key(label) == page_map(v.take(i)).contains_key(label),
        page_map(v).contains_key(label) ==> page_map(v)[label] == page_map(v.take(i))[label],
    decreases v.len() - i,
{
    if i < v.len() {
        let w = v.drop_last();
        assert(w.take(i) =~= v.take(i));
        assert forall|j: int| i <= j < w.len() implies (#[trigger] w[j]).0@ != label by {
            assert(w[j] == v[j]);
        }
        lemma_page_map_tail(w, label, i);
    } else {
        assert(v.take(i) =~= v);
    }
}

proof fn lemma_move_map_tail(v: Seq<(String, (String, i32, i32))>, label: Seq<char>, i: int)
    requires
        0 <= i <= v.len(),
        forall|j: int| i <= j < v.len() ==> (#[trigger] v[j]).0@ != label,
    ensures
        move_map(v).contains_key(label) == move_map(v.take(i)).contains_key(label),
        move_map(v).contains_key(label) ==> move_map(v)[label] == move_map(v.take(i))[label],
    decreases v.len() - i,
{
    if i < v.len() {
        let w = v.drop_last();
        assert(w.take(i) =~= v.take(i));
        assert forall|j: int| i <= j < w.len() implies (#[trigger] w[j]).0@ != label by {
            assert(w[j] == v[j]);
        }
        lemma_move_map_tail(w, label, i);
    } else {
        assert(v.take(i) =~= v);
    }
}

fn same_text(a: &str, b: &str) -> (r: bool)
    ensures
        r == (a@ == b@),
{
    let x = chars_of(a);
    let y = chars_of(b);
    crate::npc_actions::same_chars(&x, &y)
}

impl NpcScript {
    /// The page with this label (the last one the script declares).
    pub fn page(&self, label: &str) -> (r: Option<&Vec<String>>)
        ensures
            match r {
                Some(p) => self.page_view().contains_key(label@) && string_texts(p@) == self.page_view()[label@],
                None => !self.page_view().contains_key(label@),
            },
    {
        let mut i: usize = self.pages.len();
        while i > 0
            invariant
                0 <= i <= self.pages@.len(),
                forall|j: int| i <= j < self.pages@.len() ==> (#[trigger] self.pages@[j]).0@ != label@,
            decreases i,
        {
            if same_text(self.pages[i - 1].0.as_str(), label) {
                proof {
                    lemma_page_map_tail(self.pages@, label@, i as int);
                    let t = self.pages@.take(i as int);
                    assert(t.drop_last() =~= self.pages@.take(i - 1));
                    assert(t.last() == self.pages@[i - 1]);
                }
                return Some(&self.pages[i - 1].1);
            }
            i = i - 1;
        }
        proof {
            lemma_page_map_tail(self.pages@, label@, 0);
            assert(self.pages@.take(0) =~= Seq::<(String, Vec<String>)>::empty());
        }
        None
    }

    /// The move with this label (the last one the script declares).
    pub fn move_to(&self, label: &str) -> (r: Option<&(String, i32, i32)>)
        ensures
            match r {
                Some(m) => self.move_view().contains_key(label@) && (m.0@, m.1, m.2) == self.move_view()[label@],
                None => !self.move_view().contains_key(label@),
            },
    {
        let mut i: usize = self.moves.len();
        while i > 0
            invariant
                0 <= i <= self.moves@.len(),
                forall|j: int| i <= j < self.moves@.len() ==> (#[trigger] self.moves@[j]).0@ != label@,
            decreases i,
        {
            if same_text(self.moves[i - 1].0.as_str(), label) {
                proof {
                    lemma_move_map_tail(self.moves@, label@, i as int);
                    let t = self.moves@.take(i as int);
                    assert(t.drop_last() =~= self.moves@.take(i - 1));
                    assert(t.last() == self.moves@[i - 1]);
                }
                return Some(&self.moves[i - 1].1);
            }
            i = i - 1;
        }
        proof {
            lemma_move_map_tail(self.moves@, label@, 0);
            assert(self.moves@.take(0) =~= Seq::<(String, (String, i32, i32))>::empty());
        }
        None
    }

    /// The page a default NPC shows for a key: for "@MAIN" (in any ASCII
    /// case) the "@MAIN-1" page when the script has one, else its "@MAIN"
    /// page; for any other key, that key's page.
    pub fn default_page(&self, key: &str) -> (r: Option<&Vec<String>>)
        ensures
            ({
                let pages = self.page_view();
                let wanted = if header_matches(key@, "@MAIN"@) {
                    if pages.contains_key("@MAIN-1"@) { "@MAIN-1"@ } else { "@MAIN"@ }
                } else {
                    key@
                };
                match r {
                    Some(p) => pages.contains_key(wanted) && string_texts(p@) == pages[wanted],
                    None => !pages.contains_key(wanted),
                }
            }),
    {
        let kc = chars_of(key);
        proof {
            assert(kc@.subrange(0, kc@.len() as int) =~= kc@);
        }
        if word_is(&kc, (0, kc.len()), "@MAIN") {
            match self.page("@MAIN-1") {
                Some(p) => Some(p),
                None => self.page("@MAIN"),
            }
        } else {
            self.page(key)
        }
    }
}

} // verus!
