//! Quest text files: sections of lines under bracketed headers, task and
//! reward lines, and a translation table read from CSV rows.
use vstd::prelude::*;
use crate::scan::{chars_of, piece, is_ws, trimmed, trim_bounds, parse_int, parse_i32_in, parse_u16_in, parse_u32_in};

verus! {

/// A kill task as written in a quest file.
#[derive(Clone, Debug, PartialEq, Eq)]
pub struct QuestKillTask {
    pub monster_index: i32,
    pub count: i32,
    pub message: String,
}

/// An item task or carried item as written in a quest file.
#[derive(Clone, Debug, PartialEq, Eq)]
pub struct QuestItemTask {
    pub item_index: i32,
    pub count: u16,
    pub message: String,
}

/// A flag task as written in a quest file.
#[derive(Clone, Debug, PartialEq, Eq)]
pub struct QuestFlagTask {
    pub number: i32,
    pub message: String,
}

/// A reward as written in a quest file.
#[derive(Clone, Copy, Debug, PartialEq, Eq, Structural)]
pub struct QuestItemReward {
    pub item_index: i32,
    pub count: u16,
}

/// Everything a quest file holds.
#[derive(Clone, Debug, PartialEq, Eq, Default)]
pub struct QuestTextData {
    pub description: Vec<String>,
    pub task_description: Vec<String>,
    pub return_description: Vec<String>,
    pub completion_description: Vec<String>,
    pub carry_items: Vec<QuestItemTask>,
    pub kill_tasks: Vec<QuestKillTask>,
    pub item_tasks: Vec<QuestItemTask>,
    pub flag_tasks: Vec<QuestFlagTask>,
    pub fixed_rewards: Vec<QuestItemReward>,
    pub select_rewards: Vec<QuestItemReward>,
    pub exp_reward: u32,
    pub gold_reward: u32,
    pub credit_reward: u32,
}

/// The first position at or after `i` holding `c`, or the length.
pub open spec fn find_from(s: Seq<char>, c: char, i: int) -> int
    decreases s.len() - i,
{
    if i >= s.len() {
        s.len() as int
    } else if s[i] == c {
        i
    } else {
        find_from(s, c, i + 1)
    }
}

proof fn lemma_find_from(s: Seq<char>, c: char, i: int)
    requires
        0 <= i <= s.len(),
    ensures
        i <= find_from(s, c, i) <= s.len(),
        forall|k: int| i <= k < find_from(s, c, i) ==> #[trigger] s[k] != c,
        find_from(s, c, i) < s.len() ==> s[find_from(s, c, i)] == c,
    decreases s.len() - i,
{
    if i < s.len() && s[i] != c {
        lemma_find_from(s, c, i + 1);
    }
}

/// Finds `c` in `s` from position `i`.
fn find_char(s: &Vec<char>, c: char, i: usize) -> (r: usize)
    requires
        i <= s@.len(),
    ensures
        r == find_from(s@, c, i as int),
{
    let mut k: usize = i;
    while k < s.len()
        invariant
            i <= k <= s@.len(),
            find_from(s@, c, i as int) == find_from(s@, c, k as int),
        decreases s@.len() - k,
    {
        if s[k] == c {
            return k;
        }
        k = k + 1;
    }
    k
}

/// The text between the first double quote and the next one; empty when
/// either is missing.
pub open spec fn first_quoted(s: Seq<char>) -> Seq<char> {
    let a = find_from(s, '"', 0);
    let b = find_from(s, '"', a + 1);
    if a >= s.len() || b >= s.len() {
        Seq::empty()
    } else {
        s.subrange(a + 1, b)
    }
}

/// The text between the first two double quotes of a line.
pub fn extract_first_quoted(line: &str) -> (r: String)
    ensures
        r@ == first_quoted(line@),
{
    let cs = chars_of(line);
    let a = find_char(&cs, '"', 0);
    if a >= cs.len() {
        return String::new();
    }
    let b = find_char(&cs, '"', a + 1);
    if b >= cs.len() {
        return String::new();
    }
    proof {
        lemma_find_from(cs@, '"', 0);
        lemma_find_from(cs@, '"', a + 1);
    }
    piece(line, a + 1, b)
}

/// The first space-separated field of a line: the text before the first
/// space.
pub open spec fn first_field(s: Seq<char>) -> Seq<char> {
    s.subrange(0, find_from(s, ' ', 0))
}

/// The second space-separated field, when the line has a space.
pub open spec fn second_field(s: Seq<char>) -> Option<Seq<char>> {
    let a = find_from(s, ' ', 0);
    if a >= s.len() {
        None
    } else {
        Some(s.subrange(a + 1, find_from(s, ' ', a + 1)))
    }
}

/// The count a task line gives: its second field when that parses within
/// the bounds, else 1.
pub open spec fn line_count(s: Seq<char>, max: int, signed: bool) -> int {
    match second_field(s) {
        Some(f) => match parse_int(f, if signed { i32::MIN as int } else { 0 }, max, signed) {
            Some(v) => v,
            None => 1,
        },
        None => 1,
    }
}

/// A line break: a line feed, a carriage return with a line feed, or a lone
/// carriage return.
pub open spec fn next_break(s: Seq<char>, i: int) -> int
    decreases s.len() - i,
{
    if i >= s.len() {
        s.len() as int
    } else if s[i] == '\n' || s[i] == '\r' {
        i
    } else {
        next_break(s, i + 1)
    }
}

/// How many characters the break at `i` takes.
pub open spec fn break_width(s: Seq<char>, i: int) -> int {
    if s[i] == '\r' && i + 1 < s.len() && s[i + 1] == '\n' {
        2
    } else {
        1
    }
}

/// The lines of a text from position `i`; a break at the very end starts
/// no further line.
pub open spec fn lines_from(s: Seq<char>, i: int) -> Seq<Seq<char>>
    decreases s.len() - i,
{
    if i >= s.len() || i < 0 {
        Seq::empty()
    } else {
        let e = next_break(s, i);
        if e >= s.len() {
            seq![s.subrange(i, s.len() as int)]
        } else if e >= i {
            seq![s.subrange(i, e)] + lines_from(s, e + break_width(s, e))
        } else {
            Seq::empty()
        }
    }
}

proof fn lemma_next_break(s: Seq<char>, i: int)
    requires
        0 <= i <= s.len(),
    ensures
        i <= next_break(s, i) <= s.len(),
        forall|k: int| i <= k < next_break(s, i) ==> #[trigger] s[k] != '\n' && s[k] != '\r',
        next_break(s, i) < s.len() ==> s[next_break(s, i)] == '\n' || s[next_break(s, i)] == '\r',
    decreases s.len() - i,
{
    if i < s.len() && s[i] != '\n' && s[i] != '\r' {
        lemma_next_break(s, i + 1);
    }
}

/// The text of each string.
pub open spec fn texts(v: Seq<String>) -> Seq<Seq<char>> {
    crate::wire::string_texts(v)
}

/// Splits a text into lines at line feeds, carriage-return line feeds and
/// lone carriage returns.
pub fn split_lines(text: &str) -> (r: Vec<String>)
    ensures
        texts(r@) == lines_from(text@, 0),
{
    let cs = chars_of(text);
    let mut out: Vec<String> = Vec::new();
    let mut i: usize = 0;
    while i < cs.len()
        invariant
            0 <= i <= cs@.len(),
            cs@ == text@,
            texts(out@) + lines_from(cs@, i as int) == lines_from(cs@, 0),
        decreases cs@.len() - i,
    {
        let mut e: usize = i;
        while e < cs.len() && cs[e] != '\n' && cs[e] != '\r'
            invariant
                i <= e <= cs@.len(),
                next_break(cs@, i as int) == next_break(cs@, e as int),
            decreases cs@.len() - e,
        {
            e = e + 1;
        }
        proof {
            lemma_next_break(cs@, i as int);
        }
        let ghost before = out@;
        out.push(piece(text, i, e));
        proof {
            assert(texts(out@) == texts(before).push(cs@.subrange(i as int, e as int))) by {
                assert(texts(out@) =~= texts(before).push(cs@.subrange(i as int, e as int)));
            }
        }
        if e >= cs.len() {
            proof {
                assert(lines_from(cs@, i as int) == seq![cs@.subrange(i as int, cs@.len() as int)]);
                assert(lines_from(cs@, e as int) == Seq::<Seq<char>>::empty());
                assert(texts(out@) + lines_from(cs@, e as int) == lines_from(cs@, 0));
            }
            i = e;
        } else {
            let width: usize = if cs[e] == '\r' && e + 1 < cs.len() && cs[e + 1] == '\n' { 2 } else { 1 };
            proof {
                assert(lines_from(cs@, i as int) == seq![cs@.subrange(i as int, e as int)] + lines_from(
                    cs@,
                    e + width,
                ));
                assert(texts(out@) + lines_from(cs@, e + width) == lines_from(cs@, 0)) by {
                    assert(texts(before) + (seq![cs@.subrange(i as int, e as int)] + lines_from(cs@, e + width))
                        =~= texts(before).push(cs@.subrange(i as int, e as int)) + lines_from(cs@, e + width));
                }
            }
            i = e + width;
        }
    }
    proof {
        assert(lines_from(cs@, i as int) == Seq::<Seq<char>>::empty());
        assert(texts(out@) + Seq::<Seq<char>>::empty() =~= texts(out@));
    }
    out
}

} // verus!

verus! {

/// `r` is an answer the lookup gives for a name.
pub open spec fn answers<F: Fn(&str) -> Option<i32>>(f: F, name: Seq<char>, r: Option<i32>) -> bool {
    exists|s: &str| s@ == name && call_ensures(f, (s,), r)
}

/// The lookup can be asked about any name.
pub open spec fn always_callable<F: Fn(&str) -> Option<i32>>(f: F) -> bool {
    forall|s: &str| call_requires(f, (s,))
}

fn ask<F: Fn(&str) -> Option<i32>>(f: &F, s: &str) -> (r: Option<i32>)
    requires
        always_callable(*f),
    ensures
        answers(*f, s@, r),
{
    let r = f(s);
    r
}

/// An item line with the lookup's answer for its first field: no item when
/// the lookup knows no index, else the index, the count (second field as a
/// `u16`, else 1) and the quoted message.
pub open spec fn item_task_fits(r: Option<QuestItemTask>, line: Seq<char>, answer: Option<i32>) -> bool {
    match answer {
        None => r is None,
        Some(idx) => r matches Some(t) && t.item_index == idx && t.count == line_count(line, u16::MAX as int, false)
            && t.message@ == first_quoted(line),
    }
}

/// A kill line with the lookup's answer for its first field.
pub open spec fn kill_task_fits(r: Option<QuestKillTask>, line: Seq<char>, answer: Option<i32>) -> bool {
    match answer {
        None => r is None,
        Some(idx) => r matches Some(t) && t.monster_index == idx && t.count == line_count(line, i32::MAX as int, true)
            && t.message@ == first_quoted(line),
    }
}

/// The count of a task line: its second field parsed within the bounds,
/// else 1.
fn task_count(cs: &Vec<char>, max: i64, signed: bool) -> (r: i64)
    requires
        0 <= max <= 0x100_0000_0000,
    ensures
        r == line_count(cs@, max as int, signed),
{
    let a = find_char(cs, ' ', 0);
    proof {
        lemma_find_from(cs@, ' ', 0);
    }
    if a >= cs.len() {
        return 1;
    }
    let b = find_char(cs, ' ', a + 1);
    proof {
        lemma_find_from(cs@, ' ', a + 1);
    }
    let min: i64 = if signed { i32::MIN as i64 } else { 0 };
    match crate::scan::parse_int_in(cs, a + 1, b, min, max, signed) {
        Some(v) => v,
        None => 1,
    }
}

/// Reads an item line with a name lookup; an empty line gives nothing.
pub fn parse_item_task<F: Fn(&str) -> Option<i32>>(line: &str, item_lookup: &F) -> (r: Option<QuestItemTask>)
    requires
        always_callable(*item_lookup),
    ensures
        line@.len() == 0 ==> r is None,
        line@.len() > 0 ==> exists|answer: Option<i32>| answers(*item_lookup, first_field(line@), answer)
            && #[trigger] item_task_fits(r, line@, answer),
{
    let cs = chars_of(line);
    if cs.len() < 1 {
        return None;
    }
    let count = task_count(&cs, u16::MAX as i64, false);
    let a = find_char(&cs, ' ', 0);
    proof {
        lemma_find_from(cs@, ' ', 0);
    }
    let name = piece(line, 0, a);
    let answer = ask(item_lookup, name.as_str());
    let r = match answer {
        None => None,
        Some(idx) => Some(QuestItemTask { item_index: idx, count: count as u16, message: extract_first_quoted(line) }),
    };
    proof {
        assert(item_task_fits(r, line@, answer));
    }
    r
}

/// Reads a kill line with a name lookup; an empty line gives nothing.
pub fn parse_kill_task<F: Fn(&str) -> Option<i32>>(line: &str, monster_lookup: &F) -> (r: Option<QuestKillTask>)
    requires
        always_callable(*monster_lookup),
    ensures
        line@.len() == 0 ==> r is None,
        line@.len() > 0 ==> exists|answer: Option<i32>| answers(*monster_lookup, first_field(line@), answer)
            && #[trigger] kill_task_fits(r, line@, answer),
{
    let cs = chars_of(line);
    if cs.len() < 1 {
        return None;
    }
    let count = task_count(&cs, i32::MAX as i64, true);
    let a = find_char(&cs, ' ', 0);
    proof {
        lemma_find_from(cs@, ' ', 0);
    }
    let name = piece(line, 0, a);
    let answer = ask(monster_lookup, name.as_str());
    let r = match answer {
        None => None,
        Some(idx) => Some(QuestKillTask { monster_index: idx, count: count as i32, message: extract_first_quoted(line) }),
    };
    proof {
        assert(kill_task_fits(r, line@, answer));
    }
    r
}

/// The flag a flag line names: its first field as an `i32` (-1 when it is
/// not a number), kept when it is 0..=999.
pub open spec fn flag_number(line: Seq<char>) -> int {
    match parse_int(first_field(line), i32::MIN as int, i32::MAX as int, true) {
        Some(v) => v,
        None => -1,
    }
}

/// Reads a flag line: the flag number and the quoted message; nothing for
/// an empty line or a number outside 0..=999.
pub fn parse_flag_task(line: &str) -> (r: Option<QuestFlagTask>)
    ensures
        (line@.len() == 0 || flag_number(line@) < 0 || flag_number(line@) > 999) ==> r is None,
        !(line@.len() == 0 || flag_number(line@) < 0 || flag_number(line@) > 999) ==> (r matches Some(t)
            && t.number == flag_number(line@) && t.message@ == first_quoted(line@)),
{
    let cs = chars_of(line);
    if cs.len() < 1 {
        return None;
    }
    let a = find_char(&cs, ' ', 0);
    proof {
        lemma_find_from(cs@, ' ', 0);
    }
    let number: i32 = match parse_i32_in(&cs, 0, a) {
        Some(v) => v,
        None => -1,
    };
    if number < 0 || number > 999 {
        return None;
    }
    Some(QuestFlagTask { number, message: extract_first_quoted(line) })
}

} // verus!

verus! {

/// The rewards a reward line adds, given the lookup's answers for its name
/// and, when the name is unknown, for the name with "(M)" and with "(F)":
/// the known name alone, else each gendered variant that is known.
pub open spec fn rewards_added(line: Seq<char>, plain: Option<i32>, male: Option<i32>, female: Option<i32>) -> Seq<QuestItemReward> {
    let count = line_count(line, u16::MAX as int, false) as u16;
    match plain {
        Some(i) => seq![QuestItemReward { item_index: i, count }],
        None => (match male {
            Some(i) => seq![QuestItemReward { item_index: i, count }],
            None => Seq::empty(),
        }) + (match female {
            Some(i) => seq![QuestItemReward { item_index: i, count }],
            None => Seq::empty(),
        }),
    }
}

/// The lookup gave these answers for a reward line's names.
pub open spec fn reward_answers<F: Fn(&str) -> Option<i32>>(f: F, line: Seq<char>, plain: Option<i32>, male: Option<i32>, female: Option<i32>) -> bool {
    &&& answers(f, first_field(line), plain)
    &&& plain is None ==> answers(f, first_field(line) + "(M)"@, male) && answers(f, first_field(line) + "(F)"@, female)
}

/// Reads a reward line into a list: the named item, or failing that its
/// male and female variants. An empty line adds nothing.
pub fn parse_reward_lines<F: Fn(&str) -> Option<i32>>(out: &mut Vec<QuestItemReward>, line: &str, item_lookup: &F)
    requires
        always_callable(*item_lookup),
    ensures
        line@.len() == 0 ==> final(out)@ == old(out)@,
        line@.len() > 0 ==> exists|plain: Option<i32>, male: Option<i32>, female: Option<i32>| reward_answers(
            *item_lookup,
            line@,
            plain,
            male,
            female,
        ) && final(out)@ == old(out)@ + #[trigger] rewards_added(line@, plain, male, female),
{
    let cs = chars_of(line);
    if cs.len() < 1 {
        return;
    }
    let count = task_count(&cs, u16::MAX as i64, false) as u16;
    let a = find_char(&cs, ' ', 0);
    proof {
        lemma_find_from(cs@, ' ', 0);
        reveal_strlit("(M)");
        reveal_strlit("(F)");
    }
    let name = piece(line, 0, a);
    let plain = ask(item_lookup, name.as_str());
    match plain {
        Some(idx) => {
            out.push(QuestItemReward { item_index: idx, count });
            proof {
                assert(reward_answers(*item_lookup, line@, plain, None, None));
                assert(final(out)@ =~= old(out)@ + rewards_added(line@, plain, None, None));
            }
            return;
        },
        None => {},
    }
    let male_name = crate::text::join(piece(line, 0, a), "(M)");
    let male = ask(item_lookup, male_name.as_str());
    let ghost mid = out@;
    match male {
        Some(idx) => {
            out.push(QuestItemReward { item_index: idx, count });
        },
        None => {},
    }
    let female_name = crate::text::join(piece(line, 0, a), "(F)");
    let female = ask(item_lookup, female_name.as_str());
    match female {
        Some(idx) => {
            out.push(QuestItemReward { item_index: idx, count });
        },
        None => {},
    }
    proof {
        assert(reward_answers(*item_lookup, line@, plain, male, female));
        assert(out@ =~= old(out)@ + rewards_added(line@, plain, male, female));
    }
}

} // verus!

verus! {

/// ASCII upper case of a character; others unchanged.
pub open spec fn ascii_upper(c: char) -> char {
    if 'a' <= c <= 'z' {
        ((c as int) - 32) as char
    } else {
        c
    }
}

/// A line is a header, compared without regard to ASCII case.
pub open spec fn header_matches(line: Seq<char>, header: Seq<char>) -> bool {
    line.map_values(|c: char| ascii_upper(c)) == header.map_values(|c: char| ascii_upper(c))
}

/// A line ends a section: it starts with '[' or with "//".
pub open spec fn is_stop(line: Seq<char>) -> bool {
    (line.len() >= 1 && line[0] == '[') || (line.len() >= 2 && line[0] == '/' && line[1] == '/')
}

/// The non-empty lines from `j` up to the next line that ends a section.
pub open spec fn block(lines: Seq<Seq<char>>, j: int) -> Seq<Seq<char>>
    decreases lines.len() - j,
{
    if j >= lines.len() || j < 0 || is_stop(lines[j]) {
        Seq::empty()
    } else {
        (if lines[j].len() == 0 {
            Seq::empty()
        } else {
            seq![lines[j]]
        }) + block(lines, j + 1)
    }
}

/// The lines of a section among the first `n` lines: for every line that
/// is the header, the block after it, in order.
pub open spec fn section(lines: Seq<Seq<char>>, header: Seq<char>, n: int) -> Seq<Seq<char>>
    decreases n,
{
    if n <= 0 {
        Seq::empty()
    } else {
        section(lines, header, n - 1) + (if header_matches(lines[n - 1], header) {
            block(lines, n)
        } else {
            Seq::empty()
        })
    }
}

pub(crate) fn upper_char(c: char) -> (r: char)
    ensures
        r == ascii_upper(c),
{
    if 'a' <= c && c <= 'z' {
        ((c as u8) - 32) as char
    } else {
        c
    }
}

pub(crate) fn is_header(line: &Vec<char>, header: &Vec<char>) -> (r: bool)
    ensures
        r == header_matches(line@, header@),
{
    if line.len() != header.len() {
        proof {
            assert(line@.map_values(|c: char| ascii_upper(c)).len() != header@.map_values(|c: char| ascii_upper(c)).len());
        }
        return false;
    }
    let mut i: usize = 0;
    while i < line.len()
        invariant
            0 <= i <= line@.len(),
            line@.len() == header@.len(),
            forall|k: int| 0 <= k < i ==> ascii_upper(#[trigger] line@[k]) == ascii_upper(header@[k]),
        decreases line@.len() - i,
    {
        if upper_char(line[i]) != upper_char(header[i]) {
            proof {
                assert(line@.map_values(|c: char| ascii_upper(c))[i as int] != header@.map_values(|c: char| ascii_upper(c))[i as int]);
            }
            return false;
        }
        i = i + 1;
    }
    proof {
        assert(line@.map_values(|c: char| ascii_upper(c)) =~= header@.map_values(|c: char| ascii_upper(c)));
    }
    true
}

fn stops(line: &Vec<char>) -> (r: bool)
    ensures
        r == is_stop(line@),
{
    (line.len() >= 1 && line[0] == '[') || (line.len() >= 2 && line[0] == '/' && line[1] == '/')
}

/// The lines of a section, in order.
pub fn section_lines(lines: &Vec<String>, header: &str) -> (r: Vec<String>)
    ensures
        texts(r@) == section(texts(lines@), header@, lines@.len() as int),
{
    let ghost ls = texts(lines@);
    let hs = chars_of(header);
    let mut out: Vec<String> = Vec::new();
    let mut i: usize = 0;
    while i < lines.len()
        invariant
            0 <= i <= lines@.len(),
            ls == texts(lines@),
            ls.len() == lines@.len(),
            hs@ == header@,
            texts(out@) == section(ls, header@, i as int),
        decreases lines@.len() - i,
    {
        let cs = chars_of(lines[i].as_str());
        if is_header(&cs, &hs) {
            let mut j: usize = i + 1;
            proof {
                assert(texts(out@) + block(ls, i + 1) == section(ls, header@, i as int) + block(ls, i + 1));
            }
            while j < lines.len()
                invariant
                    i + 1 <= j <= lines@.len(),
                    ls == texts(lines@),
                    ls.len() == lines@.len(),
                    texts(out@) + block(ls, j as int) == section(ls, header@, i as int) + block(ls, i + 1),
                ensures
                    i + 1 <= j <= lines@.len(),
                    texts(out@) + block(ls, j as int) == section(ls, header@, i as int) + block(ls, i + 1),
                    block(ls, j as int) == Seq::<Seq<char>>::empty(),
                decreases lines@.len() - j,
            {
                let inner = chars_of(lines[j].as_str());
                proof {
                    assert(ls[j as int] == lines@[j as int]@);
                }
                if stops(&inner) {
                    proof {
                        assert(block(ls, j as int) == Seq::<Seq<char>>::empty());
                    }
                    break;
                }
                let ghost before = out@;
                if inner.len() > 0 {
                    out.push(lines[j].clone());
                    proof {
                        assert(texts(out@) =~= texts(before).push(ls[j as int]));
                        assert(block(ls, j as int) == seq![ls[j as int]] + block(ls, j + 1));
                        assert(texts(out@) + block(ls, j + 1) =~= texts(before) + block(ls, j as int));
                    }
                } else {
                    proof {
                        assert(block(ls, j as int) =~= Seq::<Seq<char>>::empty() + block(ls, j + 1));
                    }
                }
                j = j + 1;
            }
            proof {
                assert(block(ls, j as int) == Seq::<Seq<char>>::empty());
                assert(texts(out@) =~= section(ls, header@, i as int) + block(ls, i + 1));
            }
        }
        proof {
            assert(ls[i as int] == lines@[i as int]@);
            assert(section(ls, header@, i + 1) == section(ls, header@, i as int) + (if header_matches(ls[i as int], header@) {
                block(ls, i + 1)
            } else {
                Seq::empty()
            }));
            if !header_matches(ls[i as int], header@) {
                assert(texts(out@) =~= section(ls, header@, i + 1));
            }
        }
        i = i + 1;
    }
    out
}

} // verus!

verus! {

/// One translated line: which quest, which text list, which line, and the
/// replacement.
#[derive(Clone, Debug)]
pub struct TranslationEntry {
    pub quest_index: i32,
    pub typ: String,
    pub line_index: i32,
    pub text: String,
}

/// The key of a translated line.
pub open spec fn entry_key(e: TranslationEntry) -> (i32, Seq<char>, i32) {
    (e.quest_index, e.typ@, e.line_index)
}

/// The table a list of entries describes.
pub open spec fn entries_map(s: Seq<TranslationEntry>) -> Map<(i32, Seq<char>, i32), Seq<char>>
    decreases s.len(),
{
    if s.len() == 0 {
        Map::empty()
    } else {
        entries_map(s.drop_last()).insert(entry_key(s.last()), s.last().text@)
    }
}

/// No key appears twice.
pub open spec fn keys_unique(s: Seq<TranslationEntry>) -> bool {
    forall|i: int, j: int| 0 <= i < s.len() && 0 <= j < s.len() && i != j ==> entry_key(s[i]) != entry_key(s[j])
}

proof fn lemma_unique_prefix(s: Seq<TranslationEntry>)
    requires
        keys_unique(s),
        s.len() > 0,
    ensures
        keys_unique(s.drop_last()),
        forall|i: int| 0 <= i < s.len() - 1 ==> entry_key(#[trigger] s[i]) != entry_key(s.last()),
{
    let t = s.drop_last();
    assert forall|i: int, j: int| 0 <= i < t.len() && 0 <= j < t.len() && i != j implies entry_key(t[i]) != entry_key(t[j]) by {
        assert(t[i] == s[i] && t[j] == s[j]);
    }
    assert forall|i: int| 0 <= i < s.len() - 1 implies entry_key(#[trigger] s[i]) != entry_key(s.last()) by {
        assert(s.last() == s[s.len() - 1]);
    }
}

/// A key is in the table exactly when some entry has it.
proof fn lemma_key_in_map(s: Seq<TranslationEntry>, k: (i32, Seq<char>, i32))
    ensures
        entries_map(s).contains_key(k) <==> exists|i: int| 0 <= i < s.len() && entry_key(#[trigger] s[i]) == k,
    decreases s.len(),
{
    if s.len() > 0 {
        let t = s.drop_last();
        lemma_key_in_map(t, k);
        if entries_map(s).contains_key(k) {
            if k == entry_key(s.last()) {
                assert(entry_key(s[s.len() - 1]) == k);
            } else {
                let i = choose|i: int| 0 <= i < t.len() && entry_key(#[trigger] t[i]) == k;
                assert(s[i] == t[i]);
                assert(entry_key(s[i]) == k);
            }
        }
        if exists|i: int| 0 <= i < s.len() && entry_key(#[trigger] s[i]) == k {
            let i = choose|i: int| 0 <= i < s.len() && entry_key(#[trigger] s[i]) == k;
            if i < s.len() - 1 {
                assert(t[i] == s[i]);
                assert(entry_key(t[i]) == k);
            }
        }
    }
}

/// Every entry's text is what the table holds under its key.
proof fn lemma_entry_in_map(s: Seq<TranslationEntry>, i: int)
    requires
        keys_unique(s),
        0 <= i < s.len(),
    ensures
        entries_map(s).contains_key(entry_key(s[i])),
        entries_map(s)[entry_key(s[i])] == s[i].text@,
    decreases s.len(),
{
    let t = s.drop_last();
    if i < s.len() - 1 {
        lemma_unique_prefix(s);
        assert(t[i] == s[i]);
        lemma_entry_in_map(t, i);
    }
}

/// Translated lines keyed by quest, text list and line.
#[derive(Debug)]
pub struct TranslationMap {
    entries: Vec<TranslationEntry>,
}

impl TranslationMap {
    #[verifier::type_invariant]
    spec fn entries_unique(self) -> bool {
        keys_unique(self.entries@)
    }

    /// The table.
    pub closed spec fn view(&self) -> Map<(i32, Seq<char>, i32), Seq<char>> {
        entries_map(self.entries@)
    }

    /// An empty table.
    pub fn new() -> (r: Self)
        ensures
            r@ == Map::<(i32, Seq<char>, i32), Seq<char>>::empty(),
    {
        let entries: Vec<TranslationEntry> = Vec::new();
        proof {
            assert(keys_unique(entries@));
        }
        TranslationMap { entries }
    }

    /// The table holds no line.
    pub fn is_empty(&self) -> (r: bool)
        ensures
            r == (self@.dom() == Set::<(i32, Seq<char>, i32)>::empty()),
    {
        proof {
            use_type_invariant(self);
            if self.entries@.len() > 0 {
                lemma_entry_in_map(self.entries@, 0);
                assert(self@.dom().contains(entry_key(self.entries@[0])));
            } else {
                assert(self@.dom() =~= Set::<(i32, Seq<char>, i32)>::empty());
            }
        }
        self.entries.len() == 0
    }

    fn position(&self, quest_index: i32, typ: &String, line_index: i32) -> (r: usize)
        ensures
            r <= self.entries@.len(),
            r < self.entries@.len() ==> entry_key(self.entries@[r as int]) == (quest_index, typ@, line_index),
            r == self.entries@.len() ==> forall|i: int| 0 <= i < self.entries@.len() ==> entry_key(#[trigger] self.entries@[i])
                != (quest_index, typ@, line_index),
    {
        let mut i: usize = 0;
        while i < self.entries.len()
            invariant
                0 <= i <= self.entries@.len(),
                forall|j: int| 0 <= j < i ==> entry_key(#[trigger] self.entries@[j]) != (quest_index, typ@, line_index),
            decreases self.entries@.len() - i,
        {
            let e = &self.entries[i];
            if e.quest_index == quest_index && e.line_index == line_index && e.typ == *typ {
                return i;
            }
            i = i + 1;
        }
        i
    }

    /// The translation of a line, if any.
    pub fn get(&self, quest_index: i32, typ: &str, line_index: i32) -> (r: Option<&String>)
        ensures
            match r {
                Some(t) => self@.contains_key((quest_index, typ@, line_index)) && t@ == self@[(quest_index, typ@, line_index)],
                None => !self@.contains_key((quest_index, typ@, line_index)),
            },
    {
        proof {
            use_type_invariant(self);
        }
        let key = crate::text::text(typ);
        let p = self.position(quest_index, &key, line_index);
        proof {
            lemma_key_in_map(self.entries@, (quest_index, typ@, line_index));
            if p < self.entries@.len() {
                lemma_entry_in_map(self.entries@, p as int);
            }
        }
        if p < self.entries.len() {
            Some(&self.entries[p].text)
        } else {
            None
        }
    }

    /// Sets the translation of a line, replacing any earlier one.
    pub fn insert(&mut self, quest_index: i32, typ: String, line_index: i32, text: String)
        ensures
            final(self)@ == old(self)@.insert((quest_index, typ@, line_index), text@),
    {
        proof {
            use_type_invariant(&*self);
        }
        let p = self.position(quest_index, &typ, line_index);
        let ghost key = (quest_index, typ@, line_index);
        let ghost before = self.entries@;
        let ghost tv = text@;
        let mut entries = Vec::new();
        std::mem::swap(&mut entries, &mut self.entries);
        if p < entries.len() {
            let kept_typ = entries[p].typ.clone();
            let entry = TranslationEntry { quest_index, typ: kept_typ, line_index, text };
            entries.set(p, entry);
        } else {
            entries.push(TranslationEntry { quest_index, typ, line_index, text });
        }
        proof {
            assert(entry_key(entries@[p as int]) == key);
            assert(entries@[p as int].text@ == tv);
            assert(entries@.len() == before.len() || entries@.len() == before.len() + 1);
            assert forall|j: int| 0 <= j < entries@.len() && j != p implies #[trigger] entries@[j] == before[j] by {}
            assert(keys_unique(entries@)) by {
                assert forall|i: int, j: int| 0 <= i < entries@.len() && 0 <= j < entries@.len() && i != j implies entry_key(entries@[i]) != entry_key(entries@[j]) by {
                    if i != p && j != p {
                        assert(entries@[i] == before[i] && entries@[j] == before[j]);
                    } else if i == p {
                        assert(entries@[j] == before[j]);
                        if p < before.len() {
                            assert(entry_key(before[p as int]) == key);
                        }
                    } else {
                        assert(entries@[i] == before[i]);
                        if p < before.len() {
                            assert(entry_key(before[p as int]) == key);
                        }
                    }
                }
            }
            assert(entries_map(entries@) =~= entries_map(before).insert(key, tv)) by {
                assert forall|k: (i32, Seq<char>, i32)| #[trigger] entries_map(entries@).contains_key(k) <==> entries_map(before).insert(key, tv).contains_key(k) by {
                    lemma_key_in_map(entries@, k);
                    lemma_key_in_map(before, k);
                    if exists|i: int| 0 <= i < entries@.len() && entry_key(#[trigger] entries@[i]) == k {
                        let i = choose|i: int| 0 <= i < entries@.len() && entry_key(#[trigger] entries@[i]) == k;
                        if i != p {
                            assert(entries@[i] == before[i]);
                        }
                    }
                    if exists|i: int| 0 <= i < before.len() && entry_key(#[trigger] before[i]) == k {
                        let i = choose|i: int| 0 <= i < before.len() && entry_key(#[trigger] before[i]) == k;
                        if i != p {
                            assert(entries@[i] == before[i]);
                        } else {
                            assert(entry_key(entries@[p as int]) == k);
                        }
                    }
                }
                assert forall|k: (i32, Seq<char>, i32)| #[trigger] entries_map(entries@).contains_key(k) implies entries_map(entries@)[k] == entries_map(before).insert(key, tv)[k] by {
                    lemma_key_in_map(entries@, k);
                    let i = choose|i: int| 0 <= i < entries@.len() && entry_key(#[trigger] entries@[i]) == k;
                    lemma_entry_in_map(entries@, i);
                    if i != p {
                        assert(entries@[i] == before[i]);
                        lemma_entry_in_map(before, i);
                    }
                }
            }
        }
        self.entries = entries;
    }
}

} // verus!

verus! {

/// A line without the carriage return that ends it, if any.
pub open spec fn strip_cr(s: Seq<char>) -> Seq<char> {
    if s.len() > 0 && s.last() == '\r' {
        s.drop_last()
    } else {
        s
    }
}

/// The lines of a text from position `i` as `str::lines` gives them: split
/// at line feeds, a carriage return before a line feed dropped, no line
/// after a final line feed.
pub open spec fn std_lines_from(s: Seq<char>, i: int) -> Seq<Seq<char>>
    decreases s.len() - i,
{
    if i >= s.len() || i < 0 {
        Seq::empty()
    } else {
        let e = find_from(s, '\n', i);
        if e >= s.len() {
            seq![s.subrange(i, s.len() as int)]
        } else if e >= i {
            seq![strip_cr(s.subrange(i, e))] + std_lines_from(s, e + 1)
        } else {
            Seq::empty()
        }
    }
}

/// The position of the `k`-th semicolon (-1 for none yet; the length when
/// there are fewer).
pub open spec fn semi(s: Seq<char>, k: nat) -> int
    decreases k,
{
    if k == 0 {
        -1
    } else {
        let p = semi(s, (k - 1) as nat);
        if p >= s.len() {
            s.len() as int
        } else {
            find_from(s, ';', p + 1)
        }
    }
}

/// The `k`-th semicolon-separated field (from 0).
pub open spec fn field(s: Seq<char>, k: nat) -> Seq<char> {
    s.subrange(semi(s, k) + 1, semi(s, k + 1))
}

/// The entry a CSV row gives: rows need seven fields, a blank-free quest
/// number in the first, and a non-blank translation in the seventh; the
/// list name is the fourth field trimmed and the line number the fifth
/// (0 when it is not a number).
pub open spec fn csv_row(line: Seq<char>) -> Option<((i32, Seq<char>, i32), Seq<char>)> {
    if trimmed(line).len() == 0 || semi(line, 6) >= line.len() {
        None
    } else {
        match parse_int(trimmed(field(line, 0)), i32::MIN as int, i32::MAX as int, true) {
            None => None,
            Some(q) => {
                let li = match parse_int(trimmed(field(line, 4)), i32::MIN as int, i32::MAX as int, true) {
                    Some(v) => v,
                    None => 0,
                };
                if trimmed(field(line, 6)).len() == 0 {
                    None
                } else {
                    Some(((q as i32, trimmed(field(line, 3)), li as i32), field(line, 6)))
                }
            },
        }
    }
}

/// The table the rows of a CSV text give, the header row skipped, later
/// rows replacing earlier ones with the same key.
pub open spec fn csv_table(lines: Seq<Seq<char>>, n: int) -> Map<(i32, Seq<char>, i32), Seq<char>>
    decreases n,
{
    if n <= 1 {
        Map::empty()
    } else {
        let m = csv_table(lines, n - 1);
        match csv_row(lines[n - 1]) {
            Some((k, v)) => m.insert(k, v),
            None => m,
        }
    }
}

proof fn lemma_semi_bounds(s: Seq<char>, k: nat)
    ensures
        -1 <= semi(s, k) <= s.len(),
        k > 0 ==> semi(s, k) >= 0,
        semi(s, k) < semi(s, k + 1) || semi(s, k) == s.len(),
        semi(s, k) <= semi(s, k + 1),
    decreases k,
{
    if k > 0 {
        lemma_semi_bounds(s, (k - 1) as nat);
        let q = semi(s, (k - 1) as nat);
        if q < s.len() {
            lemma_find_from(s, ';', q + 1);
        }
    }
    let p = semi(s, k);
    if p < s.len() {
        lemma_find_from(s, ';', p + 1);
    }
}

/// The positions of the first `n` semicolons of a line, as `semi` gives
/// them (entry `k` for semicolon `k + 1`).
fn semis(cs: &Vec<char>, n: usize) -> (r: Vec<usize>)
    ensures
        r@.len() == n,
        forall|k: int| 0 <= k < n ==> #[trigger] r@[k] as int == semi(cs@, (k + 1) as nat),
{
    let mut out: Vec<usize> = Vec::new();
    let mut k: usize = 0;
    let mut last: usize = 0;
    let mut started: bool = false;
    while k < n
        invariant
            0 <= k <= n,
            out@.len() == k,
            forall|j: int| 0 <= j < k ==> #[trigger] out@[j] as int == semi(cs@, (j + 1) as nat),
            started == (k > 0),
            started ==> last as int == semi(cs@, k as nat),
            last <= cs@.len(),
        decreases n - k,
    {
        proof {
            lemma_semi_bounds(cs@, k as nat);
            lemma_semi_bounds(cs@, (k + 1) as nat);
        }
        let next: usize = if !started {
            let f = find_char(cs, ';', 0);
            proof {
                lemma_find_from(cs@, ';', 0);
            }
            f
        } else if last >= cs.len() {
            cs.len()
        } else {
            let f = find_char(cs, ';', last + 1);
            proof {
                lemma_find_from(cs@, ';', last + 1);
            }
            f
        };
        out.push(next);
        last = next;
        started = true;
        k = k + 1;
    }
    out
}

} // verus!

verus! {

/// The entry a CSV row gives, as `csv_row` says.
fn row_of(line: &str) -> (r: Option<(i32, String, i32, String)>)
    ensures
        match csv_row(line@) {
            None => r is None,
            Some((k, v)) => r matches Some(t) && (t.0, t.1@, t.2) == k && t.3@ == v,
        },
{
    let cs = chars_of(line);
    let (a, b) = trim_bounds(&cs, 0, cs.len());
    proof {
        assert(cs@.subrange(0, cs@.len() as int) == cs@);
    }
    if a == b {
        return None;
    }
    let ss = semis(&cs, 7);
    proof {
        lemma_semi_bounds(cs@, 0);
        lemma_semi_bounds(cs@, 1);
        lemma_semi_bounds(cs@, 2);
        lemma_semi_bounds(cs@, 3);
        lemma_semi_bounds(cs@, 4);
        lemma_semi_bounds(cs@, 5);
        lemma_semi_bounds(cs@, 6);
        lemma_semi_bounds(cs@, 7);
        assert(ss@[0] as int == semi(cs@, 1));
        assert(ss@[2] as int == semi(cs@, 3));
        assert(ss@[3] as int == semi(cs@, 4));
        assert(ss@[4] as int == semi(cs@, 5));
        assert(ss@[5] as int == semi(cs@, 6));
        assert(ss@[6] as int == semi(cs@, 7));
    }
    if ss[5] >= cs.len() {
        return None;
    }
    let (qa, qb) = trim_bounds(&cs, 0, ss[0]);
    let q = match parse_i32_in(&cs, qa, qb) {
        Some(v) => v,
        None => {
            return None;
        },
    };
    let (ta, tb) = trim_bounds(&cs, ss[2] + 1, ss[3]);
    let (la, lb) = trim_bounds(&cs, ss[3] + 1, ss[4]);
    let li: i32 = match parse_i32_in(&cs, la, lb) {
        Some(v) => v,
        None => 0,
    };
    let (za, zb) = trim_bounds(&cs, ss[5] + 1, ss[6]);
    if za == zb {
        return None;
    }
    let typ = piece(line, ta, tb);
    let text = piece(line, ss[5] + 1, ss[6]);
    Some((q, typ, li, text))
}

/// Reads a translation table from CSV text: the first row is a header;
/// each later row with seven semicolon-separated fields, a number in the
/// first and a non-blank seventh sets the translation of (first, fourth,
/// fifth) to the seventh.
pub fn parse_translation_map(raw: &str) -> (r: TranslationMap)
    ensures
        r@ == csv_table(std_lines_from(raw@, 0), std_lines_from(raw@, 0).len() as int),
{
    let cs = chars_of(raw);
    let ghost all = std_lines_from(cs@, 0);
    let mut table = TranslationMap::new();
    let mut i: usize = 0;
    let mut idx: usize = 0;
    let ghost mut done: Seq<Seq<char>> = Seq::empty();
    while i < cs.len()
        invariant
            0 <= i <= cs@.len(),
            cs@ == raw@,
            all == std_lines_from(cs@, 0),
            all == done + std_lines_from(cs@, i as int),
            done.len() == idx,
            idx <= i,
            table@ == csv_table(all, idx as int),
        decreases cs@.len() - i,
    {
        let e = find_char(&cs, '\n', i);
        proof {
            lemma_find_from(cs@, '\n', i as int);
        }
        let end: usize = if e < cs.len() && e > i && cs[e - 1] == '\r' { e - 1 } else { e };
        let ghost line = if e >= cs@.len() {
            cs@.subrange(i as int, cs@.len() as int)
        } else {
            strip_cr(cs@.subrange(i as int, e as int))
        };
        proof {
            if e < cs@.len() {
                if e > i && cs@[e - 1] == '\r' {
                    assert(cs@.subrange(i as int, e as int).last() == '\r');
                    assert(cs@.subrange(i as int, e as int).drop_last() == cs@.subrange(i as int, end as int));
                } else {
                    assert(cs@.subrange(i as int, e as int).len() == 0 || cs@.subrange(i as int, e as int).last() != '\r');
                }
            }
            assert(line == cs@.subrange(i as int, end as int));
            assert(std_lines_from(cs@, i as int)[0] == line);
            assert(all[idx as int] == line) by {
                assert(all[idx as int] == (done + std_lines_from(cs@, i as int))[done.len() as int]);
            }
        }
        if idx > 0 {
            let text = piece(raw, i, end);
            match row_of(text.as_str()) {
                Some((q, typ, li, zh)) => {
                    table.insert(q, typ, li, zh);
                },
                None => {},
            }
        }
        proof {
            if idx > 0 {
                assert(csv_table(all, idx + 1) == match csv_row(all[idx as int]) {
                    Some((k, v)) => csv_table(all, idx as int).insert(k, v),
                    None => csv_table(all, idx as int),
                });
            } else {
                assert(csv_table(all, 1) == csv_table(all, 0));
            }
            if e >= cs@.len() {
                assert(std_lines_from(cs@, i as int) == seq![line]);
                assert(std_lines_from(cs@, cs@.len() as int) == Seq::<Seq<char>>::empty());
                assert(all =~= done.push(line) + std_lines_from(cs@, cs@.len() as int));
            } else {
                assert(std_lines_from(cs@, i as int) == seq![line] + std_lines_from(cs@, e + 1));
                assert(all =~= done.push(line) + std_lines_from(cs@, e + 1));
            }
            done = done.push(line);
        }
        idx = idx + 1;
        i = if e >= cs.len() { cs.len() } else { e + 1 };
    }
    proof {
        assert(std_lines_from(cs@, i as int) == Seq::<Seq<char>>::empty());
        assert(all =~= done);
    }
    table
}

} // verus!

verus! {

/// A list with each line replaced by its non-blank translation, if the
/// table has one for (quest, list name, line number).
pub open spec fn translated(list: Seq<Seq<char>>, quest_index: i32, typ: Seq<char>, m: Map<(i32, Seq<char>, i32), Seq<char>>) -> Seq<Seq<char>> {
    Seq::new(
        list.len(),
        |i: int|
            {
                let k = (quest_index, typ, i as i32);
                if m.contains_key(k) && trimmed(m[k]).len() > 0 {
                    m[k]
                } else {
                    list[i]
                }
            },
    )
}

/// Replaces each line of a list by its non-blank translation, if any.
pub fn apply_translations(quest_index: i32, typ: &str, list: &mut Vec<String>, map: &TranslationMap)
    ensures
        texts(final(list)@) == translated(texts(old(list)@), quest_index, typ@, map@),
{
    let ghost before = texts(list@);
    let mut i: usize = 0;
    while i < list.len()
        invariant
            0 <= i <= list@.len(),
            before.len() == list@.len(),
            forall|k: int| 0 <= k < i ==> #[trigger] texts(list@)[k] == translated(before, quest_index, typ@, map@)[k],
            forall|k: int| i <= k < list@.len() ==> #[trigger] texts(list@)[k] == before[k],
        decreases list@.len() - i,
    {
        match map.get(quest_index, typ, i as i32) {
            Some(v) => {
                let vs = chars_of(v.as_str());
                let (a, b) = trim_bounds(&vs, 0, vs.len());
                proof {
                    assert(vs@.subrange(0, vs@.len() as int) == vs@);
                }
                if a < b {
                    let ghost old_list = list@;
                    list.set(i, v.clone());
                    proof {
                        assert forall|k: int| 0 <= k < list@.len() && k != i implies #[trigger] texts(list@)[k] == texts(old_list)[k] by {
                            assert(list@[k] == old_list[k]);
                        }
                    }
                }
            },
            None => {},
        }
        i = i + 1;
    }
    proof {
        assert(texts(list@) =~= translated(before, quest_index, typ@, map@));
    }
}

/// An item task as plain values.
pub open spec fn item_view(t: QuestItemTask) -> (i32, u16, Seq<char>) {
    (t.item_index, t.count, t.message@)
}

/// A kill task as plain values.
pub open spec fn kill_view(t: QuestKillTask) -> (i32, i32, Seq<char>) {
    (t.monster_index, t.count, t.message@)
}

/// A flag task as plain values.
pub open spec fn flag_view(t: QuestFlagTask) -> (i32, Seq<char>) {
    (t.number, t.message@)
}

/// The lookup gave these answers for the first fields of the non-empty
/// lines.
pub open spec fn lines_answered<F: Fn(&str) -> Option<i32>>(f: F, lines: Seq<Seq<char>>, ans: Seq<Option<i32>>) -> bool {
    &&& ans.len() == lines.len()
    &&& forall|j: int| 0 <= j < lines.len() && lines[j].len() > 0 ==> answers(f, first_field(lines[j]), #[trigger] ans[j])
}

/// The item tasks item lines give with these answers.
pub open spec fn items_from(lines: Seq<Seq<char>>, ans: Seq<Option<i32>>) -> Seq<(i32, u16, Seq<char>)>
    decreases lines.len(),
{
    if lines.len() == 0 {
        Seq::empty()
    } else {
        let l = lines.last();
        items_from(lines.drop_last(), ans.drop_last()) + match ans.last() {
            Some(i) => if l.len() > 0 {
                seq![(i, line_count(l, u16::MAX as int, false) as u16, first_quoted(l))]
            } else {
                Seq::empty()
            },
            None => Seq::empty(),
        }
    }
}

/// The kill tasks kill lines give with these answers.
pub open spec fn kills_from(lines: Seq<Seq<char>>, ans: Seq<Option<i32>>) -> Seq<(i32, i32, Seq<char>)>
    decreases lines.len(),
{
    if lines.len() == 0 {
        Seq::empty()
    } else {
        let l = lines.last();
        kills_from(lines.drop_last(), ans.drop_last()) + match ans.last() {
            Some(i) => if l.len() > 0 {
                seq![(i, line_count(l, i32::MAX as int, true) as i32, first_quoted(l))]
            } else {
                Seq::empty()
            },
            None => Seq::empty(),
        }
    }
}

/// The flag tasks flag lines give.
pub open spec fn flags_from(lines: Seq<Seq<char>>) -> Seq<(i32, Seq<char>)>
    decreases lines.len(),
{
    if lines.len() == 0 {
        Seq::empty()
    } else {
        let l = lines.last();
        flags_from(lines.drop_last()) + if l.len() > 0 && 0 <= flag_number(l) <= 999 {
            seq![(flag_number(l) as i32, first_quoted(l))]
        } else {
            Seq::empty()
        }
    }
}

/// The lookup gave these answers for the names of the non-empty reward
/// lines.
pub open spec fn rewards_answered<F: Fn(&str) -> Option<i32>>(f: F, lines: Seq<Seq<char>>, ans: Seq<(Option<i32>, Option<i32>, Option<i32>)>) -> bool {
    &&& ans.len() == lines.len()
    &&& forall|j: int| 0 <= j < lines.len() && lines[j].len() > 0 ==> reward_answers(f, lines[j], (#[trigger] ans[j]).0, ans[j].1, ans[j].2)
}

/// The rewards reward lines give with these answers.
pub open spec fn rewards_from(lines: Seq<Seq<char>>, ans: Seq<(Option<i32>, Option<i32>, Option<i32>)>) -> Seq<QuestItemReward>
    decreases lines.len(),
{
    if lines.len() == 0 {
        Seq::empty()
    } else {
        let l = lines.last();
        let a = ans.last();
        rewards_from(lines.drop_last(), ans.drop_last()) + if l.len() > 0 {
            rewards_added(l, a.0, a.1, a.2)
        } else {
            Seq::empty()
        }
    }
}

/// The last line that reads as a `u32`, or 0.
pub open spec fn last_number(lines: Seq<Seq<char>>) -> u32
    decreases lines.len(),
{
    if lines.len() == 0 {
        0
    } else {
        match parse_int(lines.last(), 0, u32::MAX as int, false) {
            Some(v) => v as u32,
            None => last_number(lines.drop_last()),
        }
    }
}

} // verus!

verus! {

fn collect_items<F: Fn(&str) -> Option<i32>>(lines: &Vec<String>, f: &F) -> (r: Vec<QuestItemTask>)
    requires
        always_callable(*f),
    ensures
        exists|ans: Seq<Option<i32>>| lines_answered(*f, texts(lines@), ans) && #[trigger] items_from(texts(lines@), ans)
            == r@.map_values(|t: QuestItemTask| item_view(t)),
{
    let ghost ls = texts(lines@);
    let ghost mut ans: Seq<Option<i32>> = Seq::empty();
    let mut out: Vec<QuestItemTask> = Vec::new();
    let mut i: usize = 0;
    while i < lines.len()
        invariant
            0 <= i <= lines@.len(),
            ls == texts(lines@),
            always_callable(*f),
            lines_answered(*f, ls.take(i as int), ans),
            out@.map_values(|t: QuestItemTask| item_view(t)) == items_from(ls.take(i as int), ans),
        decreases lines@.len() - i,
    {
        let line = lines[i].as_str();
        let r = parse_item_task(line, f);
        let ghost before = out@;
        proof {
            let a = if line@.len() > 0 {
                choose|a: Option<i32>| answers(*f, first_field(line@), a) && #[trigger] item_task_fits(r, line@, a)
            } else {
                None
            };
            let t1 = ls.take(i as int + 1);
            assert(t1.drop_last() == ls.take(i as int));
            assert(t1.last() == line@);
            assert(ans.push(a).drop_last() == ans);
            assert forall|j: int| 0 <= j < t1.len() && t1[j].len() > 0 implies answers(*f, first_field(t1[j]), #[trigger] ans.push(a)[j]) by {
                if j < i {
                    assert(t1[j] == ls.take(i as int)[j]);
                }
            }
            ans = ans.push(a);
        }
        match r {
            Some(t) => {
                out.push(t);
            },
            None => {},
        }
        proof {
            assert(out@.map_values(|t: QuestItemTask| item_view(t)) =~= items_from(ls.take(i as int + 1), ans));
        }
        i = i + 1;
    }
    proof {
        assert(ls.take(lines@.len() as int) == ls);
    }
    out
}

fn collect_kills<F: Fn(&str) -> Option<i32>>(lines: &Vec<String>, f: &F) -> (r: Vec<QuestKillTask>)
    requires
        always_callable(*f),
    ensures
        exists|ans: Seq<Option<i32>>| lines_answered(*f, texts(lines@), ans) && #[trigger] kills_from(texts(lines@), ans)
            == r@.map_values(|t: QuestKillTask| kill_view(t)),
{
    let ghost ls = texts(lines@);
    let ghost mut ans: Seq<Option<i32>> = Seq::empty();
    let mut out: Vec<QuestKillTask> = Vec::new();
    let mut i: usize = 0;
    while i < lines.len()
        invariant
            0 <= i <= lines@.len(),
            ls == texts(lines@),
            always_callable(*f),
            lines_answered(*f, ls.take(i as int), ans),
            out@.map_values(|t: QuestKillTask| kill_view(t)) == kills_from(ls.take(i as int), ans),
        decreases lines@.len() - i,
    {
        let line = lines[i].as_str();
        let r = parse_kill_task(line, f);
        proof {
            let a = if line@.len() > 0 {
                choose|a: Option<i32>| answers(*f, first_field(line@), a) && #[trigger] kill_task_fits(r, line@, a)
            } else {
                None
            };
            let t1 = ls.take(i as int + 1);
            assert(t1.drop_last() == ls.take(i as int));
            assert(t1.last() == line@);
            assert(ans.push(a).drop_last() == ans);
            assert forall|j: int| 0 <= j < t1.len() && t1[j].len() > 0 implies answers(*f, first_field(t1[j]), #[trigger] ans.push(a)[j]) by {
                if j < i {
                    assert(t1[j] == ls.take(i as int)[j]);
                }
            }
            ans = ans.push(a);
        }
        match r {
            Some(t) => {
                out.push(t);
            },
            None => {},
        }
        proof {
            assert(out@.map_values(|t: QuestKillTask| kill_view(t)) =~= kills_from(ls.take(i as int + 1), ans));
        }
        i = i + 1;
    }
    proof {
        assert(ls.take(lines@.len() as int) == ls);
    }
    out
}

fn collect_flags(lines: &Vec<String>) -> (r: Vec<QuestFlagTask>)
    ensures
        r@.map_values(|t: QuestFlagTask| flag_view(t)) == flags_from(texts(lines@)),
{
    let ghost ls = texts(lines@);
    let mut out: Vec<QuestFlagTask> = Vec::new();
    let mut i: usize = 0;
    while i < lines.len()
        invariant
            0 <= i <= lines@.len(),
            ls == texts(lines@),
            out@.map_values(|t: QuestFlagTask| flag_view(t)) == flags_from(ls.take(i as int)),
        decreases lines@.len() - i,
    {
        let line = lines[i].as_str();
        let r = parse_flag_task(line);
        proof {
            let t1 = ls.take(i as int + 1);
            assert(t1.drop_last() == ls.take(i as int));
            assert(t1.last() == line@);
        }
        match r {
            Some(t) => {
                out.push(t);
            },
            None => {},
        }
        proof {
            assert(out@.map_values(|t: QuestFlagTask| flag_view(t)) =~= flags_from(ls.take(i as int + 1)));
        }
        i = i + 1;
    }
    proof {
        assert(ls.take(lines@.len() as int) == ls);
    }
    out
}

fn collect_rewards<F: Fn(&str) -> Option<i32>>(lines: &Vec<String>, f: &F) -> (r: Vec<QuestItemReward>)
    requires
        always_callable(*f),
    ensures
        exists|ans: Seq<(Option<i32>, Option<i32>, Option<i32>)>| rewards_answered(*f, texts(lines@), ans) && #[trigger] rewards_from(
            texts(lines@),
            ans,
        ) == r@,
{
    let ghost ls = texts(lines@);
    let ghost mut ans: Seq<(Option<i32>, Option<i32>, Option<i32>)> = Seq::empty();
    let mut out: Vec<QuestItemReward> = Vec::new();
    let mut i: usize = 0;
    while i < lines.len()
        invariant
            0 <= i <= lines@.len(),
            ls == texts(lines@),
            always_callable(*f),
            rewards_answered(*f, ls.take(i as int), ans),
            out@ == rewards_from(ls.take(i as int), ans),
        decreases lines@.len() - i,
    {
        let line = lines[i].as_str();
        let ghost before = out@;
        parse_reward_lines(&mut out, line, f);
        proof {
            let a = if line@.len() > 0 {
                choose|a: (Option<i32>, Option<i32>, Option<i32>)| reward_answers(*f, line@, a.0, a.1, a.2) && out@ == before
                    + #[trigger] rewards_added(line@, a.0, a.1, a.2)
            } else {
                (None, None, None)
            };
            if line@.len() > 0 {
                let (p, m, w) = choose|p: Option<i32>, m: Option<i32>, w: Option<i32>| reward_answers(*f, line@, p, m, w) && out@
                    == before + #[trigger] rewards_added(line@, p, m, w);
                assert(reward_answers(*f, line@, (p, m, w).0, (p, m, w).1, (p, m, w).2) && out@ == before + rewards_added(
                    line@,
                    (p, m, w).0,
                    (p, m, w).1,
                    (p, m, w).2,
                ));
            }
            let t1 = ls.take(i as int + 1);
            assert(t1.drop_last() == ls.take(i as int));
            assert(t1.last() == line@);
            assert(ans.push(a).drop_last() == ans);
            assert forall|j: int| 0 <= j < t1.len() && t1[j].len() > 0 implies reward_answers(*f, t1[j], (#[trigger] ans.push(a)[j]).0, ans.push(a)[j].1, ans.push(a)[j].2) by {
                if j < i {
                    assert(t1[j] == ls.take(i as int)[j]);
                }
            }
            ans = ans.push(a);
            if line@.len() == 0 {
                assert(out@ =~= before + Seq::<QuestItemReward>::empty());
            }
        }
        i = i + 1;
    }
    proof {
        assert(ls.take(lines@.len() as int) == ls);
    }
    out
}

fn last_u32(lines: &Vec<String>) -> (r: u32)
    ensures
        r == last_number(texts(lines@)),
{
    let ghost ls = texts(lines@);
    let mut v: u32 = 0;
    let mut i: usize = 0;
    while i < lines.len()
        invariant
            0 <= i <= lines@.len(),
            ls == texts(lines@),
            v == last_number(ls.take(i as int)),
        decreases lines@.len() - i,
    {
        let cs = chars_of(lines[i].as_str());
        proof {
            let t1 = ls.take(i as int + 1);
            assert(t1.drop_last() == ls.take(i as int));
            assert(t1.last() == cs@);
            assert(cs@.subrange(0, cs@.len() as int) == cs@);
        }
        match parse_u32_in(&cs, 0, cs.len()) {
            Some(x) => {
                v = x;
            },
            None => {},
        }
        i = i + 1;
    }
    proof {
        assert(ls.take(lines@.len() as int) == ls);
    }
    v
}

} // verus!

verus! {

/// The lines under every copy of a header in a file.
pub open spec fn sec(lines: Seq<Seq<char>>, header: Seq<char>) -> Seq<Seq<char>> {
    section(lines, header, lines.len() as int)
}

/// A description list after the translations, when a table is given.
pub open spec fn described(list: Seq<Seq<char>>, quest_index: i32, typ: Seq<char>, table: Option<Map<(i32, Seq<char>, i32), Seq<char>>>) -> Seq<Seq<char>> {
    match table {
        Some(m) => translated(list, quest_index, typ, m),
        None => list,
    }
}

/// The table a translation argument holds.
pub open spec fn table_of(t: Option<&TranslationMap>) -> Option<Map<(i32, Seq<char>, i32), Seq<char>>> {
    match t {
        Some(m) => Some(m@),
        None => None,
    }
}

/// `d` is what a quest file's lines hold: each list from its section, the
/// description lists translated, the task and reward lines read with
/// answers the lookups give, and each reward amount from the last line of
/// its section that is a number.
pub open spec fn quest_text_fits<F: Fn(&str) -> Option<i32>, G: Fn(&str) -> Option<i32>>(
    d: QuestTextData,
    lines: Seq<Seq<char>>,
    quest_index: i32,
    item_lookup: F,
    monster_lookup: G,
    table: Option<Map<(i32, Seq<char>, i32), Seq<char>>>,
) -> bool {
    &&& texts(d.description@) == described(sec(lines, "[@DESCRIPTION]"@), quest_index, "Description"@, table)
    &&& texts(d.task_description@) == described(sec(lines, "[@TASKDESCRIPTION]"@), quest_index, "TaskDescription"@, table)
    &&& texts(d.return_description@) == described(sec(lines, "[@RETURNDESCRIPTION]"@), quest_index, "ReturnDescription"@, table)
    &&& texts(d.completion_description@) == described(sec(lines, "[@COMPLETION]"@), quest_index, "CompletionDescription"@, table)
    &&& exists|ans: Seq<Option<i32>>| lines_answered(item_lookup, sec(lines, "[@CARRYITEMS]"@), ans)
        && #[trigger] items_from(sec(lines, "[@CARRYITEMS]"@), ans) == d.carry_items@.map_values(|t: QuestItemTask| item_view(t))
    &&& exists|ans: Seq<Option<i32>>| lines_answered(monster_lookup, sec(lines, "[@KILLTASKS]"@), ans)
        && #[trigger] kills_from(sec(lines, "[@KILLTASKS]"@), ans) == d.kill_tasks@.map_values(|t: QuestKillTask| kill_view(t))
    &&& exists|ans: Seq<Option<i32>>| lines_answered(item_lookup, sec(lines, "[@ITEMTASKS]"@), ans)
        && #[trigger] items_from(sec(lines, "[@ITEMTASKS]"@), ans) == d.item_tasks@.map_values(|t: QuestItemTask| item_view(t))
    &&& d.flag_tasks@.map_values(|t: QuestFlagTask| flag_view(t)) == flags_from(sec(lines, "[@FLAGTASKS]"@))
    &&& exists|ans: Seq<(Option<i32>, Option<i32>, Option<i32>)>| rewards_answered(item_lookup, sec(lines, "[@FIXEDREWARDS]"@), ans)
        && #[trigger] rewards_from(sec(lines, "[@FIXEDREWARDS]"@), ans) == d.fixed_rewards@
    &&& exists|ans: Seq<(Option<i32>, Option<i32>, Option<i32>)>| rewards_answered(item_lookup, sec(lines, "[@SELECTREWARDS]"@), ans)
        && #[trigger] rewards_from(sec(lines, "[@SELECTREWARDS]"@), ans) == d.select_rewards@
    &&& d.exp_reward == last_number(sec(lines, "[@EXPREWARD]"@))
    &&& d.gold_reward == last_number(sec(lines, "[@GOLDREWARD]"@))
    &&& d.credit_reward == last_number(sec(lines, "[@CREDITREWARD]"@))
}

fn describe(lines: &Vec<String>, header: &str, quest_index: i32, typ: &str, translations: Option<&TranslationMap>) -> (r: Vec<String>)
    ensures
        texts(r@) == described(sec(texts(lines@), header@), quest_index, typ@, table_of(translations)),
{
    let mut list = section_lines(lines, header);
    match translations {
        Some(map) => {
            if !map.is_empty() {
                apply_translations(quest_index, typ, &mut list, map);
            } else {
                proof {
                    assert(translated(texts(list@), quest_index, typ@, map@) =~= texts(list@));
                }
            }
        },
        None => {},
    }
    list
}

/// Reads the lines of a quest file: every section under its header (any
/// ASCII case), the task and reward lines through the lookups, and the
/// description lists translated when a table is given.
pub fn parse_quest_text<F: Fn(&str) -> Option<i32>, G: Fn(&str) -> Option<i32>>(
    lines: &Vec<String>,
    quest_index: i32,
    item_lookup: &F,
    monster_lookup: &G,
    translations: Option<&TranslationMap>,
) -> (r: QuestTextData)
    requires
        always_callable(*item_lookup),
        always_callable(*monster_lookup),
    ensures
        quest_text_fits(r, texts(lines@), quest_index, *item_lookup, *monster_lookup, table_of(translations)),
{
    let description = describe(lines, "[@DESCRIPTION]", quest_index, "Description", translations);
    let task_description = describe(lines, "[@TASKDESCRIPTION]", quest_index, "TaskDescription", translations);
    let return_description = describe(lines, "[@RETURNDESCRIPTION]", quest_index, "ReturnDescription", translations);
    let completion_description = describe(lines, "[@COMPLETION]", quest_index, "CompletionDescription", translations);
    let carry_lines = section_lines(lines, "[@CARRYITEMS]");
    let carry_items = collect_items(&carry_lines, item_lookup);
    let kill_lines = section_lines(lines, "[@KILLTASKS]");
    let kill_tasks = collect_kills(&kill_lines, monster_lookup);
    let item_lines = section_lines(lines, "[@ITEMTASKS]");
    let item_tasks = collect_items(&item_lines, item_lookup);
    let flag_tasks = collect_flags(&section_lines(lines, "[@FLAGTASKS]"));
    let fixed_lines = section_lines(lines, "[@FIXEDREWARDS]");
    let fixed_rewards = collect_rewards(&fixed_lines, item_lookup);
    let select_lines = section_lines(lines, "[@SELECTREWARDS]");
    let select_rewards = collect_rewards(&select_lines, item_lookup);
    let exp_reward = last_u32(&section_lines(lines, "[@EXPREWARD]"));
    let gold_reward = last_u32(&section_lines(lines, "[@GOLDREWARD]"));
    let credit_reward = last_u32(&section_lines(lines, "[@CREDITREWARD]"));
    proof {
        let ls = texts(lines@);
        let a1 = choose|ans: Seq<Option<i32>>| lines_answered(*item_lookup, texts(carry_lines@), ans) && #[trigger] items_from(texts(carry_lines@), ans)
            == carry_items@.map_values(|t: QuestItemTask| item_view(t));
        assert(lines_answered(*item_lookup, sec(ls, "[@CARRYITEMS]"@), a1) && items_from(sec(ls, "[@CARRYITEMS]"@), a1)
            == carry_items@.map_values(|t: QuestItemTask| item_view(t)));
        let a2 = choose|ans: Seq<Option<i32>>| lines_answered(*monster_lookup, texts(kill_lines@), ans) && #[trigger] kills_from(texts(kill_lines@), ans)
            == kill_tasks@.map_values(|t: QuestKillTask| kill_view(t));
        assert(lines_answered(*monster_lookup, sec(ls, "[@KILLTASKS]"@), a2) && kills_from(sec(ls, "[@KILLTASKS]"@), a2)
            == kill_tasks@.map_values(|t: QuestKillTask| kill_view(t)));
        let a3 = choose|ans: Seq<Option<i32>>| lines_answered(*item_lookup, texts(item_lines@), ans) && #[trigger] items_from(texts(item_lines@), ans)
            == item_tasks@.map_values(|t: QuestItemTask| item_view(t));
        assert(lines_answered(*item_lookup, sec(ls, "[@ITEMTASKS]"@), a3) && items_from(sec(ls, "[@ITEMTASKS]"@), a3)
            == item_tasks@.map_values(|t: QuestItemTask| item_view(t)));
        let a4 = choose|ans: Seq<(Option<i32>, Option<i32>, Option<i32>)>| rewards_answered(*item_lookup, texts(fixed_lines@), ans) && #[trigger] rewards_from(
            texts(fixed_lines@),
            ans,
        ) == fixed_rewards@;
        assert(rewards_answered(*item_lookup, sec(ls, "[@FIXEDREWARDS]"@), a4) && rewards_from(sec(ls, "[@FIXEDREWARDS]"@), a4) == fixed_rewards@);
        let a5 = choose|ans: Seq<(Option<i32>, Option<i32>, Option<i32>)>| rewards_answered(*item_lookup, texts(select_lines@), ans) && #[trigger] rewards_from(
            texts(select_lines@),
            ans,
        ) == select_rewards@;
        assert(rewards_answered(*item_lookup, sec(ls, "[@SELECTREWARDS]"@), a5) && rewards_from(sec(ls, "[@SELECTREWARDS]"@), a5) == select_rewards@);
    }
    QuestTextData {
        description,
        task_description,
        return_description,
        completion_description,
        carry_items,
        kill_tasks,
        item_tasks,
        flag_tasks,
        fixed_rewards,
        select_rewards,
        exp_reward,
        gold_reward,
        credit_reward,
    }
}

} // verus!

verus! {

proof fn lemma_block_content(lines: Seq<Seq<char>>, j: int)
    ensures
        forall|k: int| 0 <= k < block(lines, j).len() ==> (#[trigger] block(lines, j)[k]).len() > 0 && !is_stop(block(lines, j)[k]),
    decreases lines.len() - j,
{
    if !(j >= lines.len() || j < 0 || is_stop(lines[j])) {
        lemma_block_content(lines, j + 1);
        let head: Seq<Seq<char>> = if lines[j].len() == 0 {
            Seq::empty()
        } else {
            seq![lines[j]]
        };
        assert forall|k: int| 0 <= k < block(lines, j).len() implies (#[trigger] block(lines, j)[k]).len() > 0 && !is_stop(block(lines, j)[k]) by {
            if k >= head.len() {
                assert(block(lines, j)[k] == block(lines, j + 1)[k - head.len()]);
            }
        }
    }
}

/// Every line a section holds is non-empty and neither starts with '['
/// nor with "//".
pub proof fn law_section_lines_are_content(lines: Seq<Seq<char>>, header: Seq<char>, n: int)
    ensures
        forall|k: int| 0 <= k < section(lines, header, n).len() ==> (#[trigger] section(lines, header, n)[k]).len() > 0
            && !is_stop(section(lines, header, n)[k]),
    decreases n,
{
    if n > 0 {
        law_section_lines_are_content(lines, header, n - 1);
        lemma_block_content(lines, n);
        let front = section(lines, header, n - 1);
        assert forall|k: int| 0 <= k < section(lines, header, n).len() implies (#[trigger] section(lines, header, n)[k]).len() > 0
            && !is_stop(section(lines, header, n)[k]) by {
            if k < front.len() {
                assert(section(lines, header, n)[k] == front[k]);
            } else {
                assert(section(lines, header, n)[k] == block(lines, n)[k - front.len()]);
            }
        }
    }
}

/// Every flag task a file gives names a flag from 0 to 999.
pub proof fn law_flag_numbers_in_range(lines: Seq<Seq<char>>)
    ensures
        forall|k: int| 0 <= k < flags_from(lines).len() ==> 0 <= (#[trigger] flags_from(lines)[k]).0 <= 999,
    decreases lines.len(),
{
    if lines.len() > 0 {
        law_flag_numbers_in_range(lines.drop_last());
        let front = flags_from(lines.drop_last());
        assert forall|k: int| 0 <= k < flags_from(lines).len() implies 0 <= (#[trigger] flags_from(lines)[k]).0 <= 999 by {
            if k < front.len() {
                assert(flags_from(lines)[k] == front[k]);
            }
        }
    }
}

/// The first row of a translation CSV is a header: whatever it holds, the
/// table is the same.
pub proof fn law_csv_header_row_ignored(lines: Seq<Seq<char>>, header: Seq<char>, n: int)
    requires
        lines.len() > 0,
        n <= lines.len(),
    ensures
        csv_table(lines.update(0, header), n) == csv_table(lines, n),
    decreases n,
{
    if n > 1 {
        law_csv_header_row_ignored(lines, header, n - 1);
        assert(lines.update(0, header)[n - 1] == lines[n - 1]);
    }
}

} // verus!
