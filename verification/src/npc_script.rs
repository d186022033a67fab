//! NPC dialogue scripts: an `#IF` segment's condition lines, its `#SAY` and
//! `#ELSESAY` text, and which text the player sees.
use vstd::prelude::*;
use vstd::string::StringExecFns;
use crate::quest_text::header_matches;
use crate::scan::{chars_of, is_whitespace, is_ws, parse_int, parse_i32_in, parse_i64_in, parse_u32_in, trim_bounds, trimmed};

verus! {

/// The first position at or after `i` that is not whitespace, or the length.
pub open spec fn skip_ws(s: Seq<char>, i: int) -> int
    decreases s.len() - i,
{
    if i >= s.len() {
        s.len() as int
    } else if is_ws(s[i]) {
        skip_ws(s, i + 1)
    } else {
        i
    }
}

/// The first whitespace position at or after `i`, or the length.
pub open spec fn word_end(s: Seq<char>, i: int) -> int
    decreases s.len() - i,
{
    if i >= s.len() {
        s.len() as int
    } else if is_ws(s[i]) {
        i
    } else {
        word_end(s, i + 1)
    }
}

/// The whitespace-separated words from position `i`, as
/// `str::split_whitespace` gives them.
pub open spec fn words_from(s: Seq<char>, i: int) -> Seq<Seq<char>>
    decreases s.len() - i,
{
    if i < 0 || i >= s.len() {
        Seq::empty()
    } else {
        let a = skip_ws(s, i);
        if a >= s.len() {
            Seq::empty()
        } else {
            let b = word_end(s, a);
            if i <= a < b <= s.len() {
                seq![s.subrange(a, b)] + words_from(s, b)
            } else {
                Seq::empty()
            }
        }
    }
}

proof fn lemma_skip_ws(s: Seq<char>, i: int)
    requires
        0 <= i <= s.len(),
    ensures
        i <= skip_ws(s, i) <= s.len(),
        skip_ws(s, i) < s.len() ==> !is_ws(s[skip_ws(s, i)]),
    decreases s.len() - i,
{
    if i < s.len() && is_ws(s[i]) {
        lemma_skip_ws(s, i + 1);
    }
}

proof fn lemma_word_end(s: Seq<char>, i: int)
    requires
        0 <= i <= s.len(),
    ensures
        i <= word_end(s, i) <= s.len(),
    decreases s.len() - i,
{
    if i < s.len() && !is_ws(s[i]) {
        lemma_word_end(s, i + 1);
    }
}

/// The bounds of the whitespace-separated words of a line.
pub(crate) fn word_bounds(cs: &Vec<char>) -> (r: Vec<(usize, usize)>)
    ensures
        r@.len() == words_from(cs@, 0).len(),
        forall|k: int| 0 <= k < r@.len() ==> (#[trigger] r@[k]).0 <= r@[k].1 <= cs@.len() && cs@.subrange(r@[k].0 as int, r@[k].1 as int)
            == words_from(cs@, 0)[k],
{
    let ghost all = words_from(cs@, 0);
    let mut out: Vec<(usize, usize)> = Vec::new();
    let ghost mut done: Seq<Seq<char>> = Seq::empty();
    let mut i: usize = 0;
    while i < cs.len()
        invariant
            0 <= i <= cs@.len(),
            all == words_from(cs@, 0),
            all == done + words_from(cs@, i as int),
            out@.len() == done.len(),
            forall|k: int| 0 <= k < out@.len() ==> (#[trigger] out@[k]).0 <= out@[k].1 <= cs@.len() && cs@.subrange(out@[k].0 as int, out@[k].1 as int)
                == done[k],
        decreases cs@.len() - i,
    {
        let mut a: usize = i;
        while a < cs.len() && is_whitespace(cs[a])
            invariant
                i <= a <= cs@.len(),
                skip_ws(cs@, i as int) == skip_ws(cs@, a as int),
            decreases cs@.len() - a,
        {
            a = a + 1;
        }
        if a >= cs.len() {
            proof {
                assert(words_from(cs@, i as int) == Seq::<Seq<char>>::empty());
                assert(words_from(cs@, cs@.len() as int) == Seq::<Seq<char>>::empty());
            }
            i = a;
        } else {
            let mut b: usize = a;
            while b < cs.len() && !is_whitespace(cs[b])
                invariant
                    a <= b <= cs@.len(),
                    word_end(cs@, a as int) == word_end(cs@, b as int),
                decreases cs@.len() - b,
            {
                b = b + 1;
            }
            proof {
                lemma_skip_ws(cs@, i as int);
                lemma_word_end(cs@, a as int);
                assert(!is_ws(cs@[a as int]));
                assert(b > a);
                assert(words_from(cs@, i as int) == seq![cs@.subrange(a as int, b as int)] + words_from(cs@, b as int));
                assert(all =~= done.push(cs@.subrange(a as int, b as int)) + words_from(cs@, b as int));
                done = done.push(cs@.subrange(a as int, b as int));
            }
            out.push((a, b));
            i = b;
        }
    }
    proof {
        assert(words_from(cs@, i as int) == Seq::<Seq<char>>::empty());
        assert(all =~= done);
    }
    out
}

} // verus!

verus! {

/// What one line of an `#IF` segment's condition block is.
pub enum CondLine {
    /// Blank or a `;` comment.
    Skip,
    /// `[@...` or a `#` directive: the condition block ends.
    Stop,
    /// A condition this renderer reads; a PK-point check carries its
    /// operator and value.
    Cond(Option<(Seq<char>, int)>),
    /// A condition it cannot read, or a malformed one.
    Reject,
}

/// `s` starts with `p`.
pub open spec fn starts_with(s: Seq<char>, p: Seq<char>) -> bool {
    s.len() >= p.len() && s.subrange(0, p.len() as int) == p
}

/// A word parses as an integer type with the given bounds.
pub open spec fn reads_as(w: Seq<char>, min: int, max: int, signed: bool) -> bool {
    parse_int(w, min, max, signed) is Some
}

/// A word parses as an `i64`.
pub open spec fn is_i64(w: Seq<char>) -> bool {
    reads_as(w, i64::MIN as int, i64::MAX as int, true)
}

/// A word parses as an `i32`.
pub open spec fn is_i32(w: Seq<char>) -> bool {
    reads_as(w, i32::MIN as int, i32::MAX as int, true)
}

/// A word parses as a `u32`.
pub open spec fn is_u32(w: Seq<char>) -> bool {
    reads_as(w, 0, u32::MAX as int, false)
}

/// A condition line, already trimmed, as the renderer reads it. The kind is
/// its upper-cased prefix, tried in this order; each kind needs its words.
pub open spec fn cond_line(t: Seq<char>) -> CondLine {
    let u = t.map_values(|c: char| crate::quest_text::ascii_upper(c));
    let w = words_from(t, 0);
    if t.len() == 0 || t[0] == ';' {
        CondLine::Skip
    } else if starts_with(t, "[@"@) || t[0] == '#' {
        CondLine::Stop
    } else if starts_with(u, "CHECKTIMER"@) {
        if w.len() < 4 || !is_i64(w[2]) { CondLine::Reject } else { CondLine::Cond(None) }
    } else if starts_with(u, "LEVEL"@) || starts_with(u, "CHECKGOLD"@) || starts_with(u, "CHECKCREDIT"@) {
        if w.len() < 3 || !is_i64(w[2]) { CondLine::Reject } else { CondLine::Cond(None) }
    } else if starts_with(u, "CHECKPKPOINT"@) {
        if w.len() < 3 || !is_i64(w[2]) {
            CondLine::Reject
        } else {
            CondLine::Cond(Some((w[1], parse_int(w[2], i64::MIN as int, i64::MAX as int, true)->0)))
        }
    } else if starts_with(u, "CHECKGENDER"@) {
        if w.len() < 2 || !(header_matches(w[1], "MALE"@) || header_matches(w[1], "FEMALE"@)) {
            CondLine::Reject
        } else {
            CondLine::Cond(None)
        }
    } else if starts_with(u, "CHECKCLASS"@) {
        if w.len() < 2 || !(header_matches(w[1], "WARRIOR"@) || header_matches(w[1], "WIZARD"@) || header_matches(
            w[1],
            "TAOIST"@,
        ) || header_matches(w[1], "ASSASSIN"@) || header_matches(w[1], "ARCHER"@)) {
            CondLine::Reject
        } else {
            CondLine::Cond(None)
        }
    } else if starts_with(u, "CHECKMAP"@) {
        if w.len() < 2 { CondLine::Reject } else { CondLine::Cond(None) }
    } else if starts_with(u, "CHECKRANGE"@) {
        if w.len() < 4 || !is_i32(w[1]) || !is_i32(w[2]) || !is_i32(w[3]) { CondLine::Reject } else { CondLine::Cond(None) }
    } else if starts_with(u, "DAYOFWEEK"@) {
        if w.len() < 2 { CondLine::Reject } else { CondLine::Cond(None) }
    } else if starts_with(u, "HOUR"@) || starts_with(u, "MIN"@) {
        if w.len() < 2 || !is_u32(w[1]) { CondLine::Reject } else { CondLine::Cond(None) }
    } else if starts_with(u, "RANDOM"@) {
        if w.len() < 2 || !is_i32(w[1]) || parse_int(w[1], i32::MIN as int, i32::MAX as int, true)->0 <= 0 {
            CondLine::Reject
        } else {
            CondLine::Cond(None)
        }
    } else if starts_with(u, "CHECKITEM"@) {
        if w.len() < 2 { CondLine::Reject } else { CondLine::Cond(None) }
    } else if starts_with(u, "CHECKHUM"@) || starts_with(u, "CHECKMON"@) {
        if w.len() < 3 || !is_i32(w[2]) { CondLine::Reject } else { CondLine::Cond(None) }
    } else if starts_with(u, "CHECKEXACTMON"@) {
        if w.len() < 4 || !is_i32(w[3]) { CondLine::Reject } else { CondLine::Cond(None) }
    } else {
        CondLine::Reject
    }
}

} // verus!

verus! {

/// A condition line as read.
pub enum LineKind {
    Skip,
    Stop,
    /// A readable condition; a PK-point check carries its operator and value.
    Cond(Option<(String, i64)>),
    Reject,
}

/// The read line agrees with the spec's reading.
pub open spec fn kind_fits(r: LineKind, c: CondLine) -> bool {
    match c {
        CondLine::Skip => r is Skip,
        CondLine::Stop => r is Stop,
        CondLine::Reject => r is Reject,
        CondLine::Cond(None) => r matches LineKind::Cond(None),
        CondLine::Cond(Some((op, v))) => r matches LineKind::Cond(Some((o, x))) && o@ == op && x == v,
    }
}

pub(crate) fn sub_chars(cs: &Vec<char>, a: usize, b: usize) -> (r: Vec<char>)
    requires
        a <= b <= cs@.len(),
    ensures
        r@ == cs@.subrange(a as int, b as int),
{
    let mut out: Vec<char> = Vec::new();
    let mut i: usize = a;
    while i < b
        invariant
            a <= i <= b <= cs@.len(),
            out@ == cs@.subrange(a as int, i as int),
        decreases b - i,
    {
        out.push(cs[i]);
        proof {
            assert(out@ =~= cs@.subrange(a as int, i as int + 1));
        }
        i = i + 1;
    }
    out
}

pub(crate) fn upper_chars(cs: &Vec<char>) -> (r: Vec<char>)
    ensures
        r@ == cs@.map_values(|c: char| crate::quest_text::ascii_upper(c)),
{
    let mut out: Vec<char> = Vec::new();
    let mut i: usize = 0;
    while i < cs.len()
        invariant
            0 <= i <= cs@.len(),
            out@ == cs@.take(i as int).map_values(|c: char| crate::quest_text::ascii_upper(c)),
        decreases cs@.len() - i,
    {
        out.push(crate::quest_text::upper_char(cs[i]));
        proof {
            assert(out@ =~= cs@.take(i as int + 1).map_values(|c: char| crate::quest_text::ascii_upper(c)));
        }
        i = i + 1;
    }
    proof {
        assert(cs@.take(cs@.len() as int) == cs@);
    }
    out
}

pub(crate) fn has_prefix(s: &Vec<char>, p: &str) -> (r: bool)
    ensures
        r == starts_with(s@, p@),
{
    let ps = chars_of(p);
    if s.len() < ps.len() {
        return false;
    }
    let mut i: usize = 0;
    while i < ps.len()
        invariant
            0 <= i <= ps@.len() <= s@.len(),
            ps@ == p@,
            forall|k: int| 0 <= k < i ==> s@[k] == ps@[k],
        decreases ps@.len() - i,
    {
        if s[i] != ps[i] {
            proof {
                assert(s@.subrange(0, ps@.len() as int)[i as int] != ps@[i as int]);
            }
            return false;
        }
        i = i + 1;
    }
    proof {
        assert(s@.subrange(0, ps@.len() as int) =~= ps@);
    }
    true
}

pub(crate) fn word_is(tv: &Vec<char>, bounds: (usize, usize), name: &str) -> (r: bool)
    requires
        bounds.0 <= bounds.1 <= tv@.len(),
    ensures
        r == header_matches(tv@.subrange(bounds.0 as int, bounds.1 as int), name@),
{
    let w = sub_chars(tv, bounds.0, bounds.1);
    let n = chars_of(name);
    crate::quest_text::is_header(&w, &n)
}

} // verus!

verus! {

/// Reads one condition line.
pub fn classify(line: &str) -> (r: LineKind)
    ensures
        kind_fits(r, cond_line(trimmed(line@))),
{
    let cs = chars_of(line);
    let (a, b) = trim_bounds(&cs, 0, cs.len());
    proof {
        assert(cs@.subrange(0, cs@.len() as int) == cs@);
    }
    let tv = sub_chars(&cs, a, b);
    let ghost t = tv@;
    if tv.len() == 0 || tv[0] == ';' {
        return LineKind::Skip;
    }
    if has_prefix(&tv, "[@") || tv[0] == '#' {
        return LineKind::Stop;
    }
    let u = upper_chars(&tv);
    let wb = word_bounds(&tv);
    let n = wb.len();
    proof {
        assert forall|k: int| 0 <= k < n implies (#[trigger] wb@[k]).0 <= wb@[k].1 <= tv@.len() by {}
    }
    if has_prefix(&u, "CHECKTIMER") {
        if n < 4 || parse_i64_in(&tv, wb[2].0, wb[2].1).is_none() {
            return LineKind::Reject;
        }
        return LineKind::Cond(None);
    }
    if has_prefix(&u, "LEVEL") || has_prefix(&u, "CHECKGOLD") || has_prefix(&u, "CHECKCREDIT") {
        if n < 3 || parse_i64_in(&tv, wb[2].0, wb[2].1).is_none() {
            return LineKind::Reject;
        }
        return LineKind::Cond(None);
    }
    if has_prefix(&u, "CHECKPKPOINT") {
        if n < 3 {
            return LineKind::Reject;
        }
        match parse_i64_in(&tv, wb[2].0, wb[2].1) {
            None => {
                return LineKind::Reject;
            },
            Some(v) => {
                let ts = crate::scan::piece(line, a, b);
                let op = crate::scan::piece(ts.as_str(), wb[1].0, wb[1].1);
                return LineKind::Cond(Some((op, v)));
            },
        }
    }
    if has_prefix(&u, "CHECKGENDER") {
        if n < 2 || !(word_is(&tv, wb[1], "MALE") || word_is(&tv, wb[1], "FEMALE")) {
            return LineKind::Reject;
        }
        return LineKind::Cond(None);
    }
    if has_prefix(&u, "CHECKCLASS") {
        if n < 2 || !(word_is(&tv, wb[1], "WARRIOR") || word_is(&tv, wb[1], "WIZARD") || word_is(&tv, wb[1], "TAOIST")
            || word_is(&tv, wb[1], "ASSASSIN") || word_is(&tv, wb[1], "ARCHER")) {
            return LineKind::Reject;
        }
        return LineKind::Cond(None);
    }
    if has_prefix(&u, "CHECKMAP") {
        if n < 2 {
            return LineKind::Reject;
        }
        return LineKind::Cond(None);
    }
    if has_prefix(&u, "CHECKRANGE") {
        if n < 4 || parse_i32_in(&tv, wb[1].0, wb[1].1).is_none() || parse_i32_in(&tv, wb[2].0, wb[2].1).is_none()
            || parse_i32_in(&tv, wb[3].0, wb[3].1).is_none() {
            return LineKind::Reject;
        }
        return LineKind::Cond(None);
    }
    if has_prefix(&u, "DAYOFWEEK") {
        if n < 2 {
            return LineKind::Reject;
        }
        return LineKind::Cond(None);
    }
    if has_prefix(&u, "HOUR") || has_prefix(&u, "MIN") {
        if n < 2 || parse_u32_in(&tv, wb[1].0, wb[1].1).is_none() {
            return LineKind::Reject;
        }
        return LineKind::Cond(None);
    }
    if has_prefix(&u, "RANDOM") {
        if n < 2 {
            return LineKind::Reject;
        }
        match parse_i32_in(&tv, wb[1].0, wb[1].1) {
            Some(v) => {
                if v > 0 {
                    return LineKind::Cond(None);
                }
                return LineKind::Reject;
            },
            None => {
                return LineKind::Reject;
            },
        }
    }
    if has_prefix(&u, "CHECKITEM") {
        if n < 2 {
            return LineKind::Reject;
        }
        return LineKind::Cond(None);
    }
    if has_prefix(&u, "CHECKHUM") || has_prefix(&u, "CHECKMON") {
        if n < 3 || parse_i32_in(&tv, wb[2].0, wb[2].1).is_none() {
            return LineKind::Reject;
        }
        return LineKind::Cond(None);
    }
    if has_prefix(&u, "CHECKEXACTMON") {
        if n < 4 || parse_i32_in(&tv, wb[3].0, wb[3].1).is_none() {
            return LineKind::Reject;
        }
        return LineKind::Cond(None);
    }
    LineKind::Reject
}

} // verus!

verus! {

/// The text of each line.
pub open spec fn strs(lines: Seq<&str>) -> Seq<Seq<char>> {
    lines.map_values(|s: &str| s@)
}

/// The condition block from line `i`: none when a line is unreadable;
/// else where the block ends, whether any condition was read, and the
/// PK-point checks in order.
pub open spec fn conds_from(lines: Seq<Seq<char>>, i: int) -> Option<(int, bool, Seq<(Seq<char>, int)>)>
    decreases lines.len() - i,
{
    if i < 0 || i >= lines.len() {
        Some((i, false, Seq::empty()))
    } else {
        match cond_line(trimmed(lines[i])) {
            CondLine::Skip => conds_from(lines, i + 1),
            CondLine::Stop => Some((i, false, Seq::empty())),
            CondLine::Reject => None,
            CondLine::Cond(pk) => match conds_from(lines, i + 1) {
                None => None,
                Some((j, _any, ps)) => Some(
                    (
                        j,
                        true,
                        match pk {
                            Some(p) => seq![p] + ps,
                            None => ps,
                        },
                    ),
                ),
            },
        }
    }
}

/// The text block from line `j` in state `block` (0 before any `#SAY`, 1
/// in `#SAY`, 2 in `#ELSESAY`): where it ends (at `[@`, `#IF` or another
/// `#` directive), the say lines and the else-say lines, untrimmed.
pub open spec fn says_from(lines: Seq<Seq<char>>, j: int, block: int) -> (int, Seq<Seq<char>>, Seq<Seq<char>>)
    decreases lines.len() - j,
{
    if j < 0 || j >= lines.len() {
        (j, Seq::empty(), Seq::empty())
    } else {
        let t = trimmed(lines[j]);
        if starts_with(t, "[@"@) || header_matches(t, "#IF"@) {
            (j, Seq::empty(), Seq::empty())
        } else if header_matches(t, "#SAY"@) {
            says_from(lines, j + 1, 1)
        } else if header_matches(t, "#ELSESAY"@) {
            says_from(lines, j + 1, 2)
        } else if t.len() > 0 && t[0] == '#' {
            (j, Seq::empty(), Seq::empty())
        } else {
            let rest = says_from(lines, j + 1, block);
            if block == 1 {
                (rest.0, seq![lines[j]] + rest.1, rest.2)
            } else if block == 2 {
                (rest.0, rest.1, seq![lines[j]] + rest.2)
            } else {
                rest
            }
        }
    }
}

/// A PK-point check: none for an operator the renderer does not know.
pub open spec fn op_holds(op: Seq<char>, pk: int, v: int) -> Option<bool> {
    if op == ">"@ {
        Some(pk > v)
    } else if op == ">="@ {
        Some(pk >= v)
    } else if op == "<"@ {
        Some(pk < v)
    } else if op == "<="@ {
        Some(pk <= v)
    } else if op == "=="@ || op == "="@ {
        Some(pk == v)
    } else if op == "!="@ || op == "<>"@ {
        Some(pk != v)
    } else {
        None
    }
}

/// The PK-point checks in order, stopping at the first that fails; none
/// when an unknown operator is reached first.
pub open spec fn pk_pass(ps: Seq<(Seq<char>, int)>, pk: int) -> Option<bool>
    decreases ps.len(),
{
    if ps.len() == 0 {
        Some(true)
    } else {
        match op_holds(ps[0].0, pk, ps[0].1) {
            None => None,
            Some(false) => Some(false),
            Some(true) => pk_pass(ps.drop_first(), pk),
        }
    }
}

/// An `#IF` segment at `if_index`: none when a condition is unreadable or a
/// PK check has an unknown operator; else the lines the player sees (the
/// say lines when the checks pass, else the else-say lines), the line after
/// the segment, and whether any condition was read.
pub open spec fn if_segment(lines: Seq<Seq<char>>, if_index: int, pk: int) -> Option<(Seq<Seq<char>>, int, bool)> {
    match conds_from(lines, if_index + 1) {
        None => None,
        Some((j, any, ps)) => {
            let s = says_from(lines, j, 0);
            match pk_pass(ps, pk) {
                None => None,
                Some(pass) => Some(
                    (
                        if pass {
                            s.1
                        } else if s.2.len() > 0 {
                            s.2
                        } else {
                            Seq::empty()
                        },
                        s.0,
                        any,
                    ),
                ),
            }
        },
    }
}

/// The rest of a condition block's reading after what was read so far.
pub open spec fn prepend(any: bool, ps: Seq<(Seq<char>, int)>, rest: Option<(int, bool, Seq<(Seq<char>, int)>)>) -> Option<(int, bool, Seq<(Seq<char>, int)>)> {
    match rest {
        None => None,
        Some((j, a, q)) => Some((j, any || a, ps + q)),
    }
}

/// The PK checks as plain values.
pub open spec fn pk_views(v: Seq<(String, i64)>) -> Seq<(Seq<char>, int)> {
    v.map_values(|p: (String, i64)| (p.0@, p.1 as int))
}

} // verus!

verus! {

fn trimmed_chars(line: &str) -> (r: Vec<char>)
    ensures
        r@ == trimmed(line@),
{
    let cs = chars_of(line);
    let (a, b) = trim_bounds(&cs, 0, cs.len());
    proof {
        assert(cs@.subrange(0, cs@.len() as int) == cs@);
    }
    sub_chars(&cs, a, b)
}

fn op_result(op: &String, pk: i64, v: i64) -> (r: Option<bool>)
    ensures
        r == op_holds(op@, pk as int, v as int),
{
    let o = op.clone();
    if o == crate::text::text(">") {
        Some(pk > v)
    } else if o == crate::text::text(">=") {
        Some(pk >= v)
    } else if o == crate::text::text("<") {
        Some(pk < v)
    } else if o == crate::text::text("<=") {
        Some(pk <= v)
    } else if o == crate::text::text("==") || o == crate::text::text("=") {
        Some(pk == v)
    } else if o == crate::text::text("!=") || o == crate::text::text("<>") {
        Some(pk != v)
    } else {
        None
    }
}

/// Renders an `#IF` segment of an NPC page at `if_index` for a player with
/// `pk_points`: the condition lines are read (any unreadable one gives
/// none), the say and else-say text collected, and the PK-point checks
/// decide which text shows. Returns the text, the line after the segment,
/// and whether any condition was read.
pub fn process_if_segment(lines: &[&str], if_index: usize, pk_points: i64) -> (r: Option<(Vec<String>, usize, bool)>)
    requires
        if_index < usize::MAX,
    ensures
        match if_segment(strs(lines@), if_index as int, pk_points as int) {
            None => r is None,
            Some((out, next, any)) => r matches Some((o, n, a)) && crate::wire::string_texts(o@) == out && n == next && a
                == any,
        },
{
    let ghost ls = strs(lines@);
    let ghost start = if_index + 1;
    let mut i: usize = if_index + 1;
    let mut any: bool = false;
    let mut pks: Vec<(String, i64)> = Vec::new();
    while i < lines.len()
        invariant
            start <= i,
            start == if_index + 1,
            ls == strs(lines@),
            ls.len() == lines@.len(),
            conds_from(ls, start as int) == prepend(any, pk_views(pks@), conds_from(ls, i as int)),
        ensures
            start <= i,
            conds_from(ls, start as int) == prepend(any, pk_views(pks@), conds_from(ls, i as int)),
            conds_from(ls, i as int) == Some((i as int, false, Seq::<(Seq<char>, int)>::empty())),
        decreases lines@.len() - i,
    {
        proof {
            assert(ls[i as int] == lines@[i as int]@);
        }
        match classify(lines[i]) {
            LineKind::Skip => {
                i = i + 1;
            },
            LineKind::Stop => {
                break;
            },
            LineKind::Reject => {
                return None;
            },
            LineKind::Cond(p) => {
                let ghost before = pk_views(pks@);
                match p {
                    Some(x) => {
                        pks.push(x);
                    },
                    None => {},
                }
                proof {
                    assert(pk_views(pks@) =~= before + match cond_line(trimmed(ls[i as int])) {
                        CondLine::Cond(Some(q)) => seq![q],
                        _ => Seq::<(Seq<char>, int)>::empty(),
                    });
                    match conds_from(ls, i + 1) {
                        None => {},
                        Some((j, a, q)) => {
                            assert(pk_views(pks@) + q =~= before + (match cond_line(trimmed(ls[i as int])) {
                                CondLine::Cond(Some(x)) => seq![x] + q,
                                _ => q,
                            }));
                        },
                    }
                }
                any = true;
                i = i + 1;
            },
        }
    }
    let ghost conds = conds_from(ls, start as int);
    proof {
        assert(pk_views(pks@) + Seq::<(Seq<char>, int)>::empty() =~= pk_views(pks@));
        assert(conds == Some((i as int, any, pk_views(pks@))));
    }
    let mut j: usize = i;
    let mut block: u8 = 0;
    let mut say: Vec<String> = Vec::new();
    let mut els: Vec<String> = Vec::new();
    let ghost total = says_from(ls, i as int, 0);
    while j < lines.len()
        invariant
            i <= j,
            ls == strs(lines@),
            ls.len() == lines@.len(),
            block <= 2,
            total == says_from(ls, i as int, 0),
            total == ({
                let rest = says_from(ls, j as int, block as int);
                (rest.0, crate::wire::string_texts(say@) + rest.1, crate::wire::string_texts(els@) + rest.2)
            }),
        ensures
            total == (j as int, crate::wire::string_texts(say@), crate::wire::string_texts(els@)),
        decreases lines@.len() - j,
    {
        let line = lines[j];
        let t = trimmed_chars(line);
        proof {
            assert(ls[j as int] == line@);
        }
        if has_prefix(&t, "[@") || crate::quest_text::is_header(&t, &chars_of("#IF")) {
            proof {
                assert(crate::wire::string_texts(say@) + Seq::<Seq<char>>::empty() =~= crate::wire::string_texts(say@));
                assert(crate::wire::string_texts(els@) + Seq::<Seq<char>>::empty() =~= crate::wire::string_texts(els@));
            }
            break;
        }
        if crate::quest_text::is_header(&t, &chars_of("#SAY")) {
            block = 1;
            j = j + 1;
            continue;
        }
        if crate::quest_text::is_header(&t, &chars_of("#ELSESAY")) {
            block = 2;
            j = j + 1;
            continue;
        }
        if t.len() > 0 && t[0] == '#' {
            proof {
                assert(crate::wire::string_texts(say@) + Seq::<Seq<char>>::empty() =~= crate::wire::string_texts(say@));
                assert(crate::wire::string_texts(els@) + Seq::<Seq<char>>::empty() =~= crate::wire::string_texts(els@));
            }
            break;
        }
        let ghost rest = says_from(ls, j + 1, block as int);
        let ghost say0 = crate::wire::string_texts(say@);
        let ghost els0 = crate::wire::string_texts(els@);
        if block == 1 {
            say.push(String::from_str(line));
            proof {
                assert(crate::wire::string_texts(say@) + rest.1 =~= say0 + (seq![line@] + rest.1));
            }
        } else if block == 2 {
            els.push(String::from_str(line));
            proof {
                assert(crate::wire::string_texts(els@) + rest.2 =~= els0 + (seq![line@] + rest.2));
            }
        }
        j = j + 1;
    }
    proof {
        if j >= lines.len() {
            assert(crate::wire::string_texts(say@) + Seq::<Seq<char>>::empty() =~= crate::wire::string_texts(say@));
            assert(crate::wire::string_texts(els@) + Seq::<Seq<char>>::empty() =~= crate::wire::string_texts(els@));
        }
    }
    let ghost ps = pk_views(pks@);
    let mut pass: bool = true;
    let mut k: usize = 0;
    proof {
        assert(ps.skip(0) =~= ps);
    }
    while k < pks.len()
        invariant_except_break
            pass,
            pk_pass(ps, pk_points as int) == pk_pass(ps.skip(k as int), pk_points as int),
        invariant
            0 <= k <= pks@.len(),
            ps == pk_views(pks@),
            ls == strs(lines@),
            conds_from(ls, if_index as int + 1) == Some((i as int, any, ps)),
        ensures
            pass ==> pk_pass(ps, pk_points as int) == Some(true),
            !pass ==> pk_pass(ps, pk_points as int) == Some(false),
        decreases pks@.len() - k,
    {
        proof {
            assert(ps.skip(k as int)[0] == ps[k as int]);
            assert(ps.skip(k as int).drop_first() =~= ps.skip(k as int + 1));
        }
        match op_result(&pks[k].0, pk_points, pks[k].1) {
            None => {
                return None;
            },
            Some(ok) => {
                if !ok {
                    pass = false;
                    break;
                }
            },
        }
        k = k + 1;
    }
    proof {
        if pass && k >= pks@.len() {
            assert(ps.skip(k as int) =~= Seq::<(Seq<char>, int)>::empty());
        }
    }
    let out: Vec<String> = if pass {
        say
    } else if els.len() > 0 {
        els
    } else {
        Vec::new()
    };
    proof {
        if !pass && els@.len() == 0 {
            assert(crate::wire::string_texts(out@) =~= Seq::<Seq<char>>::empty());
        }
    }
    Some((out, j, any))
}

} // verus!

verus! {

/// A segment without PK-point checks reads the same whatever the player's
/// PK points, and then shows its say text.
pub proof fn law_pk_points_only_matter_with_checks(lines: Seq<Seq<char>>, if_index: int, pk1: int, pk2: int)
    requires
        conds_from(lines, if_index + 1) matches Some((_j, _any, ps)) && ps.len() == 0,
    ensures
        if_segment(lines, if_index, pk1) == if_segment(lines, if_index, pk2),
        conds_from(lines, if_index + 1) matches Some((j, any, _checks)) && if_segment(lines, if_index, pk1) == Some(
            (says_from(lines, j, 0).1, says_from(lines, j, 0).0, any),
        ),
{
}

proof fn lemma_conds_advance(lines: Seq<Seq<char>>, i: int)
    ensures
        conds_from(lines, i) matches Some((j, _a, _p)) ==> j >= i,
    decreases lines.len() - i,
{
    if 0 <= i < lines.len() {
        lemma_conds_advance(lines, i + 1);
    }
}

proof fn lemma_says_advance(lines: Seq<Seq<char>>, j: int, block: int)
    ensures
        says_from(lines, j, block).0 >= j,
    decreases lines.len() - j,
{
    if 0 <= j < lines.len() {
        lemma_says_advance(lines, j + 1, 1);
        lemma_says_advance(lines, j + 1, 2);
        lemma_says_advance(lines, j + 1, block);
    }
}

/// A rendered segment always ends after its `#IF` line.
pub proof fn law_segment_moves_past_if(lines: Seq<Seq<char>>, if_index: int, pk: int)
    ensures
        if_segment(lines, if_index, pk) matches Some((_o, next, _a)) ==> next > if_index,
{
    lemma_conds_advance(lines, if_index + 1);
    match conds_from(lines, if_index + 1) {
        Some((j, _a, _p)) => {
            lemma_says_advance(lines, j, 0);
        },
        None => {},
    }
}

} // verus!
