//! Reading text a character at a time: pieces of strings, whitespace,
//! trimming and decimal numbers as Rust's `str` methods define them.
use vstd::prelude::*;
use vstd::string::{StrSliceExecFns, StringExecFns};

verus! {

/// The characters of a string, in order.
pub fn chars_of(s: &str) -> (r: Vec<char>)
    ensures
        r@ == s@,
{
    let ghost full = s@;
    let mut out: Vec<char> = Vec::new();
    for c in it: s.chars()
        invariant
            it.seq() == full,
            out@ == full.take(it.index() as int),
    {
        proof {
            assert(full.take(it.index() as int + 1) == full.take(it.index() as int).push(c));
        }
        out.push(c);
    }
    proof {
        assert(full.take(full.len() as int) == full);
    }
    out
}

/// The characters of a string from position `from` up to `to`.
pub fn piece(s: &str, from: usize, to: usize) -> (r: String)
    requires
        from <= to <= s@.len(),
    ensures
        r@ == s@.subrange(from as int, to as int),
{
    String::from_str(s.substring_char(from, to))
}

/// A character Rust's `char::is_whitespace` accepts: the Unicode
/// White_Space characters.
pub open spec fn is_ws(c: char) -> bool {
    ||| '\u{9}' <= c <= '\u{d}'
    ||| c == ' '
    ||| c == '\u{85}'
    ||| c == '\u{a0}'
    ||| c == '\u{1680}'
    ||| '\u{2000}' <= c <= '\u{200a}'
    ||| c == '\u{2028}'
    ||| c == '\u{2029}'
    ||| c == '\u{202f}'
    ||| c == '\u{205f}'
    ||| c == '\u{3000}'
}

/// Whether a character is whitespace.
pub fn is_whitespace(c: char) -> (r: bool)
    ensures
        r == is_ws(c),
{
    ('\u{9}' <= c && c <= '\u{d}') || c == ' ' || c == '\u{85}' || c == '\u{a0}' || c == '\u{1680}' || ('\u{2000}'
        <= c && c <= '\u{200a}') || c == '\u{2028}' || c == '\u{2029}' || c == '\u{202f}' || c == '\u{205f}' || c
        == '\u{3000}'
}

/// Leading whitespace dropped.
pub open spec fn trim_start(s: Seq<char>) -> Seq<char>
    decreases s.len(),
{
    if s.len() > 0 && is_ws(s[0]) {
        trim_start(s.drop_first())
    } else {
        s
    }
}

/// Trailing whitespace dropped.
pub open spec fn trim_end(s: Seq<char>) -> Seq<char>
    decreases s.len(),
{
    if s.len() > 0 && is_ws(s.last()) {
        trim_end(s.drop_last())
    } else {
        s
    }
}

/// Leading and trailing whitespace dropped, as `str::trim` does.
pub open spec fn trimmed(s: Seq<char>) -> Seq<char> {
    trim_end(trim_start(s))
}

/// The count of leading whitespace characters.
pub open spec fn lead_ws(s: Seq<char>) -> int
    decreases s.len(),
{
    if s.len() > 0 && is_ws(s[0]) {
        1 + lead_ws(s.drop_first())
    } else {
        0
    }
}

/// The count of trailing whitespace characters.
pub open spec fn trail_ws(s: Seq<char>) -> int
    decreases s.len(),
{
    if s.len() > 0 && is_ws(s.last()) {
        1 + trail_ws(s.drop_last())
    } else {
        0
    }
}

proof fn lemma_trim_start_drop(s: Seq<char>)
    ensures
        0 <= lead_ws(s) <= s.len(),
        trim_start(s) == s.subrange(lead_ws(s), s.len() as int),
        forall|i: int| 0 <= i < lead_ws(s) ==> is_ws(#[trigger] s[i]),
        lead_ws(s) < s.len() ==> !is_ws(s[lead_ws(s)]),
    decreases s.len(),
{
    if s.len() > 0 && is_ws(s[0]) {
        lemma_trim_start_drop(s.drop_first());
        assert(s.drop_first().subrange(lead_ws(s.drop_first()), s.drop_first().len() as int) == s.subrange(
            lead_ws(s),
            s.len() as int,
        ));
        assert forall|i: int| 0 <= i < lead_ws(s) implies is_ws(#[trigger] s[i]) by {
            if i > 0 {
                assert(s[i] == s.drop_first()[i - 1]);
            }
        }
        if lead_ws(s) < s.len() {
            assert(s[lead_ws(s)] == s.drop_first()[lead_ws(s.drop_first())]);
        }
    } else {
        assert(s.subrange(0, s.len() as int) == s);
    }
}

proof fn lemma_trim_end_drop(s: Seq<char>)
    ensures
        0 <= trail_ws(s) <= s.len(),
        trim_end(s) == s.subrange(0, s.len() - trail_ws(s)),
        forall|i: int| s.len() - trail_ws(s) <= i < s.len() ==> is_ws(#[trigger] s[i]),
        trail_ws(s) < s.len() ==> !is_ws(s[s.len() - trail_ws(s) - 1]),
    decreases s.len(),
{
    if s.len() > 0 && is_ws(s.last()) {
        lemma_trim_end_drop(s.drop_last());
        assert(s.drop_last().subrange(0, s.drop_last().len() - trail_ws(s.drop_last())) == s.subrange(
            0,
            s.len() - trail_ws(s),
        ));
        assert forall|i: int| s.len() - trail_ws(s) <= i < s.len() implies is_ws(#[trigger] s[i]) by {
            if i < s.len() - 1 {
                assert(s[i] == s.drop_last()[i]);
            }
        }
        if trail_ws(s) < s.len() {
            assert(s[s.len() - trail_ws(s) - 1] == s.drop_last()[s.drop_last().len() - trail_ws(s.drop_last()) - 1]);
        }
    } else {
        assert(s.subrange(0, s.len() as int) == s);
    }
}

/// Where the text of `s` starts once leading whitespace is skipped, as
/// `str::trim_start` does.
pub fn lead_bound(s: &Vec<char>) -> (r: usize)
    ensures
        r <= s@.len(),
        s@.subrange(r as int, s@.len() as int) == trim_start(s@),
{
    proof {
        lemma_trim_start_drop(s@);
    }
    let mut a: usize = 0;
    while a < s.len() && is_whitespace(s[a])
        invariant
            0 <= a <= s@.len(),
            a <= lead_ws(s@),
            0 <= lead_ws(s@) <= s@.len(),
            forall|i: int| 0 <= i < lead_ws(s@) ==> is_ws(#[trigger] s@[i]),
            lead_ws(s@) < s@.len() ==> !is_ws(s@[lead_ws(s@)]),
        decreases s@.len() - a,
    {
        a = a + 1;
    }
    a
}

/// The bounds of the trimmed part of `s[from..to]`: leading and trailing
/// whitespace skipped.
pub fn trim_bounds(s: &Vec<char>, from: usize, to: usize) -> (r: (usize, usize))
    requires
        from <= to <= s@.len(),
    ensures
        from <= r.0 <= r.1 <= to,
        s@.subrange(r.0 as int, r.1 as int) == trimmed(s@.subrange(from as int, to as int)),
{
    let ghost t = s@.subrange(from as int, to as int);
    let mut a: usize = from;
    while a < to && is_whitespace(s[a])
        invariant
            from <= a <= to <= s@.len(),
            t == s@.subrange(from as int, to as int),
            forall|i: int| from <= i < a ==> is_ws(#[trigger] s@[i]),
        decreases to - a,
    {
        a = a + 1;
    }
    let mut b: usize = to;
    while b > a && is_whitespace(s[b - 1])
        invariant
            from <= a <= b <= to <= s@.len(),
            forall|i: int| b <= i < to ==> is_ws(#[trigger] s@[i]),
        decreases b - a,
    {
        b = b - 1;
    }
    proof {
        lemma_trim_start_drop(t);
        let k = lead_ws(t);
        assert(k == a - from) by {
            assert forall|i: int| 0 <= i < a - from implies is_ws(#[trigger] t[i]) by {
                assert(t[i] == s@[from + i]);
            }
            if k < a - from {
                assert(t[k] == s@[from + k]);
            }
            if k > a - from {
                assert(t[a - from] == s@[a as int]);
            }
        }
        let u = trim_start(t);
        assert(u == s@.subrange(a as int, to as int));
        lemma_trim_end_drop(u);
        let m = trail_ws(u);
        assert(m == to - b) by {
            assert forall|i: int| u.len() - (to - b) <= i < u.len() implies is_ws(#[trigger] u[i]) by {
                assert(u[i] == s@[a + i]);
            }
            if m < to - b {
                assert(u[u.len() - m - 1] == s@[to - m - 1]);
            }
            if m > to - b {
                assert(u[u.len() - (to - b) - 1] == s@[b - 1]);
            }
        }
        assert(trim_end(u) == s@.subrange(a as int, b as int));
    }
    (a, b)
}

} // verus!

verus! {

/// A decimal digit.
pub open spec fn is_digit(c: char) -> bool {
    '0' <= c <= '9'
}

/// The value of a run of decimal digits.
pub open spec fn digits_value(s: Seq<char>) -> int
    decreases s.len(),
{
    if s.len() == 0 {
        0
    } else {
        digits_value(s.drop_last()) * 10 + (s.last() as int - '0' as int)
    }
}

/// Every character is a decimal digit.
pub open spec fn all_digits(b: Seq<char>) -> bool {
    forall|i: int| 0 <= i < b.len() ==> is_digit(#[trigger] b[i])
}

/// What `str::parse` gives for an integer type with the given bounds: an
/// optional sign (`-` only for signed types), then one or more decimal
/// digits, the value within the bounds; no whitespace.
pub open spec fn parse_int(s: Seq<char>, min: int, max: int, signed: bool) -> Option<int> {
    let neg = signed && s.len() > 0 && s[0] == '-';
    let body = unsigned_part(s, signed);
    if body.len() == 0 || !all_digits(body) {
        None
    } else {
        let v = if neg {
            -digits_value(body)
        } else {
            digits_value(body)
        };
        if min <= v <= max {
            Some(v)
        } else {
            None
        }
    }
}

/// The text after an optional sign, as `parse_int` reads it.
pub open spec fn unsigned_part(s: Seq<char>, signed: bool) -> Seq<char> {
    if s.len() > 0 && (s[0] == '+' || (signed && s.len() > 0 && s[0] == '-')) {
        s.drop_first()
    } else {
        s
    }
}

proof fn lemma_parse_rejects(s: Seq<char>, min: int, max: int, signed: bool, k: int)
    requires
        0 <= k < unsigned_part(s, signed).len(),
        !is_digit(unsigned_part(s, signed)[k]),
    ensures
        parse_int(s, min, max, signed) is None,
{
    assert(!all_digits(unsigned_part(s, signed)));
}

proof fn lemma_digits_value_grows(s: Seq<char>, c: char)
    requires
        forall|i: int| 0 <= i < s.len() ==> is_digit(#[trigger] s[i]),
        is_digit(c),
    ensures
        digits_value(s.push(c)) >= digits_value(s) * 10,
        digits_value(s) >= 0,
    decreases s.len(),
{
    assert(s.push(c).drop_last() == s);
    if s.len() > 0 {
        assert forall|i: int| 0 <= i < s.drop_last().len() implies is_digit(#[trigger] s.drop_last()[i]) by {
            assert(s.drop_last()[i] == s[i]);
        }
        lemma_digits_value_grows(s.drop_last(), s.last());
        assert(s.drop_last().push(s.last()) == s);
    }
}

/// Parses `s[from..to]` as an integer type with the given bounds.
pub fn parse_int_in(s: &Vec<char>, from: usize, to: usize, min: i64, max: i64, signed: bool) -> (r: Option<i64>)
    requires
        from <= to <= s@.len(),
        min <= max,
    ensures
        match parse_int(s@.subrange(from as int, to as int), min as int, max as int, signed) {
            Some(v) => r == Some(v as i64),
            None => r is None,
        },
{
    let ghost t = s@.subrange(from as int, to as int);
    let neg: bool = signed && from < to && s[from] == '-';
    let start: usize = if from < to && (s[from] == '+' || neg) { from + 1 } else { from };
    let ghost body = s@.subrange(start as int, to as int);
    proof {
        if from < to && (s@[from as int] == '+' || neg) {
            assert(body == t.drop_first());
        } else {
            assert(body == t);
        }
    }
    if start == to {
        return None;
    }
    let mut acc: u128 = 0;
    let mut big: bool = false;
    let mut i: usize = start;
    while i < to
        invariant
            start <= i <= to <= s@.len(),
            from <= start,
            body == s@.subrange(start as int, to as int),
            t == s@.subrange(from as int, to as int),
            neg == (signed && t.len() > 0 && t[0] == '-'),
            body == unsigned_part(t, signed),
            body.len() > 0,
            forall|k: int| start <= k < i ==> is_digit(#[trigger] s@[k]),
            !big ==> acc == digits_value(s@.subrange(start as int, i as int)),
            !big ==> acc <= 0x1_0000_0000_0000_0000,
            big ==> digits_value(s@.subrange(start as int, i as int)) > 0x1_0000_0000_0000_0000,
        decreases to - i,
    {
        let c = s[i];
        if !('0' <= c && c <= '9') {
            proof {
                assert(body[i - start] == c);
                assert(!is_digit(body[i - start]));
                assert(!(forall|k: int| 0 <= k < body.len() ==> is_digit(#[trigger] body[k])));
                lemma_parse_rejects(t, min as int, max as int, signed, i - start);
            }
            return None;
        }
        let ghost pre = s@.subrange(start as int, i as int);
        proof {
            assert(s@.subrange(start as int, i as int + 1) == pre.push(c));
            assert(pre.push(c).drop_last() == pre);
            assert(digits_value(pre.push(c)) == digits_value(pre) * 10 + (c as int - '0' as int));
            assert forall|k: int| 0 <= k < pre.len() implies is_digit(#[trigger] pre[k]) by {
                assert(pre[k] == s@[start + k]);
            }
            lemma_digits_value_grows(pre, c);
        }
        let d: u128 = (c as u32 - '0' as u32) as u128;
        if !big {
            let next: u128 = acc * 10 + d;
            if next > 0x1_0000_0000_0000_0000 {
                big = true;
            } else {
                acc = next;
            }
        }
        i = i + 1;
    }
    proof {
        assert forall|k: int| 0 <= k < body.len() implies is_digit(#[trigger] body[k]) by {
            assert(body[k] == s@[start + k]);
        }
        assert(all_digits(body));
        assert(body == s@.subrange(start as int, i as int));
    }
    if big {
        return None;
    }
    let v: i128 = if neg { -(acc as i128) } else { acc as i128 };
    if min as i128 <= v && v <= max as i128 {
        Some(v as i64)
    } else {
        None
    }
}

/// Parses `s[from..to]` as an `i32`.
pub fn parse_i32_in(s: &Vec<char>, from: usize, to: usize) -> (r: Option<i32>)
    requires
        from <= to <= s@.len(),
    ensures
        match parse_int(s@.subrange(from as int, to as int), i32::MIN as int, i32::MAX as int, true) {
            Some(v) => r == Some(v as i32),
            None => r is None,
        },
{
    match parse_int_in(s, from, to, i32::MIN as i64, i32::MAX as i64, true) {
        Some(v) => Some(v as i32),
        None => None,
    }
}

/// Parses `s[from..to]` as a `u8`.
pub fn parse_u8_in(s: &Vec<char>, from: usize, to: usize) -> (r: Option<u8>)
    requires
        from <= to <= s@.len(),
    ensures
        match parse_int(s@.subrange(from as int, to as int), 0, u8::MAX as int, false) {
            Some(v) => r == Some(v as u8),
            None => r is None,
        },
{
    match parse_int_in(s, from, to, 0, u8::MAX as i64, false) {
        Some(v) => Some(v as u8),
        None => None,
    }
}

/// Parses `s[from..to]` as a `u16`.
pub fn parse_u16_in(s: &Vec<char>, from: usize, to: usize) -> (r: Option<u16>)
    requires
        from <= to <= s@.len(),
    ensures
        match parse_int(s@.subrange(from as int, to as int), 0, u16::MAX as int, false) {
            Some(v) => r == Some(v as u16),
            None => r is None,
        },
{
    match parse_int_in(s, from, to, 0, u16::MAX as i64, false) {
        Some(v) => Some(v as u16),
        None => None,
    }
}

/// Parses `s[from..to]` as an `i64`.
pub fn parse_i64_in(s: &Vec<char>, from: usize, to: usize) -> (r: Option<i64>)
    requires
        from <= to <= s@.len(),
    ensures
        match parse_int(s@.subrange(from as int, to as int), i64::MIN as int, i64::MAX as int, true) {
            Some(v) => r == Some(v as i64),
            None => r is None,
        },
{
    parse_int_in(s, from, to, i64::MIN, i64::MAX, true)
}

/// Parses `s[from..to]` as a `u32`.
pub fn parse_u32_in(s: &Vec<char>, from: usize, to: usize) -> (r: Option<u32>)
    requires
        from <= to <= s@.len(),
    ensures
        match parse_int(s@.subrange(from as int, to as int), 0, u32::MAX as int, false) {
            Some(v) => r == Some(v as u32),
            None => r is None,
        },
{
    match parse_int_in(s, from, to, 0, u32::MAX as i64, false) {
        Some(v) => Some(v as u32),
        None => None,
    }
}

} // verus!
