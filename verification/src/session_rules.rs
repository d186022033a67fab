//! Rules a player connection applies: distances and facing on the map,
//! object ids for safe-zone markers, item name colours, NPC page keys, the
//! action cooldown and the queue of moves that wait for it, and delivery of
//! a packet to the players who can see it.
use std::collections::HashMap;
use std::collections::VecDeque;
use vstd::prelude::*;
use crate::maps::map_get_mut;
use crate::scan::{chars_of, piece, trim_bounds, trimmed};
use crate::text::join;

verus! {

broadcast use vstd::std_specs::hash::group_hash_axioms;

/// Both axes are within `range` of each other.
pub open spec fn within(ax: int, ay: int, bx: int, by: int, range: int) -> bool {
    (if ax >= bx { ax - bx } else { bx - ax }) <= range && (if ay >= by { ay - by } else { by - ay }) <= range
}

/// Two points are within `range` tiles on both axes.
pub fn in_range(ax: i32, ay: i32, bx: i32, by: i32, range: i32) -> (r: bool)
    requires
        i32::MIN < ax - bx <= i32::MAX,
        i32::MIN < ay - by <= i32::MAX,
    ensures
        r == within(ax as int, ay as int, bx as int, by as int, range as int),
{
    let dx = ax - bx;
    let dy = ay - by;
    let adx: i32 = if dx < 0 { -dx } else { dx };
    let ady: i32 = if dy < 0 { -dy } else { dy };
    adx <= range && ady <= range
}

/// The direction from one point to another: 0 up, then clockwise to 7
/// up-left.
pub open spec fn direction_between(sx: i32, sy: i32, dx: i32, dy: i32) -> u8 {
    if sx < dx {
        if sy < dy {
            3
        } else if sy > dy {
            1
        } else {
            2
        }
    } else if sx > dx {
        if sy < dy {
            5
        } else if sy > dy {
            7
        } else {
            6
        }
    } else if sy < dy {
        4
    } else {
        0
    }
}

/// The direction from one point to another.
pub fn direction_from_point(src_x: i32, src_y: i32, dst_x: i32, dst_y: i32) -> (r: u8)
    ensures
        r == direction_between(src_x, src_y, dst_x, dst_y),
{
    if src_x < dst_x {
        if src_y < dst_y {
            3
        } else if src_y > dst_y {
            1
        } else {
            2
        }
    } else if src_x > dst_x {
        if src_y < dst_y {
            5
        } else if src_y > dst_y {
            7
        } else {
            6
        }
    } else if src_y < dst_y {
        4
    } else {
        0
    }
}

/// Each of two players faces the other.
pub fn facing_each_other(a_dir: u8, a_x: i32, a_y: i32, b_dir: u8, b_x: i32, b_y: i32) -> (r: bool)
    ensures
        r == (a_dir == direction_between(a_x, a_y, b_x, b_y) && b_dir == direction_between(b_x, b_y, a_x, a_y)),
{
    let dir_a_to_b = direction_from_point(a_x, a_y, b_x, b_y);
    let dir_b_to_a = direction_from_point(b_x, b_y, a_x, a_y);
    a_dir == dir_a_to_b && b_dir == dir_b_to_a
}

/// The object id of a safe-zone marker: twelve bits of the map number (its
/// low bits as an unsigned number), ten of x and ten of y (negative
/// coordinates as 0), packed high to low, with the top bit then set.
pub open spec fn marker_id(map_index: i32, x: i32, y: i32) -> int {
    let ux = if x > 0 { x as int } else { 0 };
    let uy = if y > 0 { y as int } else { 0 };
    let base = ((map_index as u32) as int % 4096) * 0x10_0000 + (ux % 1024) * 1024 + uy % 1024;
    if base >= 0x8000_0000 {
        base
    } else {
        base + 0x8000_0000
    }
}

/// The object id of the safe-zone marker at a spot.
pub fn safezone_spell_object_id(map_index: i32, x: i32, y: i32) -> (r: u32)
    ensures
        r == marker_id(map_index, x, y),
{
    let m: u32 = (#[verifier::truncate] (map_index as u32));
    let mi: u32 = m % 4096;
    let ux: u32 = (if x > 0 { x } else { 0 }) as u32 % 1024;
    let uy: u32 = (if y > 0 { y } else { 0 }) as u32 % 1024;
    proof {
        assert(mi * 0x10_0000 <= 4095 * 0x10_0000) by (nonlinear_arith)
            requires
                mi < 4096,
        ;
    }
    let base: u32 = mi * 0x10_0000 + ux * 1024 + uy;
    if base >= 0x8000_0000 {
        base
    } else {
        base + 0x8000_0000
    }
}

/// The name colour (ARGB) of an item grade: white for none or common,
/// deep sky blue for rare, dark orange for legendary, plum for mythical,
/// red for heroic.
pub open spec fn grade_colour(grade: u8) -> i32 {
    if grade == 2 {
        0xFF00BFFFu32 as i32
    } else if grade == 3 {
        0xFFFF8C00u32 as i32
    } else if grade == 4 {
        0xFFDDA0DDu32 as i32
    } else if grade == 5 {
        0xFFFF0000u32 as i32
    } else {
        0xFFFFFFFFu32 as i32
    }
}

/// The name colour of an item grade.
pub fn item_name_colour_for_grade(grade: u8) -> (r: i32)
    ensures
        r == grade_colour(grade),
{
    match grade {
        2 => 0xFF00BFFFu32 as i32,
        3 => 0xFFFF8C00u32 as i32,
        4 => 0xFFDDA0DDu32 as i32,
        5 => 0xFFFF0000u32 as i32,
        _ => 0xFFFFFFFFu32 as i32,
    }
}

} // verus!

verus! {

/// `str::to_ascii_uppercase`: a copy with 'a'..='z' mapped to 'A'..='Z'
/// and every other character unchanged.
#[verifier::external_body]
pub(crate) fn ascii_uppercase(s: &str) -> (r: String)
    ensures
        r@ == s@.map_values(|c: char| crate::quest_text::ascii_upper(c)),
{
    s.to_ascii_uppercase()
}

/// An NPC page key in canonical form: trimmed, in ASCII upper case,
/// without enclosing square brackets, starting with '@'.
pub open spec fn npc_key(key: Seq<char>) -> Seq<char> {
    let u = trimmed(key).map_values(|c: char| crate::quest_text::ascii_upper(c));
    let v = if u.len() >= 3 && u[0] == '[' && u.last() == ']' {
        u.subrange(1, u.len() - 1)
    } else {
        u
    };
    if v.len() > 0 && v[0] == '@' {
        v
    } else {
        "@"@ + v
    }
}

/// The canonical form of an NPC page key.
pub fn normalize_npc_key(key: &str) -> (r: String)
    ensures
        r@ == npc_key(key@),
{
    let cs = chars_of(key);
    let (a, b) = trim_bounds(&cs, 0, cs.len());
    proof {
        assert(cs@.subrange(0, cs@.len() as int) == cs@);
    }
    let t = piece(key, a, b);
    let u = ascii_uppercase(t.as_str());
    let us = chars_of(u.as_str());
    let n = us.len();
    let v: String = if n >= 3 && us[0] == '[' && us[n - 1] == ']' {
        piece(u.as_str(), 1, n - 1)
    } else {
        u
    };
    let vs = chars_of(v.as_str());
    if vs.len() > 0 && vs[0] == '@' {
        v
    } else {
        let r = join(crate::text::text("@"), v.as_str());
        proof {
            assert(r@ =~= npc_key(key@));
        }
        r
    }
}

/// An action is on cooldown at `now_ms`: the player's next action time is
/// set (non-zero) and still ahead.
pub open spec fn blocked(now_ms: u64, next_action_ms: Option<u64>) -> bool {
    match next_action_ms {
        Some(next) => next != 0 && now_ms < next,
        None => false,
    }
}

/// Whether an action must wait at `now_ms`.
pub fn is_action_blocked_now(now_ms: u64, next_action_ms: Option<u64>) -> (r: bool)
    ensures
        r == blocked(now_ms, next_action_ms),
{
    match next_action_ms {
        Some(next) => next != 0 && now_ms < next,
        None => false,
    }
}

/// A kind of queued move.
#[derive(Clone, Copy, Debug, PartialEq, Eq, Structural)]
pub enum PendingMoveKind {
    Turn,
    Walk,
    Run,
}

/// A move that waits for the cooldown.
#[derive(Clone, Copy, Debug, PartialEq, Eq, Structural)]
pub struct PendingMove {
    pub due_time_ms: u64,
    pub kind: PendingMoveKind,
    pub direction: u8,
}

/// Moves kept in the queue.
pub const MAX_PENDING_MOVES: usize = 10;

/// The newest `n` entries of a list.
pub open spec fn keep_last<T>(s: Seq<T>, n: int) -> Seq<T> {
    if s.len() > n {
        s.subrange(s.len() - n, s.len() as int)
    } else {
        s
    }
}

/// The queue after a move at `now_ms`: it is due at the next action time,
/// or now if that is earlier or unknown, and only the newest moves stay.
pub open spec fn queued(queue: Seq<PendingMove>, kind: PendingMoveKind, direction: u8, now_ms: u64, next_action_ms: Option<u64>) -> Seq<PendingMove> {
    let due = match next_action_ms {
        Some(t) => if t > now_ms { t } else { now_ms },
        None => now_ms,
    };
    keep_last(queue.push(PendingMove { due_time_ms: due, kind, direction }), MAX_PENDING_MOVES as int)
}

/// Queues a move behind the cooldown, dropping the oldest moves beyond the
/// limit.
pub fn enqueue_pending_move(queue: &mut VecDeque<PendingMove>, kind: PendingMoveKind, direction: u8, now_ms: u64, next_action_ms: Option<u64>)
    ensures
        final(queue)@ == queued(old(queue)@, kind, direction, now_ms, next_action_ms),
{
    let due_time_ms: u64 = match next_action_ms {
        Some(t) => t,
        None => now_ms,
    };
    let due: u64 = if due_time_ms > now_ms { due_time_ms } else { now_ms };
    queue.push_back(PendingMove { due_time_ms: due, kind, direction });
    let ghost full = queue@;
    while queue.len() > MAX_PENDING_MOVES
        invariant
            full == old(queue)@.push(PendingMove { due_time_ms: due, kind, direction }),
            queue@.len() >= MAX_PENDING_MOVES || queue@ == full,
            queue@.len() <= full.len(),
            queue@ == full.subrange(full.len() - queue@.len(), full.len() as int),
        decreases queue@.len(),
    {
        let ghost before = queue@;
        queue.pop_front();
        proof {
            assert(queue@ =~= full.subrange(full.len() - queue@.len(), full.len() as int));
        }
    }
    proof {
        assert(queue@ =~= queued(old(queue)@, kind, direction, now_ms, next_action_ms));
    }
}

/// Each outbox as lists of bytes.
pub open spec fn boxes(m: Map<u64, Vec<Vec<u8>>>) -> Map<u64, Seq<Seq<u8>>> {
    m.map_values(|v: Vec<Vec<u8>>| v@.map_values(|b: Vec<u8>| b@))
}

/// The outboxes after a packet goes to each listed viewer but the sender,
/// once per listing.
pub open spec fn delivered(m: Map<u64, Seq<Seq<u8>>>, viewers: Seq<u64>, self_id: u64, raw: Seq<u8>) -> Map<u64, Seq<Seq<u8>>>
    decreases viewers.len(),
{
    if viewers.len() == 0 {
        m
    } else {
        let before = delivered(m, viewers.drop_last(), self_id, raw);
        let v = viewers.last();
        if v == self_id {
            before
        } else {
            before.insert(
                v,
                (if before.contains_key(v) {
                    before[v]
                } else {
                    Seq::empty()
                }).push(raw),
            )
        }
    }
}

/// Queues a packet for every viewer but the sender.
pub fn enqueue_for_viewers(outboxes: &mut HashMap<u64, Vec<Vec<u8>>>, viewers: &Vec<u64>, self_id: u64, raw: &Vec<u8>)
    ensures
        boxes(final(outboxes)@) == delivered(boxes(old(outboxes)@), viewers@, self_id, raw@),
{
    let mut i: usize = 0;
    while i < viewers.len()
        invariant
            0 <= i <= viewers@.len(),
            boxes(outboxes@) == delivered(boxes(old(outboxes)@), viewers@.take(i as int), self_id, raw@),
        decreases viewers@.len() - i,
    {
        let sid = viewers[i];
        proof {
            assert(viewers@.take(i as int + 1).drop_last() == viewers@.take(i as int));
            assert(viewers@.take(i as int + 1).last() == sid);
        }
        if sid != self_id {
            if !outboxes.contains_key(&sid) {
                outboxes.insert(sid, Vec::new());
            }
            let copy = raw.clone();
            proof {
                assert(copy@ =~= raw@);
            }
            let ghost mid = outboxes@;
            let ghost prev = delivered(boxes(old(outboxes)@), viewers@.take(i as int), self_id, raw@);
            proof {
                assert(boxes(mid).contains_key(sid));
                assert(boxes(mid)[sid] == if prev.contains_key(sid) {
                    prev[sid]
                } else {
                    Seq::<Seq<u8>>::empty()
                });
                assert(forall|k: u64| k != sid ==> (boxes(mid).contains_key(k) <==> prev.contains_key(k)));
                assert(forall|k: u64| k != sid && prev.contains_key(k) ==> boxes(mid)[k] == prev[k]);
            }
            match map_get_mut(outboxes, &sid) {
                Some(list) => {
                    list.push(copy);
                },
                None => {},
            }
            proof {
                let fin = outboxes@[sid];
                assert(fin@ == mid[sid]@.push(copy));
                assert(fin@.map_values(|b: Vec<u8>| b@) =~= mid[sid]@.map_values(|b: Vec<u8>| b@).push(raw@));
                assert(boxes(outboxes@) =~= prev.insert(sid, boxes(mid)[sid].push(raw@)));
            }
        }
        i = i + 1;
    }
    proof {
        assert(viewers@.take(viewers@.len() as int) == viewers@);
    }
}

} // verus!

verus! {

/// From two different points, each direction to the other is the opposite
/// of the other's: four steps round the compass.
pub proof fn law_directions_are_opposite(ax: i32, ay: i32, bx: i32, by: i32)
    requires
        ax != bx || ay != by,
    ensures
        direction_between(bx, by, ax, ay) as int == (direction_between(ax, ay, bx, by) as int + 4) % 8,
{
}

/// Being within range is symmetric.
pub proof fn law_range_is_symmetric(ax: int, ay: int, bx: int, by: int, range: int)
    ensures
        within(ax, ay, bx, by, range) == within(bx, by, ax, ay, range),
{
}

proof fn lemma_pack_injective(a1: int, b1: int, c1: int, a2: int, b2: int, c2: int)
    requires
        0 <= a1,
        0 <= a2,
        0 <= b1 < 1024,
        0 <= c1 < 1024,
        0 <= b2 < 1024,
        0 <= c2 < 1024,
        a1 * 0x10_0000 + b1 * 1024 + c1 == a2 * 0x10_0000 + b2 * 1024 + c2,
    ensures
        a1 == a2,
        b1 == b2,
        c1 == c2,
{
    let l1 = a1 * 1024 + b1;
    let l2 = a2 * 1024 + b2;
    assert(l1 * 1024 + c1 == l2 * 1024 + c2) by (nonlinear_arith)
        requires
            l1 == a1 * 1024 + b1,
            l2 == a2 * 1024 + b2,
            a1 * 0x10_0000 + b1 * 1024 + c1 == a2 * 0x10_0000 + b2 * 1024 + c2,
    ;
    assert(l1 == l2 && c1 == c2) by (nonlinear_arith)
        requires
            0 <= c1 < 1024,
            0 <= c2 < 1024,
            l1 * 1024 + c1 == l2 * 1024 + c2,
    ;
    assert(a1 == a2 && b1 == b2) by (nonlinear_arith)
        requires
            0 <= b1 < 1024,
            0 <= b2 < 1024,
            l1 == a1 * 1024 + b1,
            l2 == a2 * 1024 + b2,
            l1 == l2,
    ;
}

/// Marker ids have the top bit set, and two spots on maps numbered below
/// 2048 with coordinates below 1024 never share an id.
pub proof fn law_marker_ids_distinct(m1: i32, x1: i32, y1: i32, m2: i32, x2: i32, y2: i32)
    requires
        0 <= m1 < 2048,
        0 <= m2 < 2048,
        0 <= x1 < 1024,
        0 <= y1 < 1024,
        0 <= x2 < 1024,
        0 <= y2 < 1024,
        (m1, x1, y1) != (m2, x2, y2),
    ensures
        marker_id(m1, x1, y1) >= 0x8000_0000,
        marker_id(m1, x1, y1) != marker_id(m2, x2, y2),
{
    assert((m1 as u32) as int == m1 as int);
    assert((m2 as u32) as int == m2 as int);
    let b1 = m1 * 0x10_0000 + x1 * 1024 + y1;
    let b2 = m2 * 0x10_0000 + x2 * 1024 + y2;
    assert(b1 < 0x8000_0000) by (nonlinear_arith)
        requires
            0 <= m1 < 2048,
            0 <= x1 < 1024,
            0 <= y1 < 1024,
            b1 == m1 * 0x10_0000 + x1 * 1024 + y1,
    ;
    assert(b2 < 0x8000_0000) by (nonlinear_arith)
        requires
            0 <= m2 < 2048,
            0 <= x2 < 1024,
            0 <= y2 < 1024,
            b2 == m2 * 0x10_0000 + x2 * 1024 + y2,
    ;
    assert(b1 >= 0 && b2 >= 0) by (nonlinear_arith)
        requires
            0 <= m1,
            0 <= m2,
            0 <= x1,
            0 <= y1,
            0 <= x2,
            0 <= y2,
            b1 == m1 * 0x10_0000 + x1 * 1024 + y1,
            b2 == m2 * 0x10_0000 + x2 * 1024 + y2,
    ;
    assert(marker_id(m1, x1, y1) == b1 + 0x8000_0000);
    assert(marker_id(m2, x2, y2) == b2 + 0x8000_0000);
    if b1 == b2 {
        lemma_pack_injective(m1 as int, x1 as int, y1 as int, m2 as int, x2 as int, y2 as int);
    }
}

/// The move queue never holds more than its limit, and the newest move is
/// last.
pub proof fn law_move_queue_bounded(queue: Seq<PendingMove>, kind: PendingMoveKind, direction: u8, now_ms: u64, next_action_ms: Option<u64>)
    ensures
        queued(queue, kind, direction, now_ms, next_action_ms).len() <= MAX_PENDING_MOVES,
        queued(queue, kind, direction, now_ms, next_action_ms).last().kind == kind,
        queued(queue, kind, direction, now_ms, next_action_ms).last().direction == direction,
        queued(queue, kind, direction, now_ms, next_action_ms).last().due_time_ms >= now_ms,
{
}

} // verus!
