//! What a player's client is told as things come into and go out of view:
//! the objects that entered, the ones that left, and what is known after.
use vstd::prelude::*;

use crate::text::{join, text};
use vstd::string::StrSliceExecFns;

verus! {

/// The ids of `s`, in order, that `other` does not hold.
pub open spec fn missing_from(s: Seq<u64>, other: Seq<u64>) -> Seq<u64>
    decreases s.len(),
{
    if s.len() == 0 {
        Seq::empty()
    } else {
        missing_from(s.drop_last(), other) + if other.contains(s.last()) {
            Seq::<u64>::empty()
        } else {
            seq![s.last()]
        }
    }
}

/// A view change: the ids that came into view (in view order, one per
/// appearance in the view list), the ids that went out of view (in the
/// order they were known), and the ids known afterwards (each once).
#[derive(Clone, Debug)]
pub struct ViewUpdate {
    pub entered: Vec<u64>,
    pub left: Vec<u64>,
    pub known: Vec<u64>,
}

fn holds(v: &Vec<u64>, id: u64) -> (r: bool)
    ensures
        r == v@.contains(id),
{
    let mut i: usize = 0;
    while i < v.len()
        invariant
            0 <= i <= v@.len(),
            forall|j: int| 0 <= j < i ==> v@[j] != id,
        decreases v@.len() - i,
    {
        if v[i] == id {
            return true;
        }
        i = i + 1;
    }
    false
}

/// The change from the ids the client knows to the ids now in view.
pub fn view_update(known: &Vec<u64>, visible: &Vec<u64>) -> (r: ViewUpdate)
    ensures
        r.entered@ == missing_from(visible@, known@),
        r.left@ == missing_from(known@, visible@),
        r.known@.no_duplicates(),
        r.known@.to_set() == visible@.to_set(),
{
    let mut entered: Vec<u64> = Vec::new();
    let mut now_known: Vec<u64> = Vec::new();
    let mut i: usize = 0;
    while i < visible.len()
        invariant
            0 <= i <= visible@.len(),
            entered@ == missing_from(visible@.take(i as int), known@),
            now_known@.no_duplicates(),
            now_known@.to_set() == visible@.take(i as int).to_set(),
        decreases visible@.len() - i,
    {
        let id = visible[i];
        proof {
            assert(visible@.take(i + 1).drop_last() =~= visible@.take(i as int));
            assert(visible@.take(i + 1).last() == id);
            assert(visible@.take(i + 1) =~= visible@.take(i as int).push(id));
        }
        if !holds(known, id) {
            entered.push(id);
        }
        proof {
            visible@.take(i as int).lemma_push_to_set_commute(id);
        }
        if !holds(&now_known, id) {
            let ghost before = now_known@;
            now_known.push(id);
            proof {
                before.lemma_push_to_set_commute(id);
                assert(now_known@.to_set() =~= visible@.take(i + 1).to_set());
            }
        } else {
            proof {
                assert(now_known@.to_set() =~= visible@.take(i + 1).to_set());
            }
        }
        proof {
            assert(entered@ =~= missing_from(visible@.take(i + 1), known@));
        }
        i = i + 1;
    }
    let mut left: Vec<u64> = Vec::new();
    let mut k: usize = 0;
    while k < known.len()
        invariant
            0 <= k <= known@.len(),
            left@ == missing_from(known@.take(k as int), visible@),
        decreases known@.len() - k,
    {
        let id = known[k];
        proof {
            assert(known@.take(k + 1).drop_last() =~= known@.take(k as int));
            assert(known@.take(k + 1).last() == id);
        }
        if !holds(visible, id) {
            left.push(id);
        }
        proof {
            assert(left@ =~= missing_from(known@.take(k + 1), visible@));
        }
        k = k + 1;
    }
    proof {
        assert(visible@.take(visible@.len() as int) =~= visible@);
        assert(known@.take(known@.len() as int) =~= known@);
    }
    ViewUpdate { entered, left, known: now_known }
}

/// A monster's shown name: a pet whose owner has a name shows it in
/// brackets after its own.
pub open spec fn shown_name(base: Seq<char>, owner: Option<Seq<char>>) -> Seq<char> {
    match owner {
        Some(o) => if o.len() > 0 { base + "("@ + o + ")"@ } else { base },
        None => base,
    }
}

/// The name a monster shows; `owner` is the owning player's name for a pet.
pub fn monster_display_name(base: &str, owner: Option<&str>) -> (r: String)
    ensures
        r@ == shown_name(base@, match owner { Some(o) => Some(o@), None => None }),
{
    match owner {
        Some(o) => {
            if o.unicode_len() > 0 {
                let s = join(text(base), "(");
                let s = join(s, o);
                join(s, ")")
            } else {
                text(base)
            }
        },
        None => text(base),
    }
}

proof fn lemma_missing_from(s: Seq<u64>, other: Seq<u64>, x: u64)
    ensures
        missing_from(s, other).contains(x) <==> (s.contains(x) && !other.contains(x)),
    decreases s.len(),
{
    if s.len() > 0 {
        lemma_missing_from(s.drop_last(), other, x);
        let rest = missing_from(s.drop_last(), other);
        let tail = if other.contains(s.last()) { Seq::<u64>::empty() } else { seq![s.last()] };
        assert(s =~= s.drop_last().push(s.last()));
        if (rest + tail).contains(x) {
            let k = choose|k: int| 0 <= k < (rest + tail).len() && (rest + tail)[k] == x;
            if k >= rest.len() {
                assert(tail[k - rest.len()] == x);
            } else {
                assert(rest[k] == x);
            }
        }
        if s.contains(x) && !other.contains(x) {
            let k = choose|k: int| 0 <= k < s.len() && s[k] == x;
            if k < s.len() - 1 {
                assert(s.drop_last()[k] == x);
                assert(rest.contains(x));
                let j = choose|j: int| 0 <= j < rest.len() && rest[j] == x;
                assert((rest + tail)[j] == x);
            } else {
                assert((rest + tail)[rest.len() as int] == x);
            }
        }
    }
}

/// A view change is the difference of the two sets: an id enters exactly
/// when it is in view and was not known, leaves exactly when it was known
/// and is no longer in view; so nothing both enters and leaves.
pub proof fn law_view_change_is_the_difference(known: Seq<u64>, visible: Seq<u64>, id: u64)
    ensures
        missing_from(visible, known).contains(id) <==> (visible.contains(id) && !known.contains(id)),
        missing_from(known, visible).contains(id) <==> (known.contains(id) && !visible.contains(id)),
        !(missing_from(visible, known).contains(id) && missing_from(known, visible).contains(id)),
{
    lemma_missing_from(visible, known, id);
    lemma_missing_from(known, visible, id);
}


/// What the view rule reads of a monster on the player's map.
#[derive(Clone, Copy, Debug)]
pub struct MapMonster {
    pub id: u64,
    pub is_pet: bool,
    pub owner_session_id: Option<u64>,
}

/// A pet summoned by the given session.
pub open spec fn is_own_pet(m: MapMonster, session_id: u64) -> bool {
    m.is_pet && m.owner_session_id == Some(session_id)
}

/// One of the first `n` monsters of the map is a pet of the session with
/// this id.
pub open spec fn own_pet_id_among(map_monsters: Seq<MapMonster>, n: int, session_id: u64, id: u64) -> bool {
    exists|k: int| 0 <= k < n && is_own_pet(#[trigger] map_monsters[k], session_id) && map_monsters[k].id == id
}

/// The ids in view after the player's own pets on the map are added, in map
/// order, each one that is not in the list yet at the end; nearby monsters
/// come first, as they were.
pub open spec fn add_own_pets(view: Seq<u64>, map_monsters: Seq<MapMonster>, session_id: u64) -> Seq<u64>
    decreases map_monsters.len(),
{
    if map_monsters.len() == 0 {
        view
    } else {
        let v = add_own_pets(view, map_monsters.drop_last(), session_id);
        let m = map_monsters.last();
        if is_own_pet(m, session_id) && !v.contains(m.id) {
            v.push(m.id)
        } else {
            v
        }
    }
}

/// Keeps the player's own pets in view whatever their distance: each pet
/// on the map that the session summoned is added to the ids in view unless
/// it is there already.
pub fn with_own_pets(in_view: Vec<u64>, map_monsters: &Vec<MapMonster>, session_id: u64) -> (r: Vec<u64>)
    ensures
        r@ == add_own_pets(in_view@, map_monsters@, session_id),
        r@.len() >= in_view@.len(),
        r@.take(in_view@.len() as int) == in_view@,
        forall|k: int| 0 <= k < map_monsters@.len() && is_own_pet(#[trigger] map_monsters@[k], session_id) ==> r@.contains(map_monsters@[k].id),
        forall|j: int| in_view@.len() <= j < r@.len() ==> own_pet_id_among(map_monsters@, map_monsters@.len() as int, session_id, #[trigger] r@[j]),
{
    let ghost start = in_view@;
    let ghost all = map_monsters@;
    let mut r = in_view;
    let mut i: usize = 0;
    while i < map_monsters.len()
        invariant
            0 <= i <= all.len(),
            all == map_monsters@,
            r@ == add_own_pets(start, all.take(i as int), session_id),
            r@.len() >= start.len(),
            forall|j: int| 0 <= j < start.len() ==> r@[j] == start[j],
            forall|k: int| 0 <= k < i && is_own_pet(#[trigger] all[k], session_id) ==> r@.contains(all[k].id),
            forall|j: int| start.len() <= j < r@.len() ==> own_pet_id_among(all, i as int, session_id, #[trigger] r@[j]),
        decreases all.len() - i,
    {
        let m = map_monsters[i];
        proof {
            assert(all.take(i + 1).drop_last() =~= all.take(i as int));
            assert(all.take(i + 1).last() == m);
        }
        let own = m.is_pet && match m.owner_session_id {
            Some(owner) => owner == session_id,
            None => false,
        };
        if own && !holds(&r, m.id) {
            let ghost before = r@;
            r.push(m.id);
            proof {
                assert forall|k: int| 0 <= k < i + 1 && is_own_pet(#[trigger] all[k], session_id) implies r@.contains(all[k].id) by {
                    if k < i {
                        let w = choose|w: int| 0 <= w < before.len() && before[w] == all[k].id;
                        assert(r@[w] == before[w]);
                    } else {
                        assert(r@[before.len() as int] == m.id);
                    }
                }
                assert forall|j: int| start.len() <= j < r@.len() implies own_pet_id_among(all, i + 1, session_id, #[trigger] r@[j]) by {
                    if j < before.len() {
                        assert(r@[j] == before[j]);
                        assert(own_pet_id_among(all, i as int, session_id, before[j]));
                    } else {
                        assert(0 <= i < i + 1 && is_own_pet(all[i as int], session_id) && all[i as int].id == r@[j]);
                    }
                }
            }
        } else {
            proof {
                assert forall|k: int| 0 <= k < i + 1 && is_own_pet(#[trigger] all[k], session_id) implies r@.contains(all[k].id) by {
                    if k == i {
                        assert(is_own_pet(m, session_id) == own);
                    }
                }
                assert forall|j: int| start.len() <= j < r@.len() implies own_pet_id_among(all, i + 1, session_id, #[trigger] r@[j]) by {
                    assert(own_pet_id_among(all, i as int, session_id, r@[j]));
                }
            }
        }
        i = i + 1;
    }
    proof {
        assert(all.take(all.len() as int) =~= all);
        assert(r@.take(start.len() as int) =~= start);
    }
    r
}

} // verus!
