//! Where a character appears on entering the game: which map, and which
//! cell of it.
use vstd::prelude::*;

use crate::account::CharacterPosition;

verus! {

/// What the spawn rule reads of a map: its index and whether one of its
/// safe zones is a start point.
#[derive(Clone, Copy, Debug)]
pub struct SpawnMap {
    pub index: i32,
    pub has_start_point: bool,
}

/// What the spawn rule reads of a safe zone: its centre and whether it is a
/// start point.
#[derive(Clone, Copy, Debug)]
pub struct SafeZone {
    pub x: i32,
    pub y: i32,
    pub start_point: bool,
}

/// The first position in `maps` with the given index, or the length.
pub open spec fn map_pos(maps: Seq<SpawnMap>, index: i32) -> int
    decreases maps.len(),
{
    if maps.len() == 0 {
        0
    } else if maps[0].index == index {
        0
    } else {
        1 + map_pos(maps.drop_first(), index)
    }
}

/// The first position in `maps` of a map with a start point, or the length.
pub open spec fn start_map_pos(maps: Seq<SpawnMap>) -> int
    decreases maps.len(),
{
    if maps.len() == 0 {
        0
    } else if maps[0].has_start_point {
        0
    } else {
        1 + start_map_pos(maps.drop_first())
    }
}

/// The map a character enters: the saved position's map if there is a saved
/// position and that map exists, else (with no saved position) the bind
/// position's map if it exists; failing that the first map with a start
/// point, else the first map; none when there are no maps.
pub open spec fn spawn_map(maps: Seq<SpawnMap>, stored: Option<CharacterPosition>, bind: Option<CharacterPosition>) -> Option<int> {
    let wanted: Option<i32> = match stored {
        Some(p) => Some(p.map_index),
        None => match bind {
            Some(p) => Some(p.map_index),
            None => None,
        },
    };
    if wanted is Some && map_pos(maps, wanted->0) < maps.len() {
        Some(map_pos(maps, wanted->0))
    } else if start_map_pos(maps) < maps.len() {
        Some(start_map_pos(maps))
    } else if maps.len() > 0 {
        Some(0)
    } else {
        None
    }
}

proof fn lemma_map_pos(maps: Seq<SpawnMap>, index: i32, p: int)
    requires
        0 <= p <= maps.len(),
        forall|j: int| 0 <= j < p ==> (#[trigger] maps[j]).index != index,
        p < maps.len() ==> maps[p].index == index,
    ensures
        map_pos(maps, index) == p,
    decreases maps.len(),
{
    if maps.len() > 0 && p > 0 {
        let t = maps.drop_first();
        assert forall|j: int| 0 <= j < p - 1 implies (#[trigger] t[j]).index != index by {
            assert(t[j] == maps[j + 1]);
        }
        if p < maps.len() {
            assert(t[p - 1] == maps[p]);
        }
        lemma_map_pos(t, index, p - 1);
    }
}

proof fn lemma_start_map_pos(maps: Seq<SpawnMap>, p: int)
    requires
        0 <= p <= maps.len(),
        forall|j: int| 0 <= j < p ==> !(#[trigger] maps[j]).has_start_point,
        p < maps.len() ==> maps[p].has_start_point,
    ensures
        start_map_pos(maps) == p,
    decreases maps.len(),
{
    if maps.len() > 0 && p > 0 {
        let t = maps.drop_first();
        assert forall|j: int| 0 <= j < p - 1 implies !(#[trigger] t[j]).has_start_point by {
            assert(t[j] == maps[j + 1]);
        }
        if p < maps.len() {
            assert(t[p - 1] == maps[p]);
        }
        lemma_start_map_pos(t, p - 1);
    }
}

fn find_map(maps: &[SpawnMap], index: i32) -> (r: usize)
    ensures
        r == map_pos(maps@, index),
        r <= maps@.len(),
{
    let mut i: usize = 0;
    while i < maps.len()
        invariant
            0 <= i <= maps@.len(),
            forall|j: int| 0 <= j < i ==> (#[trigger] maps@[j]).index != index,
        decreases maps@.len() - i,
    {
        if maps[i].index == index {
            proof {
                lemma_map_pos(maps@, index, i as int);
            }
            return i;
        }
        i = i + 1;
    }
    proof {
        lemma_map_pos(maps@, index, i as int);
    }
    i
}

fn find_start_map(maps: &[SpawnMap]) -> (r: usize)
    ensures
        r == start_map_pos(maps@),
        r <= maps@.len(),
{
    let mut i: usize = 0;
    while i < maps.len()
        invariant
            0 <= i <= maps@.len(),
            forall|j: int| 0 <= j < i ==> !(#[trigger] maps@[j]).has_start_point,
        decreases maps@.len() - i,
    {
        if maps[i].has_start_point {
            proof {
                lemma_start_map_pos(maps@, i as int);
            }
            return i;
        }
        i = i + 1;
    }
    proof {
        lemma_start_map_pos(maps@, i as int);
    }
    i
}

/// The position in `maps` of the map a character enters; none when there
/// are no maps.
pub fn choose_spawn_map(maps: &[SpawnMap], stored: Option<CharacterPosition>, bind: Option<CharacterPosition>) -> (r: Option<usize>)
    ensures
        match spawn_map(maps@, stored, bind) {
            Some(p) => r == Some(p as usize),
            None => r is None,
        },
{
    let wanted: Option<i32> = match stored {
        Some(p) => Some(p.map_index),
        None => match bind {
            Some(p) => Some(p.map_index),
            None => None,
        },
    };
    match wanted {
        Some(index) => {
            let p = find_map(maps, index);
            if p < maps.len() {
                return Some(p);
            }
        },
        None => {},
    }
    let s = find_start_map(maps);
    if s < maps.len() {
        Some(s)
    } else if maps.len() > 0 {
        Some(0)
    } else {
        None
    }
}

/// The position a character would like to appear at on the map it enters:
/// the saved position when there is one and it is on this map; with no
/// saved position, the bind position when it is on this map.
pub open spec fn wanted_spawn(map_index: i32, stored: Option<CharacterPosition>, bind: Option<CharacterPosition>) -> Option<(i32, i32)> {
    match stored {
        Some(p) => if p.map_index == map_index { Some((p.x, p.y)) } else { None },
        None => match bind {
            Some(p) => if p.map_index == map_index { Some((p.x, p.y)) } else { None },
            None => None,
        },
    }
}

/// The position a character would like to appear at on the map it enters.
pub fn preferred_spawn(map_index: i32, stored: Option<CharacterPosition>, bind: Option<CharacterPosition>) -> (r: Option<(i32, i32)>)
    ensures
        r == wanted_spawn(map_index, stored, bind),
{
    match stored {
        Some(p) => if p.map_index == map_index {
            Some((p.x, p.y))
        } else {
            None
        },
        None => match bind {
            Some(p) => if p.map_index == map_index {
                Some((p.x, p.y))
            } else {
                None
            },
            None => None,
        },
    }
}

/// The map's centre for spawning: the first start-point safe zone, else
/// the first safe zone, else the middle of the map.
pub open spec fn centre(zones: Seq<SafeZone>, width: u16, height: u16) -> (int, int) {
    let p = start_zone_pos(zones);
    if p < zones.len() {
        (zones[p].x as int, zones[p].y as int)
    } else if zones.len() > 0 {
        (zones[0].x as int, zones[0].y as int)
    } else {
        ((width / 2) as int, (height / 2) as int)
    }
}

/// The first start-point zone, or the length.
pub open spec fn start_zone_pos(zones: Seq<SafeZone>) -> int
    decreases zones.len(),
{
    if zones.len() == 0 {
        0
    } else if zones[0].start_point {
        0
    } else {
        1 + start_zone_pos(zones.drop_first())
    }
}

proof fn lemma_start_zone_pos(zones: Seq<SafeZone>, p: int)
    requires
        0 <= p <= zones.len(),
        forall|j: int| 0 <= j < p ==> !(#[trigger] zones[j]).start_point,
        p < zones.len() ==> zones[p].start_point,
    ensures
        start_zone_pos(zones) == p,
    decreases zones.len(),
{
    if zones.len() > 0 && p > 0 {
        let t = zones.drop_first();
        assert forall|j: int| 0 <= j < p - 1 implies !(#[trigger] t[j]).start_point by {
            assert(t[j] == zones[j + 1]);
        }
        if p < zones.len() {
            assert(t[p - 1] == zones[p]);
        }
        lemma_start_zone_pos(t, p - 1);
    }
}

/// The map's centre for spawning.
pub fn map_centre(zones: &[SafeZone], width: u16, height: u16) -> (r: (i32, i32))
    ensures
        (r.0 as int, r.1 as int) == centre(zones@, width, height),
{
    let mut i: usize = 0;
    while i < zones.len()
        invariant
            0 <= i <= zones@.len(),
            forall|j: int| 0 <= j < i ==> !(#[trigger] zones@[j]).start_point,
        decreases zones@.len() - i,
    {
        if zones[i].start_point {
            proof {
                lemma_start_zone_pos(zones@, i as int);
            }
            return (zones[i].x, zones[i].y);
        }
        i = i + 1;
    }
    proof {
        lemma_start_zone_pos(zones@, i as int);
    }
    if zones.len() > 0 {
        (zones[0].x, zones[0].y)
    } else {
        ((width / 2) as i32, (height / 2) as i32)
    }
}

/// Steps from a cell to a point, across and down.
pub open spec fn steps(cell: (u16, u16), cx: int, cy: int) -> int {
    let dx = cell.0 - cx;
    let dy = cell.1 - cy;
    (if dx >= 0 { dx } else { -dx }) + (if dy >= 0 { dy } else { -dy })
}

/// The first of the first `n` cells that is fewest steps from the point.
pub open spec fn nearest_pos(cells: Seq<(u16, u16)>, cx: int, cy: int, n: int) -> int
    decreases n,
{
    if n <= 1 {
        0
    } else {
        let b = nearest_pos(cells, cx, cy, n - 1);
        if steps(cells[n - 1], cx, cy) < steps(cells[b], cx, cy) {
            n - 1
        } else {
            b
        }
    }
}

proof fn lemma_nearest_pos(cells: Seq<(u16, u16)>, cx: int, cy: int, n: int)
    requires
        1 <= n,
    ensures
        0 <= nearest_pos(cells, cx, cy, n) < n,
    decreases n,
{
    if n > 1 {
        lemma_nearest_pos(cells, cx, cy, n - 1);
    }
}

/// The walkable cell fewest steps from the point (the first such in list
/// order); none without walkable cells.
pub fn nearest_walkable(cells: &[(u16, u16)], cx: i32, cy: i32) -> (r: Option<(u16, u16)>)
    ensures
        cells@.len() == 0 ==> r is None,
        cells@.len() > 0 ==> r == Some(cells@[nearest_pos(cells@, cx as int, cy as int, cells@.len() as int)]),
{
    if cells.len() == 0 {
        return None;
    }
    let mut best: usize = 0;
    let mut best_steps: i64 = {
        let dx = cells[0].0 as i64 - cx as i64;
        let dy = cells[0].1 as i64 - cy as i64;
        (if dx >= 0 { dx } else { -dx }) + (if dy >= 0 { dy } else { -dy })
    };
    let mut i: usize = 1;
    while i < cells.len()
        invariant
            1 <= i <= cells@.len(),
            best == nearest_pos(cells@, cx as int, cy as int, i as int),
            best < i,
            best_steps == steps(cells@[best as int], cx as int, cy as int),
        decreases cells@.len() - i,
    {
        let dx = cells[i].0 as i64 - cx as i64;
        let dy = cells[i].1 as i64 - cy as i64;
        let s = (if dx >= 0 { dx } else { -dx }) + (if dy >= 0 { dy } else { -dy });
        if s < best_steps {
            best = i;
            best_steps = s;
        }
        i = i + 1;
    }
    Some(cells[best])
}

/// Where a character appears: the wanted position when it lies on the map
/// and is walkable; else the walkable cell nearest the centre, or the
/// centre itself when the map has no walkable cell.
pub open spec fn spawn_cell(
    width: u16,
    height: u16,
    cells: Seq<(u16, u16)>,
    cx: int,
    cy: int,
    wanted: Option<(i32, i32)>,
    wanted_walkable: bool,
) -> (int, int) {
    let fallback = if cells.len() > 0 {
        let c = cells[nearest_pos(cells, cx, cy, cells.len() as int)];
        (c.0 as int, c.1 as int)
    } else {
        (cx, cy)
    };
    match wanted {
        Some((x, y)) => if 0 <= x < width && 0 <= y < height && wanted_walkable {
            (x as int, y as int)
        } else {
            fallback
        },
        None => fallback,
    }
}

/// Where a character appears on a map of the given size, with the given
/// walkable cells and centre; `wanted_walkable` tells whether the wanted
/// position, when on the map, is walkable.
pub fn spawn_point(
    width: u16,
    height: u16,
    cells: &[(u16, u16)],
    centre: (i32, i32),
    wanted: Option<(i32, i32)>,
    wanted_walkable: bool,
) -> (r: (i32, i32))
    ensures
        (r.0 as int, r.1 as int) == spawn_cell(width, height, cells@, centre.0 as int, centre.1 as int, wanted, wanted_walkable),
{
    let fallback: (i32, i32) = match nearest_walkable(cells, centre.0, centre.1) {
        Some((x, y)) => (x as i32, y as i32),
        None => centre,
    };
    match wanted {
        Some((x, y)) => {
            if 0 <= x && x < width as i32 && 0 <= y && y < height as i32 && wanted_walkable {
                (x, y)
            } else {
                fallback
            }
        },
        None => fallback,
    }
}

/// A spawn lands on a walkable cell whenever the map has one: either the
/// wanted position, which was found walkable, or one of the walkable cells.
pub proof fn law_spawn_is_walkable(
    width: u16,
    height: u16,
    cells: Seq<(u16, u16)>,
    cx: int,
    cy: int,
    wanted: Option<(i32, i32)>,
    wanted_walkable: bool,
)
    requires
        cells.len() > 0,
    ensures
        ({
            let r = spawn_cell(width, height, cells, cx, cy, wanted, wanted_walkable);
            (wanted_walkable && wanted == Some((r.0 as i32, r.1 as i32)))
                || exists|k: int| 0 <= k < cells.len() && cells[k].0 == r.0 && cells[k].1 == r.1
        }),
{
    lemma_nearest_pos(cells, cx, cy, cells.len() as int);
    let k = nearest_pos(cells, cx, cy, cells.len() as int);
    let r = spawn_cell(width, height, cells, cx, cy, wanted, wanted_walkable);
    match wanted {
        Some((x, y)) => {
            if 0 <= x < width && 0 <= y < height && wanted_walkable {
                assert(wanted == Some((r.0 as i32, r.1 as i32)));
            } else {
                assert(cells[k].0 == r.0 && cells[k].1 == r.1);
            }
        },
        None => {
            assert(cells[k].0 == r.0 && cells[k].1 == r.1);
        },
    }
}

} // verus!
