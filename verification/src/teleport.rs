//! The bind teleport spell: random points are tried around the bind point,
//! in a window that shrinks as the spell's level grows, and the first one
//! that lies on the map and is walkable is where the caster lands.
use vstd::prelude::*;
use crate::chance::roll_below;

verus! {

/// How many points are tried before the spell gives up.
pub const TELEPORT_TRIES: usize = 200;

/// A value clamped to the range of `i32`.
pub open spec fn clamp_i32(v: int) -> int {
    if v > i32::MAX {
        i32::MAX as int
    } else if v < i32::MIN {
        i32::MIN as int
    } else {
        v
    }
}

/// Half the window's side along one axis: the map's side divided by the
/// level plus one (at least one, the sum saturating), and at least one.
pub open spec fn window_half(side: u16, level: i32) -> int {
    let denom = if clamp_i32(level + 1) < 1 { 1 } else { clamp_i32(level + 1) };
    let q = side as int / denom;
    if q < 1 { 1 } else { q }
}

/// Where a draw `(dx, dy)` takes the caster, if anywhere: the bind point
/// moved by the draw (each coordinate saturating), when neither coordinate
/// is negative and the cell it names is on the map and walkable. The cell
/// is named by the coordinates taken as 16-bit values; `walkable` holds the
/// map's cells row by row.
pub open spec fn landing(
    bind_x: i32,
    bind_y: i32,
    width: u16,
    height: u16,
    walkable: Seq<bool>,
    d: (i32, i32),
) -> Option<(i32, i32)> {
    let x = clamp_i32(bind_x + d.0);
    let y = clamp_i32(bind_y + d.1);
    if x < 0 || y < 0 {
        None
    } else {
        let ux = x % 65536;
        let uy = y % 65536;
        if ux >= width || uy >= height || !walkable[uy * width + ux] {
            None
        } else {
            Some((x as i32, y as i32))
        }
    }
}

/// The landing of the first draw that lands anywhere; none if no draw does.
pub open spec fn first_landing(
    bind_x: i32,
    bind_y: i32,
    width: u16,
    height: u16,
    walkable: Seq<bool>,
    draws: Seq<(i32, i32)>,
) -> Option<(i32, i32)>
    decreases draws.len(),
{
    if draws.len() == 0 {
        None
    } else {
        match landing(bind_x, bind_y, width, height, walkable, draws[0]) {
            Some(p) => Some(p),
            None => first_landing(bind_x, bind_y, width, height, walkable, draws.drop_first()),
        }
    }
}

/// Half the window's sides, across and down, for a spell of the given level
/// on a map of the given size.
pub fn teleport_window(level: i32, width: u16, height: u16) -> (r: (i32, i32))
    ensures
        r.0 as int == window_half(width, level),
        r.1 as int == window_half(height, level),
{
    let denom: i32 = if level < i32::MAX { level + 1 } else { i32::MAX };
    let denom: i32 = if denom < 1 { 1 } else { denom };
    let qx: i32 = width as i32 / denom;
    let qy: i32 = height as i32 / denom;
    (if qx < 1 { 1 } else { qx }, if qy < 1 { 1 } else { qy })
}

fn clamped_sum(a: i32, b: i32) -> (r: i32)
    ensures
        r as int == clamp_i32(a + b),
{
    let s: i64 = a as i64 + b as i64;
    if s > i32::MAX as i64 {
        i32::MAX
    } else if s < i32::MIN as i64 {
        i32::MIN
    } else {
        s as i32
    }
}

/// Where one draw takes the caster, if anywhere.
pub fn landing_of(bind_x: i32, bind_y: i32, width: u16, height: u16, walkable: &Vec<bool>, d: (i32, i32)) -> (r: Option<(i32, i32)>)
    requires
        walkable@.len() == width as int * height as int,
    ensures
        r == landing(bind_x, bind_y, width, height, walkable@, d),
{
    let x = clamped_sum(bind_x, d.0);
    let y = clamped_sum(bind_y, d.1);
    if x < 0 || y < 0 {
        return None;
    }
    let ux = (x % 65536) as u16;
    let uy = (y % 65536) as u16;
    if ux >= width || uy >= height {
        return None;
    }
    let w = width as usize;
    let h = height as usize;
    let n = walkable.len();
    assert(uy as int * w <= uy as int * w + ux < w * h) by (nonlinear_arith)
        requires
            ux < w,
            uy < h,
    ;
    assert(w * h == width as int * height as int);
    assert(w * h == n);
    let cell = uy as usize * w + ux as usize;
    if !walkable[cell] {
        return None;
    }
    Some((x, y))
}

/// Where the caster lands for the given draws: the first draw that lands on
/// a walkable cell of the map, tried in order; none when no draw does.
pub fn teleport_destination(
    bind_x: i32,
    bind_y: i32,
    width: u16,
    height: u16,
    walkable: &Vec<bool>,
    draws: &Vec<(i32, i32)>,
) -> (r: Option<(i32, i32)>)
    requires
        walkable@.len() == width as int * height as int,
    ensures
        r == first_landing(bind_x, bind_y, width, height, walkable@, draws@),
{
    let ghost all = draws@;
    let mut i: usize = 0;
    proof {
        assert(all.skip(0) =~= all);
    }
    while i < draws.len()
        invariant
            0 <= i <= all.len(),
            all == draws@,
            walkable@.len() == width as int * height as int,
            first_landing(bind_x, bind_y, width, height, walkable@, all) == first_landing(
                bind_x,
                bind_y,
                width,
                height,
                walkable@,
                all.skip(i as int),
            ),
        decreases all.len() - i,
    {
        proof {
            assert(all.skip(i as int)[0] == all[i as int]);
            assert(all.skip(i as int).drop_first() =~= all.skip(i + 1));
        }
        match landing_of(bind_x, bind_y, width, height, walkable, draws[i]) {
            Some(p) => {
                return Some(p);
            },
            None => {},
        }
        i = i + 1;
    }
    proof {
        assert(all.skip(i as int) =~= Seq::<(i32, i32)>::empty());
    }
    None
}

/// Casts the bind teleport: up to the try limit, a point is drawn in the
/// window around the bind point and the first that lands is returned. What
/// comes back, when anything does, is the landing of a draw inside the
/// window; when no point of the window lands, nothing comes back. Which
/// point it is, and whether the tries run out first, rests on the draws.
pub fn magic_teleport(bind_x: i32, bind_y: i32, level: i32, width: u16, height: u16, walkable: &Vec<bool>) -> (r: Option<(i32, i32)>)
    requires
        walkable@.len() == width as int * height as int,
    ensures
        r matches Some(p) ==> exists|dx: i32, dy: i32|
            -window_half(width, level) <= dx < window_half(width, level)
            && -window_half(height, level) <= dy < window_half(height, level)
            && #[trigger] landing(bind_x, bind_y, width, height, walkable@, (dx, dy)) == Some(p),
        (forall|dx: i32, dy: i32|
            -window_half(width, level) <= dx < window_half(width, level)
            && -window_half(height, level) <= dy < window_half(height, level)
            ==> #[trigger] landing(bind_x, bind_y, width, height, walkable@, (dx, dy)) is None) ==> r is None,
{
    let (sx, sy) = teleport_window(level, width, height);
    let mut tries: usize = 0;
    while tries < TELEPORT_TRIES
        invariant
            0 <= tries <= TELEPORT_TRIES,
            sx as int == window_half(width, level),
            sy as int == window_half(height, level),
            1 <= sx,
            1 <= sy,
            walkable@.len() == width as int * height as int,
        decreases TELEPORT_TRIES - tries,
    {
        let dx = roll_below(-(sx as i64), sx as i64) as i32;
        let dy = roll_below(-(sy as i64), sy as i64) as i32;
        match landing_of(bind_x, bind_y, width, height, walkable, (dx, dy)) {
            Some(p) => {
                return Some(p);
            },
            None => {},
        }
        tries = tries + 1;
    }
    None
}

} // verus!
