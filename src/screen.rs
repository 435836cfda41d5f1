//! Entities that have left the screen, and the grid tile under a click.
use vstd::prelude::*;
use crate::geometry::{Vec2i, UNIT};

verus! {

/// How far past the edge of the screen an entity may go before it is removed.
pub const DESPAWN_MARGIN: i64 = 100 * UNIT;

/// Farthest a click may land from a tile's centre and still pick it, in
/// position units.
pub const CLICK_RADIUS: i64 = 30 * UNIT;

/// Whether `pos` lies beyond the margin around a screen centred on `camera`
/// that reaches `half_w` and `half_h` from its centre.
pub open spec fn out_of_screen(pos: Vec2i, camera: Vec2i, half_w: int, half_h: int) -> bool {
    ||| pos.x > camera.x + half_w + DESPAWN_MARGIN
    ||| pos.x < camera.x - half_w - DESPAWN_MARGIN
    ||| pos.y > camera.y + half_h + DESPAWN_MARGIN
    ||| pos.y < camera.y - half_h - DESPAWN_MARGIN
}

pub fn is_out_of_screen(pos: Vec2i, camera: Vec2i, half_w: i64, half_h: i64) -> (r: bool)
    requires
        half_w >= 0,
        half_h >= 0,
    ensures
        r == out_of_screen(pos, camera, half_w as int, half_h as int),
{
    let reach_x: i128 = half_w as i128 + DESPAWN_MARGIN as i128;
    let reach_y: i128 = half_h as i128 + DESPAWN_MARGIN as i128;
    let px = pos.x as i128;
    let py = pos.y as i128;
    let cx = camera.x as i128;
    let cy = camera.y as i128;
    px > cx + reach_x || px < cx - reach_x || py > cy + reach_y || py < cy - reach_y
}

/// For each entity, whether it has left the screen and should be removed.
pub fn despawn_out_of_screen(positions: &Vec<Vec2i>, camera: Vec2i, half_w: i64, half_h: i64) -> (r:
    Vec<bool>)
    requires
        half_w >= 0,
        half_h >= 0,
    ensures
        r.len() == positions.len(),
        forall|i: int|
            0 <= i < r.len() ==> r[i] == out_of_screen(
                #[trigger] positions[i],
                camera,
                half_w as int,
                half_h as int,
            ),
{
    let mut r: Vec<bool> = Vec::new();
    let mut i: usize = 0;
    while i < positions.len()
        invariant
            i <= positions.len(),
            half_w >= 0,
            half_h >= 0,
            r.len() == i,
            forall|k: int|
                0 <= k < i ==> r[k] == out_of_screen(
                    #[trigger] positions[k],
                    camera,
                    half_w as int,
                    half_h as int,
                ),
        decreases positions.len() - i,
    {
        r.push(is_out_of_screen(positions[i], camera, half_w, half_h));
        i = i + 1;
    }
    r
}

/// `r` is the square root of `n` rounded down.
pub open spec fn is_floor_sqrt(r: int, n: int) -> bool {
    0 <= r && r * r <= n < (r + 1) * (r + 1)
}

proof fn lemma_floor_sqrt_exists(n: nat)
    ensures
        exists|r: int| #[trigger] is_floor_sqrt(r, n as int),
    decreases n,
{
    if n == 0 {
        assert(is_floor_sqrt(0, 0));
    } else {
        lemma_floor_sqrt_exists((n - 1) as nat);
        let r = choose|r: int| #[trigger] is_floor_sqrt(r, (n - 1) as int);
        if (r + 1) * (r + 1) <= n {
            assert((r + 1) * (r + 1) <= n < (r + 2) * (r + 2)) by (nonlinear_arith)
                requires
                    (r + 1) * (r + 1) <= n,
                    n - 1 < (r + 1) * (r + 1),
                    r >= 0,
            ;
            assert(is_floor_sqrt(r + 1, n as int));
        } else {
            assert(is_floor_sqrt(r, n as int));
        }
    }
}

proof fn lemma_floor_sqrt_unique(a: int, b: int, n: int)
    requires
        is_floor_sqrt(a, n),
        is_floor_sqrt(b, n),
    ensures
        a == b,
{
    if a < b {
        assert((a + 1) * (a + 1) <= b * b) by (nonlinear_arith)
            requires
                0 <= a < b,
        ;
    } else if b < a {
        assert((b + 1) * (b + 1) <= a * a) by (nonlinear_arith)
            requires
                0 <= b < a,
        ;
    }
}

/// The square root of `n`, rounded down.
pub open spec fn floor_sqrt_spec(n: nat) -> int {
    choose|r: int| #[trigger] is_floor_sqrt(r, n as int)
}

proof fn lemma_floor_sqrt_spec(n: nat, r: int)
    requires
        is_floor_sqrt(r, n as int),
    ensures
        floor_sqrt_spec(n) == r,
{
    lemma_floor_sqrt_exists(n);
    lemma_floor_sqrt_unique(floor_sqrt_spec(n), r, n as int);
}

/// The square root of `n`, rounded down.
pub fn floor_sqrt(n: u128) -> (r: u64)
    ensures
        is_floor_sqrt(r as int, n as int),
        r == floor_sqrt_spec(n as nat),
{
    let mut lo: u128 = 0;
    let mut hi: u128 = 0x1_0000_0000_0000_0000;
    assert(n < hi * hi);
    while hi - lo > 1
        invariant
            lo < hi <= 0x1_0000_0000_0000_0000,
            lo * lo <= n,
            n < hi * hi,
        decreases hi - lo,
    {
        let mid = lo + (hi - lo) / 2;
        assert(mid * mid < 0x1_0000_0000_0000_0000 * 0x1_0000_0000_0000_0000) by (nonlinear_arith)
            requires
                mid < 0x1_0000_0000_0000_0000,
        ;
        if mid * mid <= n {
            lo = mid;
        } else {
            hi = mid;
        }
    }
    proof {
        lemma_floor_sqrt_spec(n as nat, lo as int);
    }
    lo as u64
}

/// Squared distance between two points, in squared position units.
pub open spec fn squared_distance(a: Vec2i, b: Vec2i) -> int {
    (a.x - b.x) * (a.x - b.x) + (a.y - b.y) * (a.y - b.y)
}

/// The distance between two points in whole world units, rounded down.
pub open spec fn whole_distance(a: Vec2i, b: Vec2i) -> int {
    floor_sqrt_spec(squared_distance(a, b) as nat) / UNIT as int
}

/// Tile `i` is the first of the tiles nearest to the click, comparing distances
/// in whole world units.
pub open spec fn first_nearest(tiles: Seq<Vec2i>, click: Vec2i, i: int) -> bool {
    &&& 0 <= i < tiles.len()
    &&& forall|j: int|
        0 <= j < tiles.len() ==> whole_distance(tiles[i], click) <= #[trigger] whole_distance(
            tiles[j],
            click,
        )
    &&& forall|j: int|
        0 <= j < i ==> whole_distance(tiles[i], click) < #[trigger] whole_distance(tiles[j], click)
}

fn squared_distance_exec(a: Vec2i, b: Vec2i) -> (r: u128)
    requires
        squared_distance(a, b) <= u128::MAX,
    ensures
        r == squared_distance(a, b),
{
    let dx: i128 = a.x as i128 - b.x as i128;
    let dy: i128 = a.y as i128 - b.y as i128;
    let ax: u128 = if dx < 0 { (-dx) as u128 } else { dx as u128 };
    let ay: u128 = if dy < 0 { (-dy) as u128 } else { dy as u128 };
    assert(ax * ax == dx * dx && ay * ay == dy * dy) by (nonlinear_arith)
        requires
            ax == dx || ax == -dx,
            ay == dy || ay == -dy,
    ;
    assert(0 <= ax * ax && 0 <= ay * ay) by (nonlinear_arith);
    ax * ax + ay * ay
}

/// The grid tile that a click picks: the first of the tiles nearest to it, in
/// whole world units, if the click lies closer than `CLICK_RADIUS` to its
/// centre.
pub fn detect_clicked_grid(tiles: &Vec<Vec2i>, click: Vec2i) -> (r: Option<usize>)
    requires
        forall|i: int| 0 <= i < tiles.len() ==> squared_distance(#[trigger] tiles[i], click) <= u128::MAX,
    ensures
        r matches Some(i) ==> first_nearest(tiles@, click, i as int) && squared_distance(tiles[i as int], click)
            < CLICK_RADIUS * CLICK_RADIUS,
        r is None ==> forall|i: int|
            #[trigger] first_nearest(tiles@, click, i) ==> squared_distance(tiles[i], click)
                >= CLICK_RADIUS * CLICK_RADIUS,
{
    if tiles.len() == 0 {
        return None;
    }
    let mut best: usize = 0;
    let mut best_d2: u128 = squared_distance_exec(tiles[0], click);
    let mut best_key: u64 = floor_sqrt(best_d2) / (UNIT as u64);
    let mut i: usize = 1;
    while i < tiles.len()
        invariant
            1 <= i <= tiles.len(),
            best < i,
            best_d2 == squared_distance(tiles[best as int], click),
            best_key == whole_distance(tiles[best as int], click),
            forall|j: int| 0 <= j < tiles.len() ==> squared_distance(#[trigger] tiles[j], click) <= u128::MAX,
            forall|j: int| 0 <= j < i ==> best_key <= #[trigger] whole_distance(tiles[j], click),
            forall|j: int| 0 <= j < best ==> best_key < #[trigger] whole_distance(tiles[j], click),
        decreases tiles.len() - i,
    {
        let d2 = squared_distance_exec(tiles[i], click);
        let key = floor_sqrt(d2) / (UNIT as u64);
        if key < best_key {
            best = i;
            best_d2 = d2;
            best_key = key;
        }
        i = i + 1;
    }
    let radius: u128 = CLICK_RADIUS as u128;
    if best_d2 < radius * radius {
        Some(best)
    } else {
        proof {
            assert forall|k: int| #[trigger] first_nearest(tiles@, click, k) implies squared_distance(
                tiles[k],
                click,
            ) >= CLICK_RADIUS * CLICK_RADIUS by {
                if k < best {
                } else if k > best {
                    assert(whole_distance(tiles[k], click) <= whole_distance(tiles[best as int], click));
                }
            }
        }
        None
    }
}

} // verus!
